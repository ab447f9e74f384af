//! The codec: one deterministic binary encoding between a record and a byte
//! sequence, with every multi-byte integer laid out big-endian. The scheme
//! is fixed once for the lifetime of a database file; changing it would make
//! previously written values unreadable.

use vstd::prelude::*;

use crate::errors::DbError;
use crate::models::{Todo, TodoView};
use bincode::Options;

verus! {

/// The error type bincode reports from encoding and decoding.
#[verifier::external_type_specification]
#[verifier::external_body]
pub struct ExBincodeErrorKind(bincode::ErrorKind);

/// The bytes the fixed big-endian encoding assigns to a record. The exact
/// wire layout is owned by the codec; contracts speak of it only through
/// this name.
pub uninterp spec fn encoding_of(t: TodoView) -> Seq<u8>;

/// What the fixed decoding yields on a byte sequence: the record the bytes
/// spell, or nothing when they spell no record.
pub uninterp spec fn decoding_of(b: Seq<u8>) -> Option<TodoView>;

/// Relies on bincode's `Options::serialize` with big-endian integer
/// encoding: the result is a function of the record's fields alone, and for
/// a record of plain fields the call cannot fail — the size pass runs under
/// the unlimited byte limit and the writer is a `Vec`, whose writes always
/// succeed.
#[verifier::external_body]
fn encode_raw(value: &Todo) -> (r: Result<Vec<u8>, Box<bincode::ErrorKind>>)
    ensures
        r is Ok,
        r matches Ok(b) ==> b@ == encoding_of(value@),
{
    let opts = bincode::options().with_big_endian();
    opts.serialize(&(value.id, &value.title, value.completed))
}

/// Relies on bincode's `Options::deserialize` with the same configuration:
/// deterministic in the bytes alone, and the inverse of `serialize`, so a
/// serialized record deserializes back to that record.
#[verifier::external_body]
fn decode_raw(bytes: &[u8]) -> (r: Result<Todo, Box<bincode::ErrorKind>>)
    ensures
        match r {
            Ok(v) => decoding_of(bytes@) == Some(v@),
            Err(_) => decoding_of(bytes@) is None,
        },
        r matches Ok(v) ==> forall|t: TodoView| bytes@ == #[trigger] encoding_of(t) ==> v@ == t,
        r is Err ==> forall|t: TodoView| bytes@ != #[trigger] encoding_of(t),
{
    let opts = bincode::options().with_big_endian();
    match opts.deserialize::<(u64, String, bool)>(bytes) {
        Ok((id, title, completed)) => Ok(Todo { id, title, completed }),
        Err(e) => Err(e),
    }
}

/// Encodes a record into its stable binary representation. The fixed
/// scheme encodes every record, so this always succeeds.
pub fn encode_record(value: &Todo) -> (r: Result<Vec<u8>, DbError>)
    ensures
        r matches Ok(b) && b@ == encoding_of(value@),
{
    match encode_raw(value) {
        Ok(b) => Ok(b),
        Err(_) => Err(DbError::Encode),
    }
}

/// Decodes a record from its binary representation; fails exactly when the
/// bytes spell no record. Decoding the encoding of a record yields that
/// record back unchanged.
pub fn decode_record(bytes: &[u8]) -> (r: Result<Todo, DbError>)
    ensures
        match r {
            Ok(v) => decoding_of(bytes@) == Some(v@),
            Err(e) => e == DbError::Decode && decoding_of(bytes@) is None,
        },
        forall|t: TodoView| bytes@ == #[trigger] encoding_of(t) ==> (r matches Ok(v) && v@ == t),
{
    match decode_raw(bytes) {
        Ok(v) => Ok(v),
        Err(_) => Err(DbError::Decode),
    }
}

} // verus!
