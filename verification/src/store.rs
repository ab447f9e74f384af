//! Declarations of the outside store engine's types, so that the driver can
//! hold a handle and speak of engine failures in its signatures.

use sled::Db as SledDb;
use sled::Error as SledError;
use vstd::prelude::*;

verus! {

/// The sled database handle the driver wraps: one on-disk ordered
/// byte-keyed, byte-valued map plus a persisted id counter.
#[verifier::external_type_specification]
#[verifier::external_body]
pub struct ExSledDb(SledDb);

/// The sled error type; the driver maps every engine failure to a `DbError`.
#[verifier::external_type_specification]
#[verifier::external_body]
pub struct ExSledError(SledError);

} // verus!
