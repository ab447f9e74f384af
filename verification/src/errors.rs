//! The driver's error taxonomy. Every failure is returned to the immediate
//! caller as one of these; the driver performs no recovery and no silent
//! substitution.

use vstd::prelude::*;

verus! {

/// What went wrong in a driver operation.
#[derive(Clone, Copy, Debug, PartialEq, Eq, Structural)]
pub enum DbError {
    /// The store at the requested path could not be opened: it is locked by
    /// another handle or corrupted beyond recovery.
    Open,
    /// A value could not be encoded. The fixed scheme encodes every record,
    /// so no driver operation returns this; it is kept so the taxonomy
    /// names every kind of failure the boundary distinguishes.
    Encode,
    /// Bytes exist at the key but do not parse as the requested record type.
    Decode,
    /// A stored key is not valid UTF-8; surfaces as an error element in
    /// iteration rather than failing the whole iteration.
    KeyEncoding,
    /// The underlying engine failed while reading.
    StoreRead,
    /// The underlying engine failed while writing.
    StoreWrite,
}

} // verus!
