//! The storage driver: the sole typed gateway to the underlying ordered,
//! byte-oriented key-value store. Its mathematical view is the map from key
//! bytes to stored value bytes; beside it the driver tracks a floor on the
//! ids the store-wide generator may still hand out.

use vstd::prelude::*;
use vstd::utf8::{encode_utf8, valid_utf8};

use crate::codec::{decode_record, decoding_of, encode_record, encoding_of};
use crate::errors::DbError;
use crate::models::{Todo, TodoView};

verus! {

/// Strict byte-lexicographic order on keys: the order the store keeps.
pub open spec fn bytes_lt(a: Seq<u8>, b: Seq<u8>) -> bool
    decreases a.len(),
{
    if b.len() == 0 {
        false
    } else if a.len() == 0 {
        true
    } else if a[0] < b[0] {
        true
    } else if a[0] > b[0] {
        false
    } else {
        bytes_lt(a.drop_first(), b.drop_first())
    }
}

/// `p` is a prefix of `s`.
pub open spec fn is_prefix_of(p: Seq<u8>, s: Seq<u8>) -> bool {
    p.len() <= s.len() && s.take(p.len() as int) == p
}

/// Every entry a raw scan yielded is truly in the store, with its bytes.
pub open spec fn raw_yields_entries(
    m: Map<Seq<u8>, Seq<u8>>,
    es: Seq<Result<(Vec<u8>, Vec<u8>), sled::Error>>,
) -> bool {
    forall|i: int|
        0 <= i < es.len() && (#[trigger] es[i]) is Ok ==> m.contains_key((es[i]->Ok_0).0@)
            && m[(es[i]->Ok_0).0@] == (es[i]->Ok_0).1@
}

/// The keys of a raw scan come strictly ascending in byte order.
pub open spec fn raw_sorted(es: Seq<Result<(Vec<u8>, Vec<u8>), sled::Error>>) -> bool {
    forall|i: int, j: int|
        0 <= i < j < es.len() && (#[trigger] es[i]) is Ok && (#[trigger] es[j]) is Ok ==> bytes_lt(
            (es[i]->Ok_0).0@,
            (es[j]->Ok_0).0@,
        )
}

/// Every key a raw scan yielded starts with the requested prefix.
pub open spec fn raw_within_prefix(
    es: Seq<Result<(Vec<u8>, Vec<u8>), sled::Error>>,
    p: Seq<u8>,
) -> bool {
    forall|i: int|
        0 <= i < es.len() && (#[trigger] es[i]) is Ok ==> is_prefix_of(p, (es[i]->Ok_0).0@)
}

/// When no element failed, a raw scan reached every stored key under the
/// prefix.
pub open spec fn raw_complete(
    m: Map<Seq<u8>, Seq<u8>>,
    es: Seq<Result<(Vec<u8>, Vec<u8>), sled::Error>>,
    p: Seq<u8>,
) -> bool {
    (forall|i: int| 0 <= i < es.len() ==> (#[trigger] es[i]) is Ok) ==> (forall|k: Seq<u8>|
        #[trigger] m.contains_key(k) && is_prefix_of(p, k) ==> exists|i: int|
            0 <= i < es.len() && (#[trigger] es[i]) is Ok && (es[i]->Ok_0).0@ == k)
}

/// Every yielded pair of an iteration is a stored entry, read back through
/// the codec: the string's UTF-8 bytes key the store, and the stored bytes
/// decode to exactly the yielded record.
pub open spec fn yields_entries(
    m: Map<Seq<u8>, Seq<u8>>,
    es: Seq<Result<(String, Todo), DbError>>,
) -> bool {
    forall|i: int|
        0 <= i < es.len() && (#[trigger] es[i]) is Ok ==> m.contains_key(
            encode_utf8((es[i]->Ok_0).0@),
        ) && decoding_of(m[encode_utf8((es[i]->Ok_0).0@)]) == Some((es[i]->Ok_0).1@)
}

/// The yielded keys come strictly ascending in the byte order of their
/// UTF-8 encoding.
pub open spec fn sorted_by_key(es: Seq<Result<(String, Todo), DbError>>) -> bool {
    forall|i: int, j: int|
        0 <= i < j < es.len() && (#[trigger] es[i]) is Ok && (#[trigger] es[j]) is Ok ==> bytes_lt(
            encode_utf8((es[i]->Ok_0).0@),
            encode_utf8((es[j]->Ok_0).0@),
        )
}

/// Every yielded key starts with the prefix's bytes.
pub open spec fn within_prefix(es: Seq<Result<(String, Todo), DbError>>, p: Seq<u8>) -> bool {
    forall|i: int|
        0 <= i < es.len() && (#[trigger] es[i]) is Ok ==> is_prefix_of(
            p,
            encode_utf8((es[i]->Ok_0).0@),
        )
}

/// An iteration's error elements carry only the per-element failures: an
/// engine read failure, a key that is not UTF-8, or bytes that spell no
/// record.
pub open spec fn errors_tagged(es: Seq<Result<(String, Todo), DbError>>) -> bool {
    forall|i: int|
        0 <= i < es.len() && (#[trigger] es[i]) is Err ==> (es[i]->Err_0 == DbError::StoreRead
            || es[i]->Err_0 == DbError::KeyEncoding || es[i]->Err_0 == DbError::Decode)
}

/// How one raw element of a scan comes out of the codec, at its own
/// position: an engine failure stays a `StoreRead` error element, a key
/// that is not UTF-8 becomes `KeyEncoding`, stored bytes that spell no
/// record become `Decode`, and otherwise the entry is yielded with its key
/// string and its decoded record. A failure is thus confined to its own
/// element and costs no other entry.
pub open spec fn converts_raw_at(
    re: Result<(Vec<u8>, Vec<u8>), sled::Error>,
    e: Result<(String, Todo), DbError>,
) -> bool {
    match re {
        Err(_) => e == Err::<(String, Todo), DbError>(DbError::StoreRead),
        Ok(kv) => if !valid_utf8(kv.0@) {
            e == Err::<(String, Todo), DbError>(DbError::KeyEncoding)
        } else if decoding_of(kv.1@) is None {
            e == Err::<(String, Todo), DbError>(DbError::Decode)
        } else {
            e is Ok && encode_utf8((e->Ok_0).0@) == kv.0@ && Some((e->Ok_0).1@) == decoding_of(
                kv.1@,
            )
        },
    }
}

/// The element-wise image of a whole raw scan under the codec: equal
/// length, and each element determined by the raw element at its position.
pub open spec fn converts_raw(
    raw: Seq<Result<(Vec<u8>, Vec<u8>), sled::Error>>,
    es: Seq<Result<(String, Todo), DbError>>,
) -> bool {
    es.len() == raw.len() && forall|i: int|
        0 <= i < raw.len() ==> converts_raw_at(raw[i], #[trigger] es[i])
}

/// When no element failed, an iteration yielded every stored key under the
/// prefix.
pub open spec fn complete_for_prefix(
    m: Map<Seq<u8>, Seq<u8>>,
    es: Seq<Result<(String, Todo), DbError>>,
    p: Seq<u8>,
) -> bool {
    (forall|i: int| 0 <= i < es.len() ==> (#[trigger] es[i]) is Ok) ==> (forall|k: Seq<u8>|
        #[trigger] m.contains_key(k) && is_prefix_of(p, k) ==> exists|i: int|
            0 <= i < es.len() && (#[trigger] es[i]) is Ok && encode_utf8((es[i]->Ok_0).0@) == k)
}

/// The typed storage driver over one exclusively-owned on-disk store.
///
/// Keys are UTF-8 strings; the store orders them by the byte-lexicographic
/// order of their UTF-8 encoding. Values are records under the crate's one
/// fixed binary encoding.
pub struct Db {
    handle: sled::Db,
    contents: Ghost<Map<Seq<u8>, Seq<u8>>>,
    issued_floor: Ghost<int>,
}

impl View for Db {
    type V = Map<Seq<u8>, Seq<u8>>;

    /// The store as a map from key bytes to stored value bytes.
    closed spec fn view(&self) -> Map<Seq<u8>, Seq<u8>> {
        self.contents@
    }
}

impl Db {
    /// The least id the generator may still return: every id issued through
    /// this handle so far is below it.
    pub closed spec fn id_floor(&self) -> int {
        self.issued_floor@
    }

    /// Relies on `sled::open`: opens the store at the path, creating it if
    /// absent; fails when the path is locked by another handle or corrupted
    /// beyond recovery. What the store then holds is whatever the disk held,
    /// so nothing is promised of the contents behind the returned handle.
    #[verifier::external_body]
    fn open_handle(path: &str) -> Result<sled::Db, sled::Error> {
        sled::open(path)
    }

    /// Relies on `sled::Db::generate_id`: a monotonic store-wide counter,
    /// persisted with the store; the same value is never handed out twice.
    #[verifier::external_body]
    fn generate_id_raw(&mut self) -> (r: Result<u64, sled::Error>)
        ensures
            final(self)@ == old(self)@,
            match r {
                Ok(id) => old(self).id_floor() <= id as int && final(self).id_floor() == id
                    as int + 1,
                Err(_) => final(self).id_floor() == old(self).id_floor(),
            },
    {
        self.handle.generate_id()
    }

    /// Relies on `sled::Tree::insert`: writes the value at the key,
    /// replacing any prior value at that key and touching no other entry.
    #[verifier::external_body]
    fn insert_raw(&mut self, key: &str, value: Vec<u8>) -> (r: Result<(), sled::Error>)
        ensures
            final(self).id_floor() == old(self).id_floor(),
            r is Ok ==> final(self)@ == old(self)@.insert(encode_utf8(key@), value@),
    {
        self.handle.insert(key, value).map(|_prior| ())
    }

    /// Relies on `sled::Tree::get`: returns the stored bytes at the key,
    /// `None` when the key is absent.
    #[verifier::external_body]
    fn get_raw(&self, key: &str) -> (r: Result<Option<Vec<u8>>, sled::Error>)
        ensures
            match r {
                Ok(Some(b)) => self@.contains_key(encode_utf8(key@)) && b@ == self@[encode_utf8(
                    key@,
                )],
                Ok(None) => !self@.contains_key(encode_utf8(key@)),
                Err(_) => true,
            },
    {
        match self.handle.get(key) {
            Ok(Some(v)) => Ok(Some(v.to_vec())),
            Ok(None) => Ok(None),
            Err(e) => Err(e),
        }
    }

    /// Relies on `sled::Tree::remove`: deletes the entry at the key;
    /// removing an absent key succeeds and changes nothing.
    #[verifier::external_body]
    fn remove_raw(&mut self, key: &str) -> (r: Result<(), sled::Error>)
        ensures
            final(self).id_floor() == old(self).id_floor(),
            r is Ok ==> final(self)@ == old(self)@.remove(encode_utf8(key@)),
    {
        self.handle.remove(key).map(|_prior| ())
    }

    /// Relies on `sled::Tree::iter`: yields every entry of the store in
    /// ascending byte-lexicographic key order; an element is an engine error
    /// only where reading failed.
    #[verifier::external_body]
    fn iter_raw(&self) -> (r: Vec<Result<(Vec<u8>, Vec<u8>), sled::Error>>)
        ensures
            raw_yields_entries(self@, r@),
            raw_sorted(r@),
            raw_complete(self@, r@, Seq::empty()),
    {
        let mut out = Vec::new();
        for item in self.handle.iter() {
            match item {
                Ok((k, v)) => out.push(Ok((k.to_vec(), v.to_vec()))),
                Err(e) => out.push(Err(e)),
            }
        }
        out
    }

    /// Relies on `sled::Tree::scan_prefix`: yields, in ascending key order,
    /// exactly the stored entries whose key starts with the prefix's bytes;
    /// those keys are contiguous in the store's order.
    #[verifier::external_body]
    fn scan_prefix_raw(&self, prefix: &str) -> (r: Vec<Result<(Vec<u8>, Vec<u8>), sled::Error>>)
        ensures
            raw_yields_entries(self@, r@),
            raw_sorted(r@),
            raw_within_prefix(r@, encode_utf8(prefix@)),
            raw_complete(self@, r@, encode_utf8(prefix@)),
    {
        let mut out = Vec::new();
        for item in self.handle.scan_prefix(prefix) {
            match item {
                Ok((k, v)) => out.push(Ok((k.to_vec(), v.to_vec()))),
                Err(e) => out.push(Err(e)),
            }
        }
        out
    }

    /// Relies on `String::from_utf8`: succeeds exactly on byte sequences
    /// that are valid UTF-8, returning the string those bytes encode.
    #[verifier::external_body]
    fn string_from_bytes(bytes: &[u8]) -> (r: Option<String>)
        ensures
            match r {
                Some(s) => encode_utf8(s@) == bytes@,
                None => !vstd::utf8::valid_utf8(bytes@),
            },
    {
        String::from_utf8(bytes.to_vec()).ok()
    }

    /// Turns a raw byte scan into typed elements, one by one: an engine
    /// failure stays an error element, a key that is not UTF-8 becomes
    /// `KeyEncoding`, bytes that spell no record become `Decode`, and
    /// everything else comes out as the decoded entry.
    fn convert_entries(
        &self,
        raw: Vec<Result<(Vec<u8>, Vec<u8>), sled::Error>>,
        prefix: Ghost<Seq<u8>>,
    ) -> (r: Vec<Result<(String, Todo), DbError>>)
        requires
            raw_yields_entries(self@, raw@),
            raw_sorted(raw@),
            raw_within_prefix(raw@, prefix@),
            raw_complete(self@, raw@, prefix@),
        ensures
            yields_entries(self@, r@),
            sorted_by_key(r@),
            within_prefix(r@, prefix@),
            complete_for_prefix(self@, r@, prefix@),
            errors_tagged(r@),
            converts_raw(raw@, r@),
    {
        let mut out: Vec<Result<(String, Todo), DbError>> = Vec::new();
        let mut idx: usize = 0;
        while idx < raw.len()
            invariant
                idx <= raw@.len(),
                out@.len() == idx as int,
                raw_yields_entries(self@, raw@),
                raw_sorted(raw@),
                raw_within_prefix(raw@, prefix@),
                raw_complete(self@, raw@, prefix@),
                errors_tagged(out@),
                forall|j: int| 0 <= j < idx as int ==> converts_raw_at(raw@[j], #[trigger] out@[j]),
                forall|j: int|
                    0 <= j < idx as int && (#[trigger] out@[j]) is Ok ==> (raw@[j] is Ok
                        && encode_utf8((out@[j]->Ok_0).0@) == (raw@[j]->Ok_0).0@ && decoding_of(
                        (raw@[j]->Ok_0).1@,
                    ) == Some((out@[j]->Ok_0).1@)),
            decreases raw@.len() - idx,
        {
            match &raw[idx] {
                Err(_) => out.push(Err(DbError::StoreRead)),
                Ok(pair) => {
                    match Self::string_from_bytes(pair.0.as_slice()) {
                        None => out.push(Err(DbError::KeyEncoding)),
                        Some(s) => {
                            proof {
                                vstd::utf8::encode_utf8_valid_utf8(s@);
                            }
                            match decode_record(pair.1.as_slice()) {
                                Ok(v) => out.push(Ok((s, v))),
                                Err(_) => out.push(Err(DbError::Decode)),
                            }
                        },
                    }
                },
            }
            idx = idx + 1;
        }
        proof {
            if forall|i: int| 0 <= i < out@.len() ==> (#[trigger] out@[i]) is Ok {
                assert forall|i: int| 0 <= i < raw@.len() implies (#[trigger] raw@[i]) is Ok by {
                    assert(out@[i] is Ok);
                }
                assert forall|k: Seq<u8>|
                    #[trigger] self@.contains_key(k) && is_prefix_of(prefix@, k) implies exists|
                    i: int,
                |
                    0 <= i < out@.len() && (#[trigger] out@[i]) is Ok && encode_utf8(
                        (out@[i]->Ok_0).0@,
                    ) == k by {
                    let i = choose|i: int|
                        0 <= i < raw@.len() && (#[trigger] raw@[i]) is Ok && (raw@[i]->Ok_0).0@
                            == k;
                    assert(0 <= i < out@.len() && out@[i] is Ok && encode_utf8((out@[i]->Ok_0).0@)
                        == k);
                }
            }
        }
        out
    }

    /// Opens (creating if absent) the store at the fixed default location.
    pub fn new() -> (r: Result<Db, DbError>)
        ensures
            r matches Err(e) ==> e == DbError::Open,
    {
        Db::new_with_path("db")
    }

    /// Opens (creating if absent) the store at `path`. The store holds
    /// whatever a previous handle on the same path persisted.
    pub fn new_with_path(path: &str) -> (r: Result<Db, DbError>)
        ensures
            r matches Err(e) ==> e == DbError::Open,
    {
        match Db::open_handle(path) {
            Ok(handle) => Ok(
                Db { handle, contents: Ghost(arbitrary()), issued_floor: Ghost(arbitrary()) },
            ),
            Err(_) => Err(DbError::Open),
        }
    }

    /// Atomically allocates and returns the next counter value: at least the
    /// current floor, and the floor moves strictly past it, so values from
    /// successive calls strictly increase and never repeat.
    pub fn next_id(&mut self) -> (r: Result<u64, DbError>)
        ensures
            final(self)@ == old(self)@,
            match r {
                Ok(id) => old(self).id_floor() <= id as int && final(self).id_floor() == id
                    as int + 1,
                Err(e) => e == DbError::StoreWrite && final(self).id_floor() == old(
                    self,
                ).id_floor(),
            },
    {
        match self.generate_id_raw() {
            Ok(id) => Ok(id),
            Err(_) => Err(DbError::StoreWrite),
        }
    }

    /// Encodes the record and writes it at the key, unconditionally
    /// overwriting any prior value there (upsert): on success the store maps
    /// the key's bytes to the record's encoding and no other entry moved.
    /// Encoding itself cannot fail, so the only error is an engine write
    /// failure.
    pub fn insert(&mut self, key: &str, value: &Todo) -> (r: Result<(), DbError>)
        ensures
            final(self).id_floor() == old(self).id_floor(),
            match r {
                Ok(_) => final(self)@ == old(self)@.insert(
                    encode_utf8(key@),
                    encoding_of(value@),
                ),
                Err(e) => e == DbError::StoreWrite,
            },
    {
        let bytes = match encode_record(value) {
            Ok(b) => b,
            Err(_) => unreached(),
        };
        match self.insert_raw(key, bytes) {
            Ok(_) => Ok(()),
            Err(_) => Err(DbError::StoreWrite),
        }
    }

    /// Reads and decodes the record at the key: `None` exactly when the key
    /// is absent; a `Decode` error exactly when bytes are present but spell
    /// no record. When the stored bytes are the encoding of some record,
    /// every non-failing call returns exactly that record (round trip).
    pub fn get(&self, key: &str) -> (r: Result<Option<Todo>, DbError>)
        ensures
            match r {
                Ok(Some(v)) => self@.contains_key(encode_utf8(key@)) && decoding_of(
                    self@[encode_utf8(key@)],
                ) == Some(v@),
                Ok(None) => !self@.contains_key(encode_utf8(key@)),
                Err(e) => e == DbError::StoreRead || (e == DbError::Decode && self@.contains_key(
                    encode_utf8(key@),
                ) && decoding_of(self@[encode_utf8(key@)]) is None),
            },
            forall|t: TodoView|
                (self@.contains_key(encode_utf8(key@)) && self@[encode_utf8(key@)]
                    == #[trigger] encoding_of(t) && !(r is Err)) ==> (r matches Ok(Some(v)) && v@
                    == t),
    {
        let stored = match self.get_raw(key) {
            Ok(o) => o,
            Err(_) => {
                return Err(DbError::StoreRead);
            },
        };
        match stored {
            None => Ok(None),
            Some(bytes) => match decode_record(bytes.as_slice()) {
                Ok(v) => Ok(Some(v)),
                Err(_) => Err(DbError::Decode),
            },
        }
    }

    /// Produces all entries in ascending byte-lexicographic key order.
    /// Each element decodes independently: one bad record surfaces as an
    /// error element while every other entry is still returned.
    pub fn iter(&self) -> (r: Vec<Result<(String, Todo), DbError>>)
        ensures
            yields_entries(self@, r@),
            sorted_by_key(r@),
            complete_for_prefix(self@, r@, Seq::empty()),
            errors_tagged(r@),
    {
        let raw = self.iter_raw();
        proof {
            assert forall|i: int|
                0 <= i < raw@.len() && (#[trigger] raw@[i]) is Ok implies is_prefix_of(
                Seq::empty(),
                (raw@[i]->Ok_0).0@,
            ) by {
                assert(((raw@[i]->Ok_0).0@).take(0) =~= Seq::<u8>::empty());
            }
        }
        self.convert_entries(raw, Ghost(Seq::empty()))
    }

    /// Identical contract to `iter`, restricted to the keys whose UTF-8
    /// bytes start with the prefix's bytes: prefix match, not exact match,
    /// and nothing outside the prefix is yielded.
    pub fn iter_prefix(&self, prefix: &str) -> (r: Vec<Result<(String, Todo), DbError>>)
        ensures
            yields_entries(self@, r@),
            sorted_by_key(r@),
            within_prefix(r@, encode_utf8(prefix@)),
            complete_for_prefix(self@, r@, encode_utf8(prefix@)),
            errors_tagged(r@),
    {
        let raw = self.scan_prefix_raw(prefix);
        self.convert_entries(raw, Ghost(encode_utf8(prefix@)))
    }

    /// Deletes the entry at the key if present; removing an absent key is
    /// not an error, and removing twice has the effect of removing once.
    pub fn remove(&mut self, key: &str) -> (r: Result<(), DbError>)
        ensures
            final(self).id_floor() == old(self).id_floor(),
            match r {
                Ok(_) => final(self)@ == old(self)@.remove(encode_utf8(key@)),
                Err(e) => e == DbError::StoreWrite,
            },
    {
        match self.remove_raw(key) {
            Ok(_) => Ok(()),
            Err(_) => Err(DbError::StoreWrite),
        }
    }
}

} // verus!
