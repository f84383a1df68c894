//! The in-memory store: a mapping from UTF-8 text keys to typed values,
//! with CRUD, typed extraction, the executable codec and the compressed
//! persistence round trip.

use crate::codec::entries_ok;
use crate::codec::lemma_encode_decode;
use crate::codec::lemma_encode_push;
use crate::codec::lemma_map_of_absent;
use crate::codec::lemma_map_of_contains;
use crate::codec::lemma_map_of_index;
use crate::codec::lemma_map_of_push;
use crate::codec::lemma_map_of_remove;
use crate::codec::lemma_map_of_update;
use crate::codec::map_of_entries;
use crate::codec::spec_decode;
use crate::codec::spec_decode_value;
use crate::codec::spec_encode;
use crate::codec::spec_entry_bytes;
use crate::codec::spec_value_payload;
use crate::codec::unique_keys;
use crate::bytes_be::push_u16_be;
use crate::bytes_be::push_u32_be;
use crate::bytes_be::push_u64_be;
use crate::bytes_be::read_u16_be;
use crate::bytes_be::read_u32_be;
use crate::bytes_be::read_u64_be;
use crate::bytes_be::spec_u64_to_be;
use crate::datatype::kind_tag;
use crate::datatype::value_kind;
use crate::datatype::DataType;
use crate::datatype::DataValue;
use crate::error::Error;
use crate::zlib::zlib_compress;
use crate::zlib::zlib_decompress;
use crate::zlib::zlib_deflate;
use crate::zlib::zlib_inflate;
use vstd::prelude::*;
use vstd::slice::slice_index_get;
use vstd::slice::slice_subrange;
use vstd::slice::slice_to_vec;
use vstd::utf8::decode_utf8;
use vstd::utf8::encode_utf8;
use vstd::utf8::encode_utf8_decode_utf8;
use vstd::utf8::valid_utf8;

verus! {

/// The mathematical entries described by a vector of stored pairs, in
/// order.
pub open spec fn entries_view(s: Seq<(String, DataType)>) -> Seq<(Seq<char>, DataValue)> {
    s.map_values(|e: (String, DataType)| (e.0@, e.1@))
}

/// Compares two byte slices by contents.
fn slice_eq(a: &[u8], b: &[u8]) -> (r: bool)
    ensures
        r == (a@ == b@),
{
    let n = a.len();
    if n != b.len() {
        return false;
    }
    let mut i: usize = 0;
    while i < n
        invariant
            n == a@.len() == b@.len(),
            0 <= i <= n,
            forall|j: int| 0 <= j < i ==> a@[j] == b@[j],
        decreases n - i,
    {
        if *slice_index_get(a, i) != *slice_index_get(b, i) {
            return false;
        }
        i += 1;
    }
    proof {
        assert(a@ =~= b@);
    }
    true
}

/// Compares two text slices by contents: two texts are equal exactly when
/// their UTF-8 byte images are.
fn str_eq(a: &str, b: &str) -> (r: bool)
    ensures
        r == (a@ == b@),
{
    let r = slice_eq(a.as_bytes(), b.as_bytes());
    proof {
        if r {
            encode_utf8_decode_utf8(a@);
            encode_utf8_decode_utf8(b@);
        }
    }
    r
}

/// Relies on String::from_utf8: returns the text whose UTF-8 byte image
/// is exactly the input, and fails exactly when the input is not valid
/// UTF-8.
#[verifier::external_body]
fn string_from_utf8(bytes: Vec<u8>) -> (r: Option<String>)
    ensures
        r matches Some(s) ==> valid_utf8(bytes@) && s@ == decode_utf8(bytes@),
        r is None ==> !valid_utf8(bytes@),
{
    String::from_utf8(bytes).ok()
}

/// Appends a byte slice to a byte vector.
fn push_bytes(out: &mut Vec<u8>, data: &[u8])
    ensures
        final(out)@ == old(out)@ + data@,
{
    let n = data.len();
    let mut i: usize = 0;
    while i < n
        invariant
            i <= n == data@.len(),
            out@ == old(out)@ + data@.take(i as int),
        decreases n - i,
    {
        out.push(*slice_index_get(data, i));
        proof {
            assert(old(out)@ + data@.take(i as int) + seq![data@[i as int]] =~= old(out)@
                + data@.take(i as int + 1));
        }
        i += 1;
    }
    proof {
        assert(data@.take(n as int) =~= data@);
    }
}

/// Object to represent the in-memory database: a mapping from text keys
/// to typed values.  Its abstract value is a `Map` from key text to
/// mathematical value; insertion order never shows in the mapping.
#[derive(Debug)]
pub struct SmollDB {
    inner: Vec<(String, DataType)>,
}

impl View for SmollDB {
    type V = Map<Seq<char>, DataValue>;

    closed spec fn view(&self) -> Map<Seq<char>, DataValue> {
        map_of_entries(self.entry_seq())
    }
}

impl SmollDB {
    /// The stored entries as mathematical values, in insertion order.
    pub closed spec fn entry_seq(&self) -> Seq<(Seq<char>, DataValue)> {
        entries_view(self.inner@)
    }

    /// Every stored key is unique, and every key and payload fits its
    /// length field.  This holds of every store value; an exec caller
    /// recovers it with `use_type_invariant`.
    #[verifier::type_invariant]
    pub closed spec fn wf(&self) -> bool {
        unique_keys(self.entry_seq()) && entries_ok(self.entry_seq())
    }

    /// Creates an empty database.
    pub fn new() -> (db: SmollDB)
        ensures
            db@ == Map::<Seq<char>, DataValue>::empty(),
    {
        let db = SmollDB { inner: Vec::new() };
        proof {
            assert(db.entry_seq() =~= Seq::<(Seq<char>, DataValue)>::empty());
        }
        db
    }

    /// The store's mapping is what its entry sequence describes, the keys
    /// are unique, and every entry fits its length fields.
    pub proof fn lemma_entries(&self)
        requires
            self.wf(),
        ensures
            map_of_entries(self.entry_seq()) == self@,
            unique_keys(self.entry_seq()),
            entries_ok(self.entry_seq()),
    {
    }

    /// Returns the index of the entry holding `key`, if any.
    fn find(&self, key: &str) -> (r: Option<usize>)
        ensures
            match r {
                Some(i) => i < self.inner@.len() && self.inner@[i as int].0@ == key@,
                None => forall|i: int| 0 <= i < self.inner@.len() ==> self.inner@[i].0@ != key@,
            },
    {
        let n = self.inner.len();
        let mut i: usize = 0;
        while i < n
            invariant
                i <= n == self.inner@.len(),
                forall|j: int| 0 <= j < i ==> self.inner@[j].0@ != key@,
            decreases n - i,
        {
            let e = &self.inner[i];
            if str_eq(e.0.as_str(), key) {
                return Some(i);
            }
            i += 1;
        }
        None
    }

    /// Get the value with the specified `key`, or nothing if `key` is not
    /// contained in the database.
    pub fn get(&self, key: &str) -> (r: Option<&DataType>)
        ensures
            match r {
                Some(v) => self@.contains_key(key@) && v@ == self@[key@],
                None => !self@.contains_key(key@),
            },
    {
        proof {
            use_type_invariant(self);
        }
        match self.find(key) {
            Some(i) => {
                proof {
                    lemma_map_of_index(self.entry_seq(), i as int);
                }
                Some(&self.inner[i].1)
            },
            None => {
                proof {
                    lemma_map_of_absent(self.entry_seq(), key@);
                }
                None
            },
        }
    }

    /// Check if the database contains the specified key.
    pub fn contains_key(&self, key: &str) -> (r: bool)
        ensures
            r == self@.contains_key(key@),
    {
        self.get(key).is_some()
    }

    /// Save `value` in the database under `key`, inserting or replacing;
    /// returns the previous value if one existed.  No failure mode.
    pub fn set(&mut self, key: &str, value: DataType) -> (prev: Option<DataType>)
        ensures
            final(self)@ == old(self)@.insert(key@, value@),
            match prev {
                Some(p) => old(self)@.contains_key(key@) && p@ == old(self)@[key@],
                None => !old(self)@.contains_key(key@),
            },
    {
        proof {
            use_type_invariant(&*self);
        }
        // Pin the byte lengths of the key and of the payload, so that the
        // 8-byte length fields of the binary format stay faithful.
        let _klen = key.as_bytes().len();
        match &value {
            DataType::STRING(s) => {
                let _plen = s.as_str().as_bytes().len();
            },
            DataType::BYTES(b) => {
                let _plen = b.len();
            },
            _ => {},
        }
        let ghost old_es = self.entry_seq();
        let found = self.find(key);
        let mut entries: Vec<(String, DataType)> = Vec::new();
        std::mem::swap(&mut entries, &mut self.inner);
        match found {
            Some(i) => {
                let (k_old, v_old) = entries.remove(i);
                entries.insert(i, (k_old, value));
                proof {
                    let new_es = entries_view(entries@);
                    assert(new_es =~= old_es.update(i as int, (old_es[i as int].0, value@)));
                    assert(forall|j: int| 0 <= j < new_es.len() ==> new_es[j].0 == old_es[j].0);
                    lemma_map_of_update(old_es, i as int, value@);
                    lemma_map_of_index(old_es, i as int);
                }
                self.inner = entries;
                Some(v_old)
            },
            None => {
                entries.push((key.to_owned(), value));
                proof {
                    let new_es = entries_view(entries@);
                    assert(new_es =~= old_es.push((key@, value@)));
                    lemma_map_of_push(old_es, key@, value@);
                    lemma_map_of_absent(old_es, key@);
                }
                self.inner = entries;
                None
            },
        }
    }

    /// Remove the entry with the specified key from the database and
    /// return its value, or nothing if the key was absent.
    pub fn remove(&mut self, key: &str) -> (r: Option<DataType>)
        ensures
            final(self)@ == old(self)@.remove(key@),
            match r {
                Some(p) => old(self)@.contains_key(key@) && p@ == old(self)@[key@],
                None => !old(self)@.contains_key(key@),
            },
    {
        proof {
            use_type_invariant(&*self);
        }
        let ghost old_es = self.entry_seq();
        match self.find(key) {
            Some(i) => {
                let mut entries: Vec<(String, DataType)> = Vec::new();
                std::mem::swap(&mut entries, &mut self.inner);
                let (_k_old, v_old) = entries.remove(i);
                proof {
                    let new_es = entries_view(entries@);
                    assert(new_es =~= old_es.remove(i as int));
                    assert(forall|a: int, b: int|
                        0 <= a < b < new_es.len() ==> new_es[a].0 != new_es[b].0) by {
                        assert(forall|a: int|
                            0 <= a < new_es.len() ==> new_es[a] == (if a < i {
                                old_es[a]
                            } else {
                                old_es[a + 1]
                            }));
                    }
                    lemma_map_of_remove(old_es, i as int);
                    lemma_map_of_index(old_es, i as int);
                }
                self.inner = entries;
                Some(v_old)
            },
            None => {
                proof {
                    lemma_map_of_absent(old_es, key@);
                    assert(self@.remove(key@) =~= self@);
                }
                None
            },
        }
    }

    /// Encodes the whole store to its byte image: each entry in order,
    /// with no separators and no entry count; an empty store encodes to
    /// zero bytes.  Encoding is total.
    pub fn encode(&self) -> (r: Vec<u8>)
        ensures
            r@ == spec_encode(self.entry_seq()),
    {
        proof {
            use_type_invariant(self);
        }
        let ghost es = self.entry_seq();
        let mut out: Vec<u8> = Vec::new();
        let n = self.inner.len();
        let mut idx: usize = 0;
        while idx < n
            invariant
                idx <= n == self.inner@.len(),
                es == self.entry_seq(),
                entries_ok(es),
                out@ == spec_encode(es.take(idx as int)),
            decreases n - idx,
        {
            let ghost k = es[idx as int].0;
            let ghost v = es[idx as int].1;
            let ghost before = out@;
            let e = &self.inner[idx];
            let kb = e.0.as_str().as_bytes();
            proof {
                assert(kb@ == encode_utf8(k));
                assert(kb.len() as u64 == encode_utf8(k).len() as u64);
            }
            push_u64_be(&mut out, kb.len() as u64);
            push_bytes(&mut out, kb);
            out.push(e.1.id());
            let ghost mid = out@;
            match &e.1 {
                DataType::BOOL(b) => {
                    if *b {
                        out.push(1);
                    } else {
                        out.push(0);
                    }
                },
                DataType::INT8(x) => {
                    out.push(#[verifier::truncate] (*x as u8));
                },
                DataType::INT16(x) => {
                    push_u16_be(&mut out, #[verifier::truncate] (*x as u16));
                },
                DataType::INT32(x) => {
                    push_u32_be(&mut out, #[verifier::truncate] (*x as u32));
                },
                DataType::INT64(x) => {
                    push_u64_be(&mut out, #[verifier::truncate] (*x as u64));
                },
                DataType::FLOAT32(x) => {
                    push_u32_be(&mut out, *x);
                },
                DataType::FLOAT64(x) => {
                    push_u64_be(&mut out, *x);
                },
                DataType::STRING(s) => {
                    let sb = s.as_str().as_bytes();
                    proof {
                        assert(sb@ == encode_utf8(s@));
                        assert(sb.len() as u64 == encode_utf8(s@).len() as u64);
                    }
                    push_u64_be(&mut out, sb.len() as u64);
                    push_bytes(&mut out, sb);
                },
                DataType::BYTES(bv) => {
                    push_u64_be(&mut out, bv.len() as u64);
                    push_bytes(&mut out, bv.as_slice());
                },
            }
            proof {
                assert(mid =~= before + spec_u64_to_be(encode_utf8(k).len() as u64) + encode_utf8(
                    k,
                ) + seq![kind_tag(value_kind(v))]);
                assert(out@ =~= mid + spec_value_payload(v));
                assert(out@ =~= before + spec_entry_bytes(k, v));
                lemma_encode_push(es.take(idx as int), k, v);
                assert(es.take(idx as int + 1) =~= es.take(idx as int).push((k, v)));
            }
            idx += 1;
        }
        proof {
            assert(es.take(n as int) =~= es);
        }
        out
    }

    /// Decodes one value: the tag has been read at `pos - 1`, and the
    /// payload starts at `pos`.  Returns the value and the number of
    /// payload bytes consumed, or the decode failure.
    fn decode_value(bytes: &[u8], pos: usize, tag: u8) -> (r: Result<(DataType, usize), Error>)
        requires
            pos <= bytes@.len(),
        ensures
            match r {
                Ok(p) => {
                    &&& spec_decode_value(tag, bytes@.skip(pos as int)) == Some(
                        (p.0@, p.1 as int),
                    )
                    &&& pos + p.1 <= bytes@.len()
                },
                Err(e) => {
                    &&& e == Error::DecodeError
                    &&& spec_decode_value(tag, bytes@.skip(pos as int)) is None
                },
            },
    {
        let n = bytes.len();
        let rem = n - pos;
        let ghost s = bytes@.skip(pos as int);
        proof {
            assert(s.len() == rem);
        }
        if tag == 0 {
            if rem < 1 {
                return Err(Error::DecodeError);
            }
            let b = *slice_index_get(bytes, pos);
            proof {
                assert(s[0] == b);
            }
            Ok((DataType::BOOL(b != 0), 1))
        } else if tag == 1 {
            if rem < 1 {
                return Err(Error::DecodeError);
            }
            let b = *slice_index_get(bytes, pos);
            proof {
                assert(s[0] == b);
            }
            Ok((DataType::INT8(#[verifier::truncate] (b as i8)), 1))
        } else if tag == 2 {
            if rem < 2 {
                return Err(Error::DecodeError);
            }
            let x = read_u16_be(bytes, pos);
            proof {
                assert(s.take(2) =~= bytes@.subrange(pos as int, pos as int + 2));
            }
            Ok((DataType::INT16(#[verifier::truncate] (x as i16)), 2))
        } else if tag == 3 {
            if rem < 4 {
                return Err(Error::DecodeError);
            }
            let x = read_u32_be(bytes, pos);
            proof {
                assert(s.take(4) =~= bytes@.subrange(pos as int, pos as int + 4));
            }
            Ok((DataType::INT32(#[verifier::truncate] (x as i32)), 4))
        } else if tag == 4 {
            if rem < 8 {
                return Err(Error::DecodeError);
            }
            let x = read_u64_be(bytes, pos);
            proof {
                assert(s.take(8) =~= bytes@.subrange(pos as int, pos as int + 8));
            }
            Ok((DataType::INT64(#[verifier::truncate] (x as i64)), 8))
        } else if tag == 5 {
            if rem < 4 {
                return Err(Error::DecodeError);
            }
            let x = read_u32_be(bytes, pos);
            proof {
                assert(s.take(4) =~= bytes@.subrange(pos as int, pos as int + 4));
            }
            Ok((DataType::FLOAT32(x), 4))
        } else if tag == 6 {
            if rem < 8 {
                return Err(Error::DecodeError);
            }
            let x = read_u64_be(bytes, pos);
            proof {
                assert(s.take(8) =~= bytes@.subrange(pos as int, pos as int + 8));
            }
            Ok((DataType::FLOAT64(x), 8))
        } else if tag == 7 {
            if rem < 8 {
                return Err(Error::DecodeError);
            }
            let len64 = read_u64_be(bytes, pos);
            proof {
                assert(s.take(8) =~= bytes@.subrange(pos as int, pos as int + 8));
            }
            if len64 > (rem - 8) as u64 {
                return Err(Error::DecodeError);
            }
            let m = len64 as usize;
            let sl = slice_subrange(bytes, pos + 8, pos + 8 + m);
            proof {
                assert(s.subrange(8, 8 + m as int) =~= sl@);
            }
            match string_from_utf8(slice_to_vec(sl)) {
                Some(text) => Ok((DataType::STRING(text), 8 + m)),
                None => Err(Error::DecodeError),
            }
        } else if tag == 8 {
            if rem < 8 {
                return Err(Error::DecodeError);
            }
            let len64 = read_u64_be(bytes, pos);
            proof {
                assert(s.take(8) =~= bytes@.subrange(pos as int, pos as int + 8));
            }
            if len64 > (rem - 8) as u64 {
                return Err(Error::DecodeError);
            }
            let m = len64 as usize;
            let sl = slice_subrange(bytes, pos + 8, pos + 8 + m);
            proof {
                assert(s.subrange(8, 8 + m as int) =~= sl@);
            }
            Ok((DataType::BYTES(slice_to_vec(sl)), 8 + m))
        } else {
            Err(Error::DecodeError)
        }
    }

    /// Decodes a byte buffer, consumed front to back, into a store.
    /// Decoding is all-or-nothing: a truncated field, an unrecognized tag
    /// or invalid UTF-8 yields the decode failure and no partial store; a
    /// duplicate key silently overwrites the earlier one.
    #[verifier::rlimit(50)]
    pub fn decode(bytes: &[u8]) -> (r: Result<SmollDB, Error>)
        ensures
            match r {
                Ok(db) => {
                    &&& spec_decode(bytes@) matches Some(es) && db@ == map_of_entries(es)
                    &&& db.wf()
                },
                Err(e) => {
                    &&& e == Error::DecodeError
                    &&& spec_decode(bytes@) is None
                },
            },
    {
        let n = bytes.len();
        let mut db = SmollDB::new();
        let ghost mut done: Seq<(Seq<char>, DataValue)> = Seq::empty();
        let mut i: usize = 0;
        proof {
            assert(bytes@.skip(0) =~= bytes@);
            assert(forall|t: Seq<(Seq<char>, DataValue)>|
                Seq::<(Seq<char>, DataValue)>::empty() + t =~= t);
        }
        while i < n
            invariant
                i <= n == bytes@.len(),
                db@ == map_of_entries(done),
                spec_decode(bytes@) == (match spec_decode(bytes@.skip(i as int)) {
                    Some(t) => Some(done + t),
                    None => None::<Seq<(Seq<char>, DataValue)>>,
                }),
            decreases n - i,
        {
            let ghost s = bytes@.skip(i as int);
            if n - i < 8 {
                return Err(Error::DecodeError);
            }
            let klen64 = read_u64_be(bytes, i);
            proof {
                assert(s.take(8) =~= bytes@.subrange(i as int, i as int + 8));
            }
            if klen64 > ((n - i) - 8) as u64 {
                return Err(Error::DecodeError);
            }
            let klen = klen64 as usize;
            let ksl = slice_subrange(bytes, i + 8, i + 8 + klen);
            proof {
                assert(s.subrange(8, 8 + klen as int) =~= ksl@);
            }
            let key = match string_from_utf8(slice_to_vec(ksl)) {
                Some(k) => k,
                None => {
                    return Err(Error::DecodeError);
                },
            };
            let j = i + 8 + klen;
            let ghost rest = s.skip(8 + klen as int);
            proof {
                assert(rest =~= bytes@.skip(j as int));
            }
            if n - j < 1 {
                return Err(Error::DecodeError);
            }
            let tag = *slice_index_get(bytes, j);
            proof {
                assert(rest[0] == tag);
                assert(rest.skip(1) =~= bytes@.skip(j as int + 1));
            }
            let (value, used) = match Self::decode_value(bytes, j + 1, tag) {
                Ok(p) => p,
                Err(e) => {
                    return Err(e);
                },
            };
            db.set(key.as_str(), value);
            proof {
                lemma_map_of_push(done, key@, value@);
                done = done.push((key@, value@));
                assert(bytes@.skip(j as int + 1).skip(used as int) =~= bytes@.skip(
                    j as int + 1 + used as int,
                ));
                assert(spec_decode(s) == (match spec_decode(bytes@.skip(j as int + 1 + used as int)) {
                    Some(t) => Some(seq![(key@, value@)] + t),
                    None => None::<Seq<(Seq<char>, DataValue)>>,
                }));
                assert(forall|t: Seq<(Seq<char>, DataValue)>|
                    done.drop_last() + (seq![(key@, value@)] + t) =~= done + t);
            }
            i = j + 1 + used;
        }
        proof {
            use_type_invariant(&db);
            assert(bytes@.skip(n as int) =~= Seq::<u8>::empty());
            assert(done + Seq::<(Seq<char>, DataValue)>::empty() =~= done);
        }
        Ok(db)
    }

    /// Similar to `get`, but converts the value to the requested type if
    /// possible.  Returns nothing if the key is absent, the conversion
    /// failure if the stored variant does not match, and the converted or
    /// borrowed value otherwise.
    pub fn extract<'c, T: TryFrom<&'c DataType, Error = Error>>(&'c self, key: &str) -> (r: Option<
        Result<T, Error>,
    >)
        ensures
            r is Some <==> self@.contains_key(key@),
            r matches Some(res) ==> exists|v: &'c DataType|
                (#[trigger] call_ensures(T::try_from, (v,), res)) && v@ == self@[key@],
    {
        match self.get(key) {
            Some(v) => {
                let res = T::try_from(v);
                Some(res)
            },
            None => None,
        }
    }

    /// Encodes the store and compresses the image with the external zlib
    /// primitive at its fastest level.  The output decompresses back to
    /// exactly the encoded image; failure can only come from the
    /// compression primitive's environment, never from the content.
    pub fn to_compressed(&self) -> (r: Result<Vec<u8>, Error>)
        ensures
            r matches Ok(out) ==> {
                &&& out@ == zlib_deflate(spec_encode(self.entry_seq()))
                &&& zlib_inflate(out@) == Some(spec_encode(self.entry_seq()))
            },
            r matches Err(e) ==> e == Error::CompressionError,
    {
        let data = self.encode();
        zlib_compress(data.as_slice())
    }

    /// Decompresses a blob with the external zlib primitive and decodes
    /// the result into a store.  Fails with the compression failure on a
    /// malformed stream and with the decode failure on a malformed
    /// decompressed layout; no partial store is ever returned.
    pub fn from_compressed(bytes: &[u8]) -> (r: Result<SmollDB, Error>)
        ensures
            match r {
                Ok(db) => {
                    &&& zlib_inflate(bytes@) matches Some(raw)
                    &&& spec_decode(raw) matches Some(es)
                    &&& db@ == map_of_entries(es)
                },
                Err(e) => {
                    ||| (e == Error::CompressionError && zlib_inflate(bytes@) is None)
                    ||| (e == Error::DecodeError && (zlib_inflate(bytes@) matches Some(raw)
                        && spec_decode(raw) is None))
                },
            },
    {
        match zlib_decompress(bytes) {
            Ok(raw) => SmollDB::decode(raw.as_slice()),
            Err(e) => Err(e),
        }
    }

    /// Consumes the database and hands out every (key, value) pair
    /// exactly once, in insertion order; the database cannot be used
    /// afterwards.
    pub fn into_entries(self) -> (r: Vec<(String, DataType)>)
        ensures
            entries_view(r@) == self.entry_seq(),
            map_of_entries(entries_view(r@)) == self@,
            unique_keys(entries_view(r@)),
    {
        proof {
            use_type_invariant(&self);
        }
        let SmollDB { inner } = self;
        inner
    }
}

impl Default for SmollDB {
    /// An empty database.
    fn default() -> (db: Self)
        ensures
            db@ == Map::<Seq<char>, DataValue>::empty(),
    {
        SmollDB::new()
    }
}

impl PartialEq for SmollDB {
    /// Structural equality of stores: the same keys, each holding a
    /// structurally equal value; insertion order is irrelevant.
    fn eq(&self, other: &Self) -> (r: bool)
        ensures
            r == (self@ == other@),
    {
        proof {
            use_type_invariant(self);
            use_type_invariant(other);
        }
        let n = self.inner.len();
        let m = other.inner.len();
        let mut i: usize = 0;
        while i < n
            invariant
                i <= n == self.inner@.len(),
                unique_keys(self.entry_seq()),
                unique_keys(other.entry_seq()),
                forall|j: int|
                    0 <= j < i ==> other@.contains_key(#[trigger] self.entry_seq()[j].0)
                        && other@[self.entry_seq()[j].0] == self.entry_seq()[j].1,
            decreases n - i,
        {
            let e = &self.inner[i];
            match other.get(e.0.as_str()) {
                None => {
                    proof {
                        lemma_map_of_index(self.entry_seq(), i as int);
                    }
                    return false;
                },
                Some(w) => {
                    if !(e.1 == *w) {
                        proof {
                            lemma_map_of_index(self.entry_seq(), i as int);
                        }
                        return false;
                    }
                },
            }
            i += 1;
        }
        let mut j: usize = 0;
        while j < m
            invariant
                j <= m == other.inner@.len(),
                n == self.inner@.len(),
                unique_keys(self.entry_seq()),
                unique_keys(other.entry_seq()),
                forall|t: int|
                    0 <= t < n ==> other@.contains_key(#[trigger] self.entry_seq()[t].0)
                        && other@[self.entry_seq()[t].0] == self.entry_seq()[t].1,
                forall|t: int|
                    0 <= t < j ==> self@.contains_key(#[trigger] other.entry_seq()[t].0),
            decreases m - j,
        {
            let e = &other.inner[j];
            if !self.contains_key(e.0.as_str()) {
                proof {
                    lemma_map_of_index(other.entry_seq(), j as int);
                }
                return false;
            }
            j += 1;
        }
        proof {
            assert forall|k: Seq<char>| #![auto] self@.dom().contains(k) == other@.dom().contains(
                k,
            ) by {
                if self@.dom().contains(k) {
                    lemma_map_of_contains(self.entry_seq(), k);
                    let idx = choose|idx: int|
                        0 <= idx < self.entry_seq().len() && self.entry_seq()[idx].0 == k;
                    assert(other@.contains_key(self.entry_seq()[idx].0));
                }
                if other@.dom().contains(k) {
                    lemma_map_of_contains(other.entry_seq(), k);
                    let idx = choose|idx: int|
                        0 <= idx < other.entry_seq().len() && other.entry_seq()[idx].0 == k;
                    assert(self@.contains_key(other.entry_seq()[idx].0));
                }
            }
            assert(self@.dom() =~= other@.dom());
            assert forall|k: Seq<char>| #![auto] self@.dom().contains(k) implies self@[k]
                == other@[k] by {
                lemma_map_of_contains(self.entry_seq(), k);
                let idx = choose|idx: int|
                    0 <= idx < self.entry_seq().len() && self.entry_seq()[idx].0 == k;
                lemma_map_of_index(self.entry_seq(), idx);
                assert(other@[self.entry_seq()[idx].0] == self.entry_seq()[idx].1);
            }
            assert(self@ =~= other@);
        }
        true
    }
}

impl vstd::std_specs::cmp::PartialEqSpecImpl for SmollDB {
    open spec fn obeys_eq_spec() -> bool {
        true
    }

    open spec fn eq_spec(&self, other: &Self) -> bool {
        self@ == other@
    }
}

/// Law: the byte image of any store decodes back to exactly its entries,
/// hence to an equal mapping, whatever the insertion order was.  The
/// compression leg of the round trip is carried by the contracts of
/// `to_compressed` and `from_compressed`: what `to_compressed` emits,
/// `zlib_inflate` maps back to the encoded image.
pub proof fn lemma_store_roundtrip(db: &SmollDB)
    requires
        db.wf(),
    ensures
        spec_decode(spec_encode(db.entry_seq())) == Some(db.entry_seq()),
        map_of_entries(db.entry_seq()) == db@,
{
    db.lemma_entries();
    lemma_encode_decode(db.entry_seq());
}

/// Law: a store whose mapping is empty holds no entries, so it encodes
/// to zero bytes; and zero bytes decode to the empty store.
pub proof fn lemma_empty_store(db: &SmollDB)
    requires
        db.wf(),
        db@ == Map::<Seq<char>, DataValue>::empty(),
    ensures
        spec_encode(db.entry_seq()) == Seq::<u8>::empty(),
        spec_decode(Seq::<u8>::empty()) == Some(Seq::<(Seq<char>, DataValue)>::empty()),
{
    db.lemma_entries();
    if db.entry_seq().len() > 0 {
        lemma_map_of_index(db.entry_seq(), 0);
    }
    assert(db.entry_seq() =~= Seq::<(Seq<char>, DataValue)>::empty());
}

/// Law: setting a key and then reading it yields exactly the value set,
/// with its variant; this instantiates the contracts of `set` and `get`.
pub proof fn lemma_set_then_get(m: Map<Seq<char>, DataValue>, k: Seq<char>, v: DataValue)
    ensures
        m.insert(k, v).contains_key(k),
        m.insert(k, v)[k] == v,
{
}

/// Law: after removing a key it is absent.  That the removed value is
/// the value `get` returned just before is the pair of contracts of
/// `remove` and `get`: both name the same mapping value `m[k]`.
pub proof fn lemma_remove_then_absent(m: Map<Seq<char>, DataValue>, k: Seq<char>)
    ensures
        !m.remove(k).contains_key(k),
{
}

} // verus!
