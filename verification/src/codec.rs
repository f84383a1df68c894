//! The binary encoding and decoding scheme, as pure specification, together
//! with the round-trip and failure-mode lemmas.
//!
//! Per-entry layout, entries concatenated with no separators and no entry
//! count prefix:
//! 1. 8-byte big-endian length of the key's UTF-8 byte representation.
//! 2. The key's raw UTF-8 bytes.
//! 3. 1-byte type tag.
//! 4. The type-specific payload: fixed-width big-endian scalars, or an
//!    8-byte big-endian length followed by raw bytes for text and blobs.

use crate::bytes_be::lemma_i16_u16_roundtrip;
use crate::bytes_be::lemma_i32_u32_roundtrip;
use crate::bytes_be::lemma_i64_u64_roundtrip;
use crate::bytes_be::lemma_i8_u8_roundtrip;
use crate::bytes_be::lemma_u16_be_roundtrip;
use crate::bytes_be::lemma_u32_be_roundtrip;
use crate::bytes_be::lemma_u64_be_roundtrip;
use crate::bytes_be::spec_u16_from_be;
use crate::bytes_be::spec_u16_to_be;
use crate::bytes_be::spec_u32_from_be;
use crate::bytes_be::spec_u32_to_be;
use crate::bytes_be::spec_u64_from_be;
use crate::bytes_be::spec_u64_to_be;
use crate::datatype::kind_tag;
use crate::datatype::value_kind;
use crate::datatype::DataValue;
use vstd::prelude::*;
use vstd::utf8::decode_utf8;
use vstd::utf8::encode_utf8;
use vstd::utf8::encode_utf8_decode_utf8;
use vstd::utf8::encode_utf8_valid_utf8;
use vstd::utf8::valid_utf8;

verus! {

/// The type-specific payload bytes of one value (everything after the tag
/// byte).
pub open spec fn spec_value_payload(v: DataValue) -> Seq<u8> {
    match v {
        DataValue::Bool(b) => seq![if b { 1u8 } else { 0u8 }],
        DataValue::Int8(x) => seq![x as u8],
        DataValue::Int16(x) => spec_u16_to_be(x as u16),
        DataValue::Int32(x) => spec_u32_to_be(x as u32),
        DataValue::Int64(x) => spec_u64_to_be(x as u64),
        DataValue::Float32(x) => spec_u32_to_be(x),
        DataValue::Float64(x) => spec_u64_to_be(x),
        DataValue::Text(s) => spec_u64_to_be(encode_utf8(s).len() as u64) + encode_utf8(s),
        DataValue::Bytes(b) => spec_u64_to_be(b.len() as u64) + b,
    }
}

/// The full byte image of one entry: key length, key bytes, tag byte,
/// payload.
pub open spec fn spec_entry_bytes(k: Seq<char>, v: DataValue) -> Seq<u8> {
    spec_u64_to_be(encode_utf8(k).len() as u64) + encode_utf8(k) + seq![
        kind_tag(value_kind(v)),
    ] + spec_value_payload(v)
}

/// The byte image of a sequence of entries, concatenated in order; an
/// empty sequence encodes to zero bytes.
pub open spec fn spec_encode(entries: Seq<(Seq<char>, DataValue)>) -> Seq<u8>
    decreases entries.len(),
{
    if entries.len() == 0 {
        Seq::empty()
    } else {
        spec_entry_bytes(entries[0].0, entries[0].1) + spec_encode(entries.drop_first())
    }
}

/// A length-prefixed payload is faithful only while its length fits the
/// 8-byte length field; every payload an executable store can hold does.
pub open spec fn value_ok(v: DataValue) -> bool {
    match v {
        DataValue::Text(s) => encode_utf8(s).len() <= usize::MAX,
        DataValue::Bytes(b) => b.len() <= usize::MAX,
        _ => true,
    }
}

/// Validity of one entry: key bytes and payload fit their length fields.
pub open spec fn entry_ok(k: Seq<char>, v: DataValue) -> bool {
    encode_utf8(k).len() <= usize::MAX && value_ok(v)
}

/// Validity of a whole entry sequence.
pub open spec fn entries_ok(entries: Seq<(Seq<char>, DataValue)>) -> bool {
    forall|i: int| 0 <= i < entries.len() ==> entry_ok(entries[i].0, entries[i].1)
}

/// One value-decoding step: reading from the front of `b`, yields the
/// value for the given tag and the number of bytes consumed, or `None` on
/// a truncated payload, an unrecognized tag, or invalid UTF-8 text.
pub open spec fn spec_decode_value(tag: u8, b: Seq<u8>) -> Option<(DataValue, int)> {
    if tag == 0 {
        if b.len() >= 1 {
            Some((DataValue::Bool(b[0] != 0), 1))
        } else {
            None
        }
    } else if tag == 1 {
        if b.len() >= 1 {
            Some((DataValue::Int8(b[0] as i8), 1))
        } else {
            None
        }
    } else if tag == 2 {
        if b.len() >= 2 {
            Some((DataValue::Int16(spec_u16_from_be(b.take(2)) as i16), 2))
        } else {
            None
        }
    } else if tag == 3 {
        if b.len() >= 4 {
            Some((DataValue::Int32(spec_u32_from_be(b.take(4)) as i32), 4))
        } else {
            None
        }
    } else if tag == 4 {
        if b.len() >= 8 {
            Some((DataValue::Int64(spec_u64_from_be(b.take(8)) as i64), 8))
        } else {
            None
        }
    } else if tag == 5 {
        if b.len() >= 4 {
            Some((DataValue::Float32(spec_u32_from_be(b.take(4))), 4))
        } else {
            None
        }
    } else if tag == 6 {
        if b.len() >= 8 {
            Some((DataValue::Float64(spec_u64_from_be(b.take(8))), 8))
        } else {
            None
        }
    } else if tag == 7 {
        if b.len() >= 8 {
            let n = spec_u64_from_be(b.take(8)) as int;
            if 8 + n <= b.len() {
                let sb = b.subrange(8, 8 + n);
                if valid_utf8(sb) {
                    Some((DataValue::Text(decode_utf8(sb)), 8 + n))
                } else {
                    None
                }
            } else {
                None
            }
        } else {
            None
        }
    } else if tag == 8 {
        if b.len() >= 8 {
            let n = spec_u64_from_be(b.take(8)) as int;
            if 8 + n <= b.len() {
                Some((DataValue::Bytes(b.subrange(8, 8 + n)), 8 + n))
            } else {
                None
            }
        } else {
            None
        }
    } else {
        None
    }
}

/// Decoding of a whole buffer, consumed front to back with no
/// backtracking; all-or-nothing: `None` on any framing violation.
pub open spec fn spec_decode(b: Seq<u8>) -> Option<Seq<(Seq<char>, DataValue)>>
    decreases b.len(),
{
    if b.len() == 0 {
        Some(Seq::empty())
    } else if b.len() < 8 {
        None
    } else {
        let klen = spec_u64_from_be(b.take(8)) as int;
        if 8 + klen > b.len() {
            None
        } else {
            let kb = b.subrange(8, 8 + klen);
            if !valid_utf8(kb) {
                None
            } else {
                let rest = b.skip(8 + klen);
                if rest.len() < 1 {
                    None
                } else {
                    let after_tag = rest.skip(1);
                    match spec_decode_value(rest[0], after_tag) {
                        None => None,
                        Some((v, used)) => {
                            if used < 0 || used > after_tag.len() {
                                None
                            } else {
                                match spec_decode(after_tag.skip(used)) {
                                    None => None,
                                    Some(tail) => Some(
                                        seq![(decode_utf8(kb), v)] + tail,
                                    ),
                                }
                            }
                        },
                    }
                }
            }
        }
    }
}

/// The mapping a sequence of entries describes: inserted in order, a later
/// duplicate key silently overwrites an earlier one.
pub open spec fn map_of_entries(entries: Seq<(Seq<char>, DataValue)>) -> Map<Seq<char>, DataValue>
    decreases entries.len(),
{
    if entries.len() == 0 {
        Map::empty()
    } else {
        map_of_entries(entries.drop_last()).insert(entries.last().0, entries.last().1)
    }
}

/// Appending an entry appends its byte image.
pub proof fn lemma_encode_push(entries: Seq<(Seq<char>, DataValue)>, k: Seq<char>, v: DataValue)
    ensures
        spec_encode(entries.push((k, v))) == spec_encode(entries) + spec_entry_bytes(k, v),
    decreases entries.len(),
{
    let p = entries.push((k, v));
    if entries.len() == 0 {
        assert(p[0] == (k, v));
        assert(p.drop_first() =~= Seq::<(Seq<char>, DataValue)>::empty());
        assert(spec_encode(p.drop_first()) == Seq::<u8>::empty());
        assert(spec_entry_bytes(k, v) + Seq::<u8>::empty() =~= spec_entry_bytes(k, v));
        assert(spec_encode(entries) + spec_entry_bytes(k, v) =~= spec_entry_bytes(k, v));
    } else {
        assert(p.drop_first() =~= entries.drop_first().push((k, v)));
        lemma_encode_push(entries.drop_first(), k, v);
        assert(spec_entry_bytes(p[0].0, p[0].1) + (spec_encode(entries.drop_first())
            + spec_entry_bytes(k, v)) =~= (spec_entry_bytes(entries[0].0, entries[0].1)
            + spec_encode(entries.drop_first())) + spec_entry_bytes(k, v));
    }
}

/// No two entries share a key.
pub open spec fn unique_keys(entries: Seq<(Seq<char>, DataValue)>) -> bool {
    forall|i: int, j: int| 0 <= i < j < entries.len() ==> entries[i].0 != entries[j].0
}

/// Appending an entry inserts its pair into the described mapping.
pub proof fn lemma_map_of_push(entries: Seq<(Seq<char>, DataValue)>, k: Seq<char>, v: DataValue)
    ensures
        map_of_entries(entries.push((k, v))) == map_of_entries(entries).insert(k, v),
{
    assert(entries.push((k, v)).drop_last() =~= entries);
}

/// A key no entry carries is absent from the described mapping.
pub proof fn lemma_map_of_absent(entries: Seq<(Seq<char>, DataValue)>, k: Seq<char>)
    requires
        forall|i: int| 0 <= i < entries.len() ==> entries[i].0 != k,
    ensures
        !map_of_entries(entries).contains_key(k),
    decreases entries.len(),
{
    if entries.len() > 0 {
        lemma_map_of_absent(entries.drop_last(), k);
    }
}

/// With unique keys, each entry is found in the described mapping with
/// exactly its value.
pub proof fn lemma_map_of_index(entries: Seq<(Seq<char>, DataValue)>, i: int)
    requires
        unique_keys(entries),
        0 <= i < entries.len(),
    ensures
        map_of_entries(entries).contains_key(entries[i].0),
        map_of_entries(entries)[entries[i].0] == entries[i].1,
    decreases entries.len(),
{
    if i < entries.len() - 1 {
        lemma_map_of_index(entries.drop_last(), i);
    }
}

/// Every key of the described mapping comes from some entry.
pub proof fn lemma_map_of_contains(entries: Seq<(Seq<char>, DataValue)>, k: Seq<char>)
    requires
        map_of_entries(entries).contains_key(k),
    ensures
        exists|i: int| 0 <= i < entries.len() && entries[i].0 == k,
    decreases entries.len(),
{
    if entries.len() > 0 {
        if entries.last().0 == k {
            assert(entries[entries.len() - 1].0 == k);
        } else {
            lemma_map_of_contains(entries.drop_last(), k);
            let i = choose|i: int|
                0 <= i < entries.drop_last().len() && entries.drop_last()[i].0 == k;
            assert(entries[i].0 == k);
        }
    }
}

/// Replacing the value of the entry holding a key updates the described
/// mapping at that key.
pub proof fn lemma_map_of_update(entries: Seq<(Seq<char>, DataValue)>, i: int, v: DataValue)
    requires
        unique_keys(entries),
        0 <= i < entries.len(),
    ensures
        map_of_entries(entries.update(i, (entries[i].0, v))) == map_of_entries(entries).insert(
            entries[i].0,
            v,
        ),
    decreases entries.len(),
{
    let k = entries[i].0;
    let upd = entries.update(i, (k, v));
    if i == entries.len() - 1 {
        assert(upd.drop_last() =~= entries.drop_last());
        assert(upd.last() == (k, v));
        assert(map_of_entries(entries.drop_last()).insert(k, v) =~= map_of_entries(
            entries,
        ).insert(k, v));
    } else {
        assert(upd.drop_last() =~= entries.drop_last().update(i, (k, v)));
        assert(upd.last() == entries.last());
        lemma_map_of_update(entries.drop_last(), i, v);
        let l = entries.last();
        assert(l.0 != k);
        assert(map_of_entries(entries.drop_last()).insert(k, v).insert(l.0, l.1)
            =~= map_of_entries(entries.drop_last()).insert(l.0, l.1).insert(k, v));
    }
}

/// Removing the entry holding a key removes that key from the described
/// mapping.
pub proof fn lemma_map_of_remove(entries: Seq<(Seq<char>, DataValue)>, i: int)
    requires
        unique_keys(entries),
        0 <= i < entries.len(),
    ensures
        map_of_entries(entries.remove(i)) == map_of_entries(entries).remove(entries[i].0),
    decreases entries.len(),
{
    let k = entries[i].0;
    let rem = entries.remove(i);
    if i == entries.len() - 1 {
        assert(rem =~= entries.drop_last());
        lemma_map_of_absent(entries.drop_last(), k);
        assert(map_of_entries(entries.drop_last()) =~= map_of_entries(
            entries.drop_last(),
        ).insert(k, entries[i].1).remove(k));
    } else {
        assert(rem.drop_last() =~= entries.drop_last().remove(i));
        assert(rem.last() == entries.last());
        lemma_map_of_remove(entries.drop_last(), i);
        let l = entries.last();
        assert(l.0 != k);
        assert(map_of_entries(entries.drop_last()).remove(k).insert(l.0, l.1)
            =~= map_of_entries(entries.drop_last()).insert(l.0, l.1).remove(k));
    }
}

/// Decoding the payload of a value from the front of a longer buffer
/// recovers exactly that value and consumes exactly the payload.
pub proof fn lemma_value_roundtrip(v: DataValue, tail: Seq<u8>)
    requires
        value_ok(v),
    ensures
        spec_decode_value(kind_tag(value_kind(v)), spec_value_payload(v) + tail) == Some(
            (v, spec_value_payload(v).len() as int),
        ),
{
    let p = spec_value_payload(v);
    let b = p + tail;
    match v {
        DataValue::Bool(x) => {
            assert(b[0] == (if x { 1u8 } else { 0u8 }));
        },
        DataValue::Int8(x) => {
            assert(b[0] == x as u8);
            lemma_i8_u8_roundtrip(x);
        },
        DataValue::Int16(x) => {
            assert(b.take(2) =~= spec_u16_to_be(x as u16));
            lemma_u16_be_roundtrip(x as u16);
            lemma_i16_u16_roundtrip(x);
        },
        DataValue::Int32(x) => {
            assert(b.take(4) =~= spec_u32_to_be(x as u32));
            lemma_u32_be_roundtrip(x as u32);
            lemma_i32_u32_roundtrip(x);
        },
        DataValue::Int64(x) => {
            assert(b.take(8) =~= spec_u64_to_be(x as u64));
            lemma_u64_be_roundtrip(x as u64);
            lemma_i64_u64_roundtrip(x);
        },
        DataValue::Float32(x) => {
            assert(b.take(4) =~= spec_u32_to_be(x));
            lemma_u32_be_roundtrip(x);
        },
        DataValue::Float64(x) => {
            assert(b.take(8) =~= spec_u64_to_be(x));
            lemma_u64_be_roundtrip(x);
        },
        DataValue::Text(s) => {
            let sb = encode_utf8(s);
            let n = sb.len() as u64;
            assert(b.take(8) =~= spec_u64_to_be(n));
            lemma_u64_be_roundtrip(n);
            assert(spec_u64_from_be(b.take(8)) as int == sb.len());
            assert(b.subrange(8, 8 + sb.len() as int) =~= sb);
            encode_utf8_valid_utf8(s);
            encode_utf8_decode_utf8(s);
        },
        DataValue::Bytes(bb) => {
            let n = bb.len() as u64;
            assert(b.take(8) =~= spec_u64_to_be(n));
            lemma_u64_be_roundtrip(n);
            assert(spec_u64_from_be(b.take(8)) as int == bb.len());
            assert(b.subrange(8, 8 + bb.len() as int) =~= bb);
        },
    }
}

/// Decoding a buffer that starts with the byte image of one entry parses
/// exactly that entry and continues with the rest of the buffer.
pub proof fn lemma_entry_decode(k: Seq<char>, v: DataValue, tail: Seq<u8>)
    requires
        entry_ok(k, v),
    ensures
        spec_decode(spec_entry_bytes(k, v) + tail) == match spec_decode(tail) {
            Some(es) => Some(seq![(k, v)] + es),
            None => None::<Seq<(Seq<char>, DataValue)>>,
        },
{
    let kb = encode_utf8(k);
    let klen = kb.len() as int;
    let p = spec_value_payload(v);
    let tag = kind_tag(value_kind(v));
    let b = spec_entry_bytes(k, v) + tail;

    assert(b.take(8) =~= spec_u64_to_be(klen as u64));
    lemma_u64_be_roundtrip(klen as u64);
    assert(spec_u64_from_be(b.take(8)) as int == klen);
    assert(b.len() >= 8 + klen + 1);
    assert(b.subrange(8, 8 + klen) =~= kb);
    encode_utf8_valid_utf8(k);
    encode_utf8_decode_utf8(k);
    let rest = b.skip(8 + klen);
    assert(rest =~= seq![tag] + p + tail);
    assert(rest[0] == tag);
    let after_tag = rest.skip(1);
    assert(after_tag =~= p + tail);
    lemma_value_roundtrip(v, tail);
    assert(spec_decode_value(tag, after_tag) == Some((v, p.len() as int)));
    assert(after_tag.skip(p.len() as int) =~= tail);
}

/// Round trip of the codec: decoding an encoded entry sequence yields
/// exactly that sequence, for every sequence whose entries fit their
/// length fields.
pub proof fn lemma_encode_decode(entries: Seq<(Seq<char>, DataValue)>)
    requires
        entries_ok(entries),
    ensures
        spec_decode(spec_encode(entries)) == Some(entries),
    decreases entries.len(),
{
    if entries.len() == 0 {
        assert(spec_decode(spec_encode(entries)) == Some(Seq::<(Seq<char>, DataValue)>::empty()));
        assert(entries =~= Seq::<(Seq<char>, DataValue)>::empty());
    } else {
        let first = entries[0];
        let rest = entries.drop_first();
        assert(entries_ok(rest)) by {
            assert(forall|i: int|
                0 <= i < rest.len() ==> rest[i] == entries[i + 1] && entry_ok(
                    entries[i + 1].0,
                    entries[i + 1].1,
                ));
        }
        lemma_encode_decode(rest);
        lemma_entry_decode(first.0, first.1, spec_encode(rest));
        assert(seq![(first.0, first.1)] + rest =~= entries);
    }
}

/// Decoding a buffer that starts with the images of some entries parses
/// exactly those entries and then continues with whatever follows.
pub proof fn lemma_decode_after_prefix(entries: Seq<(Seq<char>, DataValue)>, x: Seq<u8>)
    requires
        entries_ok(entries),
    ensures
        spec_decode(spec_encode(entries) + x) == match spec_decode(x) {
            Some(t) => Some(entries + t),
            None => None::<Seq<(Seq<char>, DataValue)>>,
        },
    decreases entries.len(),
{
    if entries.len() == 0 {
        assert(spec_encode(entries) + x =~= x);
        if spec_decode(x) is Some {
            assert(entries + spec_decode(x)->Some_0 =~= spec_decode(x)->Some_0);
        }
    } else {
        let e0 = entries[0];
        let rest = entries.drop_first();
        assert(entries_ok(rest)) by {
            assert(forall|i: int|
                0 <= i < rest.len() ==> rest[i] == entries[i + 1] && entry_ok(
                    entries[i + 1].0,
                    entries[i + 1].1,
                ));
        }
        assert(spec_encode(entries) + x =~= spec_entry_bytes(e0.0, e0.1) + (spec_encode(rest)
            + x));
        lemma_entry_decode(e0.0, e0.1, spec_encode(rest) + x);
        lemma_decode_after_prefix(rest, x);
        if spec_decode(x) is Some {
            let t = spec_decode(x)->Some_0;
            assert(seq![(e0.0, e0.1)] + (rest + t) =~= entries + t);
        }
    }
}

/// A payload with its last byte missing never decodes: every payload's
/// width is announced before it, by its tag or by its length field.
pub proof fn lemma_value_truncated(v: DataValue)
    requires
        value_ok(v),
    ensures
        spec_decode_value(kind_tag(value_kind(v)), spec_value_payload(v).drop_last()) is None,
{
    let p = spec_value_payload(v);
    let t = p.drop_last();
    match v {
        DataValue::Text(s) => {
            let sb = encode_utf8(s);
            let n = sb.len() as int;
            if n > 0 {
                assert(t.take(8) =~= spec_u64_to_be(n as u64));
                lemma_u64_be_roundtrip(n as u64);
                assert(8 + n > t.len());
            }
        },
        DataValue::Bytes(bb) => {
            let n = bb.len() as int;
            if n > 0 {
                assert(t.take(8) =~= spec_u64_to_be(n as u64));
                lemma_u64_be_roundtrip(n as u64);
                assert(8 + n > t.len());
            }
        },
        _ => {},
    }
}

/// Law: dropping the final byte of a non-empty encoded image makes the
/// whole image undecodable — the last payload comes up short, and
/// decoding is all-or-nothing.
#[verifier::rlimit(60)]
pub proof fn lemma_truncation_fails(entries: Seq<(Seq<char>, DataValue)>)
    requires
        entries_ok(entries),
        entries.len() > 0,
    ensures
        spec_decode(spec_encode(entries).drop_last()) is None,
{
    let init = entries.drop_last();
    let kv = entries.last();
    let k = kv.0;
    let v = kv.1;
    assert(entries =~= init.push((k, v)));
    assert(entries_ok(init) && entry_ok(k, v)) by {
        assert(forall|i: int|
            0 <= i < entries.len() ==> entry_ok(entries[i].0, entries[i].1));
        assert(forall|i: int| 0 <= i < init.len() ==> init[i] == entries[i]);
        assert((k, v) == entries[entries.len() - 1]);
    }
    lemma_encode_push(init, k, v);
    let eb = spec_entry_bytes(k, v);
    let p = spec_value_payload(v);
    assert(p.len() >= 1);
    assert(spec_encode(entries).drop_last() =~= spec_encode(init) + eb.drop_last());
    lemma_decode_after_prefix(init, eb.drop_last());
    let kb = encode_utf8(k);
    let klen = kb.len() as int;
    let tag = kind_tag(value_kind(v));
    let b = eb.drop_last();
    assert(b =~= spec_u64_to_be(klen as u64) + kb + seq![tag] + p.drop_last());
    assert(b.take(8) =~= spec_u64_to_be(klen as u64));
    lemma_u64_be_roundtrip(klen as u64);
    assert(b.subrange(8, 8 + klen) =~= kb);
    encode_utf8_valid_utf8(k);
    let rest = b.skip(8 + klen);
    assert(rest =~= seq![tag] + p.drop_last());
    assert(rest[0] == tag);
    assert(rest.skip(1) =~= p.drop_last());
    lemma_value_truncated(v);
    assert(spec_decode(b) is None);
}

/// Law: an entry whose tag byte is 9 or more never decodes, whatever
/// bytes follow the tag — an unrecognized tag is fatal for the whole
/// image.
pub proof fn lemma_bad_tag_fails(
    entries: Seq<(Seq<char>, DataValue)>,
    k: Seq<char>,
    tag: u8,
    tail: Seq<u8>,
)
    requires
        entries_ok(entries),
        encode_utf8(k).len() <= usize::MAX,
        tag >= 9,
    ensures
        spec_decode(
            spec_encode(entries) + (spec_u64_to_be(encode_utf8(k).len() as u64) + encode_utf8(k)
                + seq![tag] + tail),
        ) is None,
{
    let kb = encode_utf8(k);
    let klen = kb.len() as int;
    let x = spec_u64_to_be(klen as u64) + kb + seq![tag] + tail;
    lemma_decode_after_prefix(entries, x);
    assert(x.take(8) =~= spec_u64_to_be(klen as u64));
    lemma_u64_be_roundtrip(klen as u64);
    assert(x.subrange(8, 8 + klen) =~= kb);
    encode_utf8_valid_utf8(k);
    let rest = x.skip(8 + klen);
    assert(rest =~= seq![tag] + tail);
    assert(rest[0] == tag);
    assert(spec_decode(x) is None);
}

/// The empty store is the unique fixed point: zero bytes decode to zero
/// entries, and zero entries encode to zero bytes.
pub proof fn lemma_empty_roundtrip()
    ensures
        spec_encode(Seq::<(Seq<char>, DataValue)>::empty()) == Seq::<u8>::empty(),
        spec_decode(Seq::<u8>::empty()) == Some(Seq::<(Seq<char>, DataValue)>::empty()),
{
}

} // verus!
