//! Storage codec for canonical event payloads.
//!
//! A payload is serialized before persistence and re-parsed by queries.
//! The format is a flat byte string: for each entry, the key's byte
//! length (8 bytes little endian) and UTF-8 bytes, then a one-byte value
//! tag and the value.  Parsing the encoding of a payload gives back
//! exactly that payload; arbitrary bytes that fit no encoding parse to
//! `None`, which a query turns into an empty payload for that record.

use vstd::prelude::*;
use vstd::slice::slice_subrange;
use vstd::bytes::{
    lemma_auto_spec_u64_to_from_le_bytes, spec_u64_from_le_bytes, spec_u64_to_le_bytes,
    u64_from_le_bytes, u64_to_le_bytes,
};
use vstd::utf8::{decode_utf8, encode_utf8, valid_utf8};

use crate::events::{payload_view, PayloadEntry, PayloadEntryView, PayloadValue, PayloadValueView};

verus! {

/// Value tags in the serialized form.
pub open spec fn tag_of(v: PayloadValueView) -> u8 {
    match v {
        PayloadValueView::Bool(_) => 66,
        PayloadValueView::Int(_) => 105,
        PayloadValueView::UInt(_) => 117,
        PayloadValueView::Text(_) => 115,
    }
}

/// A length-prefixed UTF-8 string.
pub open spec fn enc_str(s: Seq<char>) -> Seq<u8> {
    spec_u64_to_le_bytes(encode_utf8(s).len() as u64) + encode_utf8(s)
}

/// One serialized value: its tag, then its bytes.
pub open spec fn enc_value(v: PayloadValueView) -> Seq<u8> {
    match v {
        PayloadValueView::Bool(b) => seq![66u8, if b { 1u8 } else { 0u8 }],
        PayloadValueView::Int(i) => seq![105u8] + spec_u64_to_le_bytes(i as u64),
        PayloadValueView::UInt(u) => seq![117u8] + spec_u64_to_le_bytes(u),
        PayloadValueView::Text(s) => seq![115u8] + enc_str(s),
    }
}

/// One serialized entry: the key, then the value.
pub open spec fn enc_entry(e: PayloadEntryView) -> Seq<u8> {
    enc_str(e.key) + enc_value(e.value)
}

/// A serialized payload: its entries, in order.
pub open spec fn enc_payload(p: Seq<PayloadEntryView>) -> Seq<u8>
    decreases p.len(),
{
    if p.len() == 0 {
        Seq::empty()
    } else {
        enc_entry(p[0]) + enc_payload(p.drop_first())
    }
}

/// The encoding above is exact only for strings whose UTF-8 form fits the
/// 8-byte length prefix; every string held by a running program does.
pub open spec fn wf_value(v: PayloadValueView) -> bool {
    match v {
        PayloadValueView::Text(s) => encode_utf8(s).len() <= u64::MAX,
        _ => true,
    }
}

/// A payload the codec round-trips: every key and text value fits its
/// length prefix.
pub open spec fn wf_payload(p: Seq<PayloadEntryView>) -> bool {
    forall|i: int|
        0 <= i < p.len() ==> encode_utf8(#[trigger] p[i].key).len() <= u64::MAX && wf_value(
            p[i].value,
        )
}

/// Read an 8-byte little-endian length.
pub open spec fn parse_u64(b: Seq<u8>) -> Option<(u64, Seq<u8>)> {
    if b.len() >= 8 {
        Some((spec_u64_from_le_bytes(b.take(8)), b.skip(8)))
    } else {
        None
    }
}

/// Read a length-prefixed UTF-8 string.
pub open spec fn parse_str(b: Seq<u8>) -> Option<(Seq<char>, Seq<u8>)> {
    match parse_u64(b) {
        None => None,
        Some((n, rest)) => if rest.len() >= n && valid_utf8(rest.take(n as int)) {
            Some((decode_utf8(rest.take(n as int)), rest.skip(n as int)))
        } else {
            None
        },
    }
}

/// Read one tagged value.
pub open spec fn parse_value(b: Seq<u8>) -> Option<(PayloadValueView, Seq<u8>)> {
    if b.len() == 0 {
        None
    } else if b[0] == 66 {
        if b.len() >= 2 && (b[1] == 0 || b[1] == 1) {
            Some((PayloadValueView::Bool(b[1] == 1), b.skip(2)))
        } else {
            None
        }
    } else if b[0] == 105 {
        match parse_u64(b.skip(1)) {
            None => None,
            Some((n, rest)) => Some((PayloadValueView::Int(n as i64), rest)),
        }
    } else if b[0] == 117 {
        match parse_u64(b.skip(1)) {
            None => None,
            Some((n, rest)) => Some((PayloadValueView::UInt(n), rest)),
        }
    } else if b[0] == 115 {
        match parse_str(b.skip(1)) {
            None => None,
            Some((s, rest)) => Some((PayloadValueView::Text(s), rest)),
        }
    } else {
        None
    }
}

/// Read one entry: key, then value.
pub open spec fn parse_entry(b: Seq<u8>) -> Option<(PayloadEntryView, Seq<u8>)> {
    match parse_str(b) {
        None => None,
        Some((key, rest)) => match parse_value(rest) {
            None => None,
            Some((value, tail)) => Some((PayloadEntryView { key, value }, tail)),
        },
    }
}

/// Consuming an entry always shortens the input.
pub proof fn lemma_parse_entry_shrinks(b: Seq<u8>)
    requires
        parse_entry(b) is Some,
    ensures
        (parse_entry(b)->0).1.len() < b.len(),
{
}

/// Read a whole payload: entries until the bytes run out.
pub open spec fn parse_payload(b: Seq<u8>) -> Option<Seq<PayloadEntryView>>
    decreases b.len(),
{
    if b.len() == 0 {
        Some(Seq::empty())
    } else {
        match parse_entry(b) {
            None => None,
            Some((e, rest)) => if rest.len() < b.len() {
                match parse_payload(rest) {
                    None => None,
                    Some(tail) => Some(seq![e] + tail),
                }
            } else {
                None
            },
        }
    }
}

/// `parse_u64` undoes the length encoding, wherever it sits in the input.
proof fn lemma_parse_u64_round(x: u64, rest: Seq<u8>)
    ensures
        parse_u64(spec_u64_to_le_bytes(x) + rest) == Some((x, rest)),
{
    lemma_auto_spec_u64_to_from_le_bytes();
    let b = spec_u64_to_le_bytes(x) + rest;
    assert(b.take(8) =~= spec_u64_to_le_bytes(x));
    assert(b.skip(8) =~= rest);
}

/// `parse_str` undoes `enc_str`, wherever it sits in the input.
proof fn lemma_parse_str_round(s: Seq<char>, rest: Seq<u8>)
    requires
        encode_utf8(s).len() <= u64::MAX,
    ensures
        parse_str(enc_str(s) + rest) == Some((s, rest)),
{
    broadcast use vstd::utf8::encode_utf8_valid_utf8;
    broadcast use vstd::utf8::encode_utf8_decode_utf8;

    lemma_auto_spec_u64_to_from_le_bytes();
    let bytes = encode_utf8(s);
    let n = bytes.len() as u64;
    let b = enc_str(s) + rest;
    assert(b =~= spec_u64_to_le_bytes(n) + (bytes + rest));
    lemma_parse_u64_round(n, bytes + rest);
    let after = (bytes + rest);
    assert(after.take(n as int) =~= bytes);
    assert(after.skip(n as int) =~= rest);
}

/// `parse_value` undoes `enc_value`, wherever it sits in the input.
proof fn lemma_parse_value_round(v: PayloadValueView, rest: Seq<u8>)
    requires
        wf_value(v),
    ensures
        parse_value(enc_value(v) + rest) == Some((v, rest)),
{
    lemma_auto_spec_u64_to_from_le_bytes();
    let b = enc_value(v) + rest;
    match v {
        PayloadValueView::Bool(bit) => {
            assert(b.skip(2) =~= rest);
        },
        PayloadValueView::Int(i) => {
            assert(b[0] == 105);
            assert(b.skip(1) =~= spec_u64_to_le_bytes(i as u64) + rest);
            lemma_parse_u64_round(i as u64, rest);
            assert((i as u64) as i64 == i) by (bit_vector);
        },
        PayloadValueView::UInt(u) => {
            assert(b[0] == 117);
            assert(b.skip(1) =~= spec_u64_to_le_bytes(u) + rest);
            lemma_parse_u64_round(u, rest);
        },
        PayloadValueView::Text(s) => {
            assert(b[0] == 115);
            assert(b.skip(1) =~= enc_str(s) + rest);
            lemma_parse_str_round(s, rest);
        },
    }
}

/// `parse_entry` undoes `enc_entry`, wherever it sits in the input.
proof fn lemma_parse_entry_round(e: PayloadEntryView, rest: Seq<u8>)
    requires
        encode_utf8(e.key).len() <= u64::MAX,
        wf_value(e.value),
    ensures
        parse_entry(enc_entry(e) + rest) == Some((e, rest)),
{
    let b = enc_entry(e) + rest;
    assert(b =~= enc_str(e.key) + (enc_value(e.value) + rest));
    lemma_parse_str_round(e.key, enc_value(e.value) + rest);
    lemma_parse_value_round(e.value, rest);
}

/// Round-trip: parsing the serialized form of a payload yields exactly
/// that payload, entry for entry and in order.
pub proof fn lemma_payload_round_trip(p: Seq<PayloadEntryView>)
    requires
        wf_payload(p),
    ensures
        parse_payload(enc_payload(p)) == Some(p),
    decreases p.len(),
{
    if p.len() == 0 {
        assert(enc_payload(p).len() == 0);
        assert(parse_payload(enc_payload(p)) == Some(Seq::<PayloadEntryView>::empty()));
        assert(p =~= Seq::<PayloadEntryView>::empty());
    } else {
        let e = p[0];
        let tail = p.drop_first();
        let b = enc_payload(p);
        assert(b == enc_entry(e) + enc_payload(tail));
        lemma_parse_entry_round(e, enc_payload(tail));
        assert(enc_entry(e).len() > 0) by {
            lemma_auto_spec_u64_to_from_le_bytes();
        }
        assert(b.len() > 0);
        assert(wf_payload(tail)) by {
            assert(forall|i: int| 0 <= i < tail.len() ==> tail[i] == p[i + 1]);
        }
        lemma_payload_round_trip(tail);
        assert(parse_payload(b) == Some(seq![e] + parse_payload(enc_payload(tail))->0));
        assert(seq![e] + tail =~= p);
    }
}

/// Relies on core::str::from_utf8: it returns a string over exactly the
/// given bytes when they are valid UTF-8, and an error otherwise.
#[verifier::external_body]
fn utf8_to_string(bytes: &[u8]) -> (r: Option<String>)
    ensures
        r is Some <==> valid_utf8(bytes@),
        r is Some ==> encode_utf8(r->0@) == bytes@,
{
    match core::str::from_utf8(bytes) {
        Ok(s) => Some(s.to_string()),
        Err(_) => None,
    }
}

/// Serialize a payload for storage.
pub fn encode_payload(entries: &Vec<PayloadEntry>) -> (r: Vec<u8>)
    ensures
        r@ == enc_payload(payload_view(entries@)),
        wf_payload(payload_view(entries@)),
{
    let ghost views = payload_view(entries@);
    let mut out: Vec<u8> = Vec::new();
    let n: usize = entries.len();
    let mut i: usize = 0;
    proof {
        assert(enc_payload(views.take(0)) =~= Seq::<u8>::empty());
    }
    while i < n
        invariant
            0 <= i <= n,
            n == entries@.len(),
            views == payload_view(entries@),
            out@ == enc_payload(views.take(i as int)),
            forall|j: int|
                0 <= j < i ==> encode_utf8(#[trigger] views[j].key).len() <= u64::MAX && wf_value(
                    views[j].value,
                ),
        decreases n - i,
    {
        let entry = &entries[i];
        append_str(&mut out, &entry.key);
        append_value(&mut out, &entry.value);
        proof {
            lemma_enc_payload_snoc(views, i as int);
        }
        i = i + 1;
    }
    proof {
        assert(views.take(n as int) =~= views);
    }
    out
}

/// `enc_payload` of one more entry appends that entry's encoding.
proof fn lemma_enc_payload_snoc(views: Seq<PayloadEntryView>, i: int)
    requires
        0 <= i < views.len(),
    ensures
        enc_payload(views.take(i + 1)) == enc_payload(views.take(i)) + enc_entry(views[i]),
    decreases i,
{
    if i == 0 {
        reveal_with_fuel(enc_payload, 3);
        assert(views.take(1)[0] == views[0]);
        assert(views.take(1).drop_first() =~= Seq::<PayloadEntryView>::empty());
        assert(enc_payload(views.take(1)) =~= enc_entry(views[0]));
        assert(enc_payload(views.take(0)) =~= Seq::<u8>::empty());
        assert(enc_payload(views.take(0)) + enc_entry(views[0]) =~= enc_entry(views[0]));
    } else {
        let a = views.take(i + 1);
        let b = views.take(i);
        assert(a.len() > 0);
        assert(a[0] == views[0]);
        assert(b[0] == views[0]);
        assert(a.drop_first() =~= views.drop_first().take(i));
        assert(b.drop_first() =~= views.drop_first().take(i - 1));
        lemma_enc_payload_snoc(views.drop_first(), i - 1);
        assert(views.drop_first()[i - 1] == views[i]);
        assert(enc_payload(a) =~= enc_payload(b) + enc_entry(views[i]));
    }
}

/// Append the length-prefixed UTF-8 bytes of a string.
fn append_str(out: &mut Vec<u8>, s: &String)
    ensures
        final(out)@ == old(out)@ + enc_str(s@),
        encode_utf8(s@).len() <= u64::MAX,
{
    let bytes: &[u8] = s.as_str().as_bytes();
    let mut len_bytes = u64_to_le_bytes(bytes.len() as u64);
    out.append(&mut len_bytes);
    out.extend_from_slice(bytes);
    proof {
        assert(final(out)@ =~= old(out)@ + enc_str(s@));
    }
}

/// Append one tagged value.
fn append_value(out: &mut Vec<u8>, v: &PayloadValue)
    ensures
        final(out)@ == old(out)@ + enc_value(v@),
        wf_value(v@),
{
    match v {
        PayloadValue::Bool(b) => {
            out.push(66);
            out.push(if *b { 1 } else { 0 });
            proof {
                assert(final(out)@ =~= old(out)@ + enc_value(v@));
            }
        },
        PayloadValue::Int(i) => {
            out.push(105);
            let mut word = u64_to_le_bytes(*i as u64);
            out.append(&mut word);
            proof {
                assert(final(out)@ =~= old(out)@ + enc_value(v@));
            }
        },
        PayloadValue::UInt(u) => {
            out.push(117);
            let mut word = u64_to_le_bytes(*u);
            out.append(&mut word);
            proof {
                assert(final(out)@ =~= old(out)@ + enc_value(v@));
            }
        },
        PayloadValue::Text(s) => {
            out.push(115);
            append_str(out, s);
            proof {
                assert(final(out)@ =~= old(out)@ + enc_value(v@));
            }
        },
    }
}

/// Parse a serialized payload; `None` when the bytes fit no encoding.
pub fn parse_payload_bytes(data: &Vec<u8>) -> (r: Option<Vec<PayloadEntry>>)
    ensures
        r is Some <==> parse_payload(data@) is Some,
        r is Some ==> payload_view(r->0@) == parse_payload(data@)->0,
{
    proof {
        assert(data@.skip(0) =~= data@);
    }
    parse_entries_from(data, 0)
}

/// Parse every entry from `pos` to the end.
fn parse_entries_from(data: &Vec<u8>, pos: usize) -> (r: Option<Vec<PayloadEntry>>)
    requires
        pos <= data@.len(),
    ensures
        r is Some <==> parse_payload(data@.skip(pos as int)) is Some,
        r is Some ==> payload_view(r->0@) == parse_payload(data@.skip(pos as int))->0,
    decreases data@.len() - pos,
{
    let ghost b = data@.skip(pos as int);
    if pos == data.len() {
        proof {
            assert(b.len() == 0);
        }
        let empty: Vec<PayloadEntry> = Vec::new();
        proof {
            assert(payload_view(empty@) =~= Seq::<PayloadEntryView>::empty());
            assert(parse_payload(b) == Some(Seq::<PayloadEntryView>::empty()));
        }
        Some(empty)
    } else {
        match parse_one_entry(data, pos) {
            None => None,
            Some((entry, next_pos)) => {
                proof {
                    lemma_parse_entry_shrinks(b);
                }
                match parse_entries_from(data, next_pos) {
                    None => None,
                    Some(mut tail) => {
                        tail.insert(0, entry);
                        proof {
                            assert(payload_view(tail@) =~= seq![entry@] + parse_payload(
                                data@.skip(next_pos as int),
                            )->0);
                        }
                        Some(tail)
                    },
                }
            },
        }
    }
}

/// Parse one entry at `pos`; on success the new position points just
/// past it.
fn parse_one_entry(data: &Vec<u8>, pos: usize) -> (r: Option<(PayloadEntry, usize)>)
    requires
        pos <= data@.len(),
    ensures
        r is Some <==> parse_entry(data@.skip(pos as int)) is Some,
        r is Some ==> {
            &&& pos < (r->0).1 <= data@.len()
            &&& ((r->0).0)@ == (parse_entry(data@.skip(pos as int))->0).0
            &&& data@.skip((r->0).1 as int) == (parse_entry(data@.skip(pos as int))->0).1
        },
    decreases data@.len() - pos,
{
    match parse_string_at(data, pos) {
        None => None,
        Some((key, val_pos)) => match parse_value_at(data, val_pos) {
            None => None,
            Some((value, next_pos)) => Some((PayloadEntry { key, value }, next_pos)),
        },
    }
}

/// Parse an 8-byte little-endian length at `pos`.
fn parse_u64_at(data: &Vec<u8>, pos: usize) -> (r: Option<(u64, usize)>)
    requires
        pos <= data@.len(),
    ensures
        r is Some <==> parse_u64(data@.skip(pos as int)) is Some,
        r is Some ==> {
            &&& (r->0).1 == pos + 8
            &&& (r->0).1 <= data@.len()
            &&& (r->0).0 == (parse_u64(data@.skip(pos as int))->0).0
            &&& data@.skip((r->0).1 as int) == (parse_u64(data@.skip(pos as int))->0).1
        },
{
    if data.len() - pos >= 8 {
        let word: &[u8] = slice_subrange(data.as_slice(), pos, pos + 8);
        proof {
            assert(word@ =~= data@.skip(pos as int).take(8));
            assert(data@.skip(pos as int).skip(8) =~= data@.skip(pos as int + 8));
        }
        let x = u64_from_le_bytes(word);
        Some((x, pos + 8))
    } else {
        None
    }
}

/// Parse a length-prefixed UTF-8 string at `pos`.
fn parse_string_at(data: &Vec<u8>, pos: usize) -> (r: Option<(String, usize)>)
    requires
        pos <= data@.len(),
    ensures
        r is Some <==> parse_str(data@.skip(pos as int)) is Some,
        r is Some ==> {
            &&& pos < (r->0).1 <= data@.len()
            &&& ((r->0).0)@ == (parse_str(data@.skip(pos as int))->0).0
            &&& data@.skip((r->0).1 as int) == (parse_str(data@.skip(pos as int))->0).1
        },
{
    match parse_u64_at(data, pos) {
        None => None,
        Some((n, str_pos)) => {
            if n <= (data.len() - str_pos) as u64 {
                let end: usize = str_pos + (n as usize);
                let bytes: &[u8] = slice_subrange(data.as_slice(), str_pos, end);
                proof {
                    assert(bytes@ =~= data@.skip(str_pos as int).take(n as int));
                    assert(data@.skip(str_pos as int).skip(n as int) =~= data@.skip(end as int));
                }
                match utf8_to_string(bytes) {
                    None => None,
                    Some(s) => {
                        proof {
                            broadcast use vstd::utf8::encode_utf8_decode_utf8;

                            assert(s@ == decode_utf8(bytes@));
                        }
                        Some((s, end))
                    },
                }
            } else {
                None
            }
        },
    }
}

/// Parse one tagged value at `pos`.
fn parse_value_at(data: &Vec<u8>, pos: usize) -> (r: Option<(PayloadValue, usize)>)
    requires
        pos <= data@.len(),
    ensures
        r is Some <==> parse_value(data@.skip(pos as int)) is Some,
        r is Some ==> {
            &&& pos < (r->0).1 <= data@.len()
            &&& ((r->0).0)@ == (parse_value(data@.skip(pos as int))->0).0
            &&& data@.skip((r->0).1 as int) == (parse_value(data@.skip(pos as int))->0).1
        },
{
    let ghost b = data@.skip(pos as int);
    if pos == data.len() {
        return None;
    }
    let tag: u8 = data[pos];
    proof {
        assert(b[0] == tag);
    }
    if tag == 66 {
        if data.len() - pos >= 2 {
            let bit: u8 = data[pos + 1];
            proof {
                assert(b[1] == bit);
                assert(b.skip(2) =~= data@.skip(pos as int + 2));
            }
            if bit == 0 || bit == 1 {
                Some((PayloadValue::Bool(bit == 1), pos + 2))
            } else {
                None
            }
        } else {
            None
        }
    } else if tag == 105 {
        proof {
            assert(b.skip(1) =~= data@.skip(pos as int + 1));
        }
        match parse_u64_at(data, pos + 1) {
            None => None,
            Some((n, next_pos)) => Some((PayloadValue::Int(n as i64), next_pos)),
        }
    } else if tag == 117 {
        proof {
            assert(b.skip(1) =~= data@.skip(pos as int + 1));
        }
        match parse_u64_at(data, pos + 1) {
            None => None,
            Some((n, next_pos)) => Some((PayloadValue::UInt(n), next_pos)),
        }
    } else if tag == 115 {
        proof {
            assert(b.skip(1) =~= data@.skip(pos as int + 1));
        }
        match parse_string_at(data, pos + 1) {
            None => None,
            Some((s, next_pos)) => Some((PayloadValue::Text(s), next_pos)),
        }
    } else {
        None
    }
}

} // verus!
