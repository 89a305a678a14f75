//! The `application/x-www-form-urlencoded` key-value format used by query
//! strings and fragments: decoding, encoding, and the security-critical
//! merge that layers server parameters over a client's pre-existing ones.
//!
//! A query is a `&`-separated list of `key=value` pieces; keys and values
//! use percent-escapes, and `+` decodes to a space. The codec confines
//! itself to ASCII: an escape above `%7F` or a raw non-ASCII character is
//! rejected when decoding, and a parameter holding a non-ASCII character
//! is rejected when encoding (the format's escapes denote bytes, and this
//! core never needs more than ASCII).

use vstd::prelude::*;

use crate::AuthzError;

verus! {

/// View of a list of string pairs as a sequence of character-sequence
/// pairs.
pub open spec fn pairs_view(v: Seq<(String, String)>) -> Seq<(Seq<char>, Seq<char>)> {
    Seq::new(v.len(), |i: int| (v[i].0@, v[i].1@))
}

/// Characters serialized as themselves: `A-Z a-z 0-9 - _ . ~`.
pub open spec fn is_unreserved(c: char) -> bool {
    (65 <= c as int && c as int <= 90) || (97 <= c as int && c as int <= 122) || (48 <= c as int
        && c as int <= 57) || c == '-' || c == '_' || c == '.' || c == '~'
}

/// Hexadecimal digits, either case.
pub open spec fn is_hex_digit(c: char) -> bool {
    (48 <= c as int && c as int <= 57) || (97 <= c as int && c as int <= 102) || (65 <= c as int
        && c as int <= 70)
}

/// Numeric value of a hexadecimal digit.
pub open spec fn hex_value(c: char) -> int {
    if 48 <= c as int && c as int <= 57 {
        c as int - 48
    } else if 97 <= c as int && c as int <= 102 {
        c as int - 97 + 10
    } else {
        c as int - 65 + 10
    }
}

/// The uppercase hexadecimal digit for a value below 16.
pub open spec fn hex_digit_of(v: int) -> char {
    if v == 0 { '0' } else if v == 1 { '1' } else if v == 2 { '2' } else if v == 3 { '3' }
    else if v == 4 { '4' } else if v == 5 { '5' } else if v == 6 { '6' } else if v == 7 { '7' }
    else if v == 8 { '8' } else if v == 9 { '9' } else if v == 10 { 'A' } else if v == 11 { 'B' }
    else if v == 12 { 'C' } else if v == 13 { 'D' } else if v == 14 { 'E' } else { 'F' }
}

/// Whether every character of a component is ASCII, hence encodable.
pub open spec fn component_encodable(s: Seq<char>) -> bool {
    forall|i: int| 0 <= i < s.len() ==> (#[trigger] s[i] as int) < 128
}

/// Whether every key and value of a pair list is encodable.
pub open spec fn pairs_encodable(ps: Seq<(Seq<char>, Seq<char>)>) -> bool {
    forall|i: int|
        0 <= i < ps.len() ==> component_encodable(#[trigger] ps[i].0) && component_encodable(
            ps[i].1,
        )
}

/// How one character is serialized.
pub open spec fn encode_char(c: char) -> Seq<char> {
    if is_unreserved(c) {
        seq![c]
    } else {
        seq!['%', hex_digit_of(c as int / 16), hex_digit_of(c as int % 16)]
    }
}

/// Serialization of one key or value.
pub open spec fn encode_component(s: Seq<char>) -> Seq<char>
    decreases s.len(),
{
    if s.len() == 0 {
        Seq::empty()
    } else {
        encode_char(s[0]) + encode_component(s.drop_first())
    }
}

/// Deserialization of one key or value; `None` on a truncated or
/// non-hexadecimal escape, an escape above `%7F`, or a raw non-ASCII
/// character.
pub open spec fn decode_component(s: Seq<char>) -> Option<Seq<char>>
    decreases s.len(),
{
    if s.len() == 0 {
        Some(Seq::empty())
    } else if s[0] == '%' {
        if s.len() >= 3 && is_hex_digit(s[1]) && is_hex_digit(s[2]) && hex_value(s[1]) * 16
            + hex_value(s[2]) < 128 {
            match decode_component(s.skip(3)) {
                Some(rest) => Some(
                    seq![(((hex_value(s[1]) * 16 + hex_value(s[2])) as u8) as char)] + rest,
                ),
                None => None,
            }
        } else {
            None
        }
    } else if s[0] == '+' {
        match decode_component(s.skip(1)) {
            Some(rest) => Some(seq![' '] + rest),
            None => None,
        }
    } else if (s[0] as int) < 128 {
        match decode_component(s.skip(1)) {
            Some(rest) => Some(seq![s[0]] + rest),
            None => None,
        }
    } else {
        None
    }
}

/// Index of the first occurrence of `c`, or the length if absent.
pub open spec fn find_char(s: Seq<char>, c: char) -> int
    decreases s.len(),
{
    if s.len() == 0 {
        0
    } else if s[0] == c {
        0
    } else {
        1 + find_char(s.drop_first(), c)
    }
}

proof fn lemma_find_char(s: Seq<char>, c: char)
    ensures
        0 <= find_char(s, c) <= s.len(),
        find_char(s, c) < s.len() ==> s[find_char(s, c)] == c,
        forall|k: int| 0 <= k < find_char(s, c) ==> s[k] != c,
    decreases s.len(),
{
    if s.len() != 0 && s[0] != c {
        lemma_find_char(s.drop_first(), c);
        assert forall|k: int| 0 <= k < find_char(s, c) implies s[k] != c by {
            if k > 0 {
                assert(s.drop_first()[k - 1] == s[k]);
            }
        }
    }
}

/// Deserialization of one `key=value` piece; the piece must hold a `=`,
/// and the value keeps any further raw `=`.
pub open spec fn decode_pair(p: Seq<char>) -> Option<(Seq<char>, Seq<char>)> {
    let j = find_char(p, '=');
    if j == p.len() {
        None
    } else {
        match (decode_component(p.take(j)), decode_component(p.skip(j + 1))) {
            (Some(k), Some(v)) => Some((k, v)),
            _ => None,
        }
    }
}

/// Deserialization of a non-empty list of `&`-separated pieces.
pub open spec fn decode_pairs(q: Seq<char>) -> Option<Seq<(Seq<char>, Seq<char>)>>
    decreases q.len(),
{
    let i = find_char(q, '&');
    if 0 <= i && i < q.len() {
        match (decode_pair(q.take(i)), decode_pairs(q.skip(i + 1))) {
            (Some(p), Some(rest)) => Some(seq![p] + rest),
            _ => None,
        }
    } else {
        match decode_pair(q) {
            Some(p) => Some(seq![p]),
            None => None,
        }
    }
}

/// Deserialization of a whole query or fragment; the empty string holds
/// no pairs.
pub open spec fn decode_query(q: Seq<char>) -> Option<Seq<(Seq<char>, Seq<char>)>> {
    if q.len() == 0 {
        Some(Seq::empty())
    } else {
        decode_pairs(q)
    }
}

/// Serialization of one pair.
pub open spec fn encode_pair(p: (Seq<char>, Seq<char>)) -> Seq<char> {
    encode_component(p.0) + seq!['='] + encode_component(p.1)
}

/// Serialization of a pair list, pieces joined with `&`.
pub open spec fn encode_pairs(ps: Seq<(Seq<char>, Seq<char>)>) -> Seq<char>
    decreases ps.len(),
{
    if ps.len() == 0 {
        Seq::empty()
    } else if ps.len() == 1 {
        encode_pair(ps[0])
    } else {
        encode_pair(ps[0]) + seq!['&'] + encode_pairs(ps.drop_first())
    }
}

/// Whether some pair of `ps` has key `k`.
pub open spec fn has_key(ps: Seq<(Seq<char>, Seq<char>)>, k: Seq<char>) -> bool {
    exists|i: int| 0 <= i < ps.len() && #[trigger] ps[i].0 == k
}

/// The existing pairs whose keys the new parameters do not shadow, in
/// their original order.
pub open spec fn unshadowed(
    existing: Seq<(Seq<char>, Seq<char>)>,
    new_params: Seq<(Seq<char>, Seq<char>)>,
) -> Seq<(Seq<char>, Seq<char>)>
    decreases existing.len(),
{
    if existing.len() == 0 {
        Seq::empty()
    } else if has_key(new_params, existing[0].0) {
        unshadowed(existing.drop_first(), new_params)
    } else {
        seq![existing[0]] + unshadowed(existing.drop_first(), new_params)
    }
}

/// The merge rule: the surviving existing pairs first, then every new
/// parameter. New keys win on collision, so a client-supplied redirect
/// URI can never shadow or spoof a protocol parameter.
pub open spec fn merge_pairs(
    existing: Seq<(Seq<char>, Seq<char>)>,
    new_params: Seq<(Seq<char>, Seq<char>)>,
) -> Seq<(Seq<char>, Seq<char>)> {
    unshadowed(existing, new_params) + new_params
}

/// Encodability passes to the tail of a pair list.
proof fn lemma_pairs_encodable_drop(ps: Seq<(Seq<char>, Seq<char>)>)
    requires
        ps.len() > 0,
        pairs_encodable(ps),
    ensures
        pairs_encodable(ps.drop_first()),
{
    assert forall|i: int| 0 <= i < ps.drop_first().len() implies component_encodable(
        #[trigger] ps.drop_first()[i].0,
    ) && component_encodable(ps.drop_first()[i].1) by {
        assert(ps.drop_first()[i] == ps[i + 1]);
        assert(component_encodable(ps[i + 1].0) && component_encodable(ps[i + 1].1));
    }
}

/// A character's code point is a Unicode scalar value; calling this with
/// any expression of type `char` makes its bounds available.
proof fn lemma_char_code_bounds(c: char)
    ensures
        0 <= c as int <= 0x10FFFF,
{
}

/// An ASCII code point cast to `u8` and back is the same character.
proof fn lemma_char_code_roundtrip(c: char)
    requires
        0 <= c as int && (c as int) < 128,
    ensures
        (((c as int) as u8) as char) == c,
{
}

proof fn lemma_hex_round(v: int)
    requires
        0 <= v < 16,
    ensures
        is_hex_digit(hex_digit_of(v)),
        hex_value(hex_digit_of(v)) == v,
        hex_digit_of(v) != '&',
        hex_digit_of(v) != '=',
{
}

/// Every character an encodable character serializes to is ASCII and is
/// neither `&` nor `=`.
proof fn lemma_encode_char_no_sep(c: char)
    requires
        (c as int) < 128,
    ensures
        forall|k: int|
            0 <= k < encode_char(c).len() ==> #[trigger] encode_char(c)[k] != '&' && encode_char(
                c,
            )[k] != '=',
{
    if !is_unreserved(c) {
        lemma_hex_round(c as int / 16);
        lemma_hex_round(c as int % 16);
    }
}

/// An encoded component never holds a raw `&` or `=`.
proof fn lemma_encode_component_no_sep(s: Seq<char>)
    requires
        component_encodable(s),
    ensures
        forall|k: int|
            0 <= k < encode_component(s).len() ==> #[trigger] encode_component(s)[k] != '&'
                && encode_component(s)[k] != '=',
    decreases s.len(),
{
    if s.len() != 0 {
        assert(component_encodable(s.drop_first())) by {
            assert forall|i: int| 0 <= i < s.drop_first().len() implies (#[trigger] s.drop_first()[i] as int)
                < 128 by {
                assert(s.drop_first()[i] == s[i + 1]);
            }
        }
        lemma_encode_component_no_sep(s.drop_first());
        lemma_encode_char_no_sep(s[0]);
        let enc = encode_component(s);
        let head = encode_char(s[0]);
        let tail = encode_component(s.drop_first());
        assert forall|k: int| 0 <= k < enc.len() implies #[trigger] enc[k] != '&' && enc[k]
            != '=' by {
            if k < head.len() {
                assert(enc[k] == head[k]);
            } else {
                assert(enc[k] == tail[k - head.len()]);
            }
        }
    }
}

/// Finding a character distributes over concatenation when the first part
/// does not hold it.
proof fn lemma_find_char_append(a: Seq<char>, b: Seq<char>, c: char)
    requires
        forall|k: int| 0 <= k < a.len() ==> a[k] != c,
    ensures
        find_char(a + b, c) == a.len() + find_char(b, c),
    decreases a.len(),
{
    if a.len() == 0 {
        assert(a + b =~= b);
    } else {
        assert((a + b)[0] == a[0]);
        assert((a + b).drop_first() =~= a.drop_first() + b);
        assert forall|k: int| 0 <= k < a.drop_first().len() implies a.drop_first()[k] != c by {
            assert(a.drop_first()[k] == a[k + 1]);
        }
        lemma_find_char_append(a.drop_first(), b, c);
    }
}

/// Decoding inverts encoding, character by character.
proof fn lemma_decode_encode_component(s: Seq<char>)
    requires
        component_encodable(s),
    ensures
        decode_component(encode_component(s)) == Some(s),
    decreases s.len(),
{
    if s.len() == 0 {
        assert(decode_component(encode_component(s)) == Some(Seq::<char>::empty()));
        assert(Seq::<char>::empty() =~= s);
    } else {
        let c = s[0];
        lemma_char_code_bounds(c);
        assert((s[0] as int) < 128);
        let rest = s.drop_first();
        assert(component_encodable(rest)) by {
            assert forall|i: int| 0 <= i < rest.len() implies (#[trigger] rest[i] as int) < 128 by {
                assert(rest[i] == s[i + 1]);
            }
        }
        lemma_decode_encode_component(rest);
        let enc = encode_component(s);
        let head = encode_char(c);
        let tail = encode_component(rest);
        assert(enc == head + tail);
        if is_unreserved(c) {
            assert(enc[0] == c);
            assert(c != '%' && c != '+');
            assert(enc.skip(1) =~= tail);
            assert(decode_component(enc) == Some(seq![c] + rest));
            assert(seq![c] + rest =~= s);
        } else {
            let hi = c as int / 16;
            let lo = c as int % 16;
            lemma_hex_round(hi);
            lemma_hex_round(lo);
            assert(enc[0] == '%');
            assert(enc[1] == hex_digit_of(hi));
            assert(enc[2] == hex_digit_of(lo));
            assert(enc.len() >= 3);
            assert(hex_value(enc[1]) * 16 + hex_value(enc[2]) == c as int);
            lemma_char_code_roundtrip(c);
            assert((((c as int) as u8) as char) == c);
            assert(enc.skip(3) =~= tail);
            assert(decode_component(enc) == Some(seq![c] + rest));
            assert(seq![c] + rest =~= s);
        }
    }
}

/// Decoding inverts encoding for one pair.
proof fn lemma_decode_encode_pair(p: (Seq<char>, Seq<char>))
    requires
        component_encodable(p.0),
        component_encodable(p.1),
    ensures
        decode_pair(encode_pair(p)) == Some(p),
{
    let ek = encode_component(p.0);
    let ev = encode_component(p.1);
    let enc = encode_pair(p);
    lemma_encode_component_no_sep(p.0);
    lemma_encode_component_no_sep(p.1);
    assert(enc =~= ek + (seq!['='] + ev));
    lemma_find_char_append(ek, seq!['='] + ev, '=');
    assert((seq!['='] + ev)[0] == '=');
    assert(find_char(seq!['='] + ev, '=') == 0);
    let j = find_char(enc, '=');
    assert(j == ek.len());
    assert(enc.take(j) =~= ek);
    assert(enc.skip(j + 1) =~= ev);
    lemma_decode_encode_component(p.0);
    lemma_decode_encode_component(p.1);
}

/// An encoded pair is never empty and never holds `&`.
proof fn lemma_encode_pair_no_amp(p: (Seq<char>, Seq<char>))
    requires
        component_encodable(p.0),
        component_encodable(p.1),
    ensures
        encode_pair(p).len() >= 1,
        forall|k: int| 0 <= k < encode_pair(p).len() ==> #[trigger] encode_pair(p)[k] != '&',
{
    let ek = encode_component(p.0);
    let ev = encode_component(p.1);
    let enc = encode_pair(p);
    lemma_encode_component_no_sep(p.0);
    lemma_encode_component_no_sep(p.1);
    assert forall|k: int| 0 <= k < enc.len() implies #[trigger] enc[k] != '&' by {
        if k < ek.len() {
            assert(enc[k] == ek[k]);
        } else if k == ek.len() {
            assert(enc[k] == '=');
        } else {
            assert(enc[k] == ev[k - ek.len() - 1]);
        }
    }
}

/// Decoding inverts encoding: serializing any encodable pair list and
/// deserializing it gives back exactly that list. Together with the merge
/// contract, this pins the shape of a merged query: it decodes to the
/// surviving existing pairs followed by the new parameters.
pub proof fn lemma_decode_encode_pairs(ps: Seq<(Seq<char>, Seq<char>)>)
    requires
        pairs_encodable(ps),
    ensures
        decode_query(encode_pairs(ps)) == Some(ps),
    decreases ps.len(),
{
    if ps.len() == 0 {
        assert(encode_pairs(ps).len() == 0);
        assert(decode_query(encode_pairs(ps)) == Some(Seq::<(Seq<char>, Seq<char>)>::empty()));
        assert(Seq::<(Seq<char>, Seq<char>)>::empty() =~= ps);
    } else if ps.len() == 1 {
        let p = ps[0];
        assert(component_encodable(p.0) && component_encodable(p.1));
        let enc = encode_pairs(ps);
        assert(enc == encode_pair(p));
        lemma_encode_pair_no_amp(p);
        lemma_find_char_append(enc, Seq::empty(), '&');
        assert(enc + Seq::<char>::empty() =~= enc);
        assert(find_char(enc, '&') == enc.len());
        lemma_decode_encode_pair(p);
        assert(decode_pairs(enc) == Some(seq![p]));
        assert(seq![p] =~= ps);
    } else {
        let p = ps[0];
        let rest = ps.drop_first();
        assert(component_encodable(p.0) && component_encodable(p.1));
        lemma_pairs_encodable_drop(ps);
        lemma_decode_encode_pairs(rest);
        let ep = encode_pair(p);
        let er = encode_pairs(rest);
        let enc = encode_pairs(ps);
        assert(enc == ep + seq!['&'] + er);
        lemma_encode_pair_no_amp(p);
        assert(enc =~= ep + (seq!['&'] + er));
        lemma_find_char_append(ep, seq!['&'] + er, '&');
        assert((seq!['&'] + er)[0] == '&');
        assert(find_char(seq!['&'] + er, '&') == 0);
        let i = find_char(enc, '&');
        assert(i == ep.len());
        assert(0 <= i < enc.len());
        assert(enc.take(i) =~= ep);
        assert(enc.skip(i + 1) =~= er);
        lemma_decode_encode_pair(p);
        assert(er.len() != 0) by {
            assert(component_encodable(rest[0].0) && component_encodable(rest[0].1));
            lemma_encode_pair_no_amp(rest[0]);
        }
        assert(decode_pairs(er) == Some(rest));
        assert(decode_pairs(enc) == Some(seq![p] + rest));
        assert(seq![p] + rest =~= ps);
    }
}

/// Relies on `String::push`: appends the character to the string.
#[verifier::external_body]
fn push_char(s: &mut String, c: char)
    ensures
        final(s)@ == old(s)@.push(c),
{
    s.push(c);
}

fn hex_digit_exec(v: u8) -> (r: char)
    requires
        v < 16,
    ensures
        r == hex_digit_of(v as int),
{
    if v == 0 { '0' } else if v == 1 { '1' } else if v == 2 { '2' } else if v == 3 { '3' }
    else if v == 4 { '4' } else if v == 5 { '5' } else if v == 6 { '6' } else if v == 7 { '7' }
    else if v == 8 { '8' } else if v == 9 { '9' } else if v == 10 { 'A' } else if v == 11 { 'B' }
    else if v == 12 { 'C' } else if v == 13 { 'D' } else if v == 14 { 'E' } else { 'F' }
}

fn is_hex_digit_exec(c: char) -> (r: bool)
    ensures
        r == is_hex_digit(c),
{
    let u = c as u32;
    (48 <= u && u <= 57) || (97 <= u && u <= 102) || (65 <= u && u <= 70)
}

fn hex_value_exec(c: char) -> (r: u8)
    requires
        is_hex_digit(c),
    ensures
        r as int == hex_value(c),
        r < 16,
{
    let u = c as u32;
    if 48 <= u && u <= 57 {
        (u - 48) as u8
    } else if 97 <= u && u <= 102 {
        (u - 97 + 10) as u8
    } else {
        (u - 65 + 10) as u8
    }
}

fn is_unreserved_exec(c: char) -> (r: bool)
    ensures
        r == is_unreserved(c),
{
    let u = c as u32;
    (65 <= u && u <= 90) || (97 <= u && u <= 122) || (48 <= u && u <= 57) || c == '-' || c == '_'
        || c == '.' || c == '~'
}

/// Serialize the suffix of `s` starting at `from`.
fn encode_component_from(s: &str, from: usize) -> (r: Result<String, AuthzError>)
    requires
        from as int <= s@.len(),
    ensures
        match r {
            Ok(e) => component_encodable(s@.skip(from as int)) && e@ == encode_component(
                s@.skip(from as int),
            ),
            Err(er) => er == AuthzError::EncodingError && !component_encodable(
                s@.skip(from as int),
            ),
        },
    decreases s@.len() - from,
{
    let ghost suffix = s@.skip(from as int);
    let n = s.unicode_len();
    if from == n {
        proof {
            assert(suffix =~= Seq::<char>::empty());
        }
        Ok(String::new())
    } else {
        let c = s.get_char(from);
        proof {
            assert(suffix[0] == s@[from as int]);
            assert(suffix.drop_first() =~= s@.skip(from as int + 1));
        }
        if (c as u32) >= 128 {
            Err(AuthzError::EncodingError)
        } else {
            match encode_component_from(s, from + 1) {
                Err(er) => {
                    proof {
                        let tail = s@.skip(from as int + 1);
                        assert(!component_encodable(suffix)) by {
                            if component_encodable(suffix) {
                                assert forall|i: int| 0 <= i < tail.len() implies (
                                #[trigger] tail[i] as int) < 128 by {
                                    assert(tail[i] == suffix[i + 1]);
                                }
                            }
                        }
                    }
                    Err(er)
                },
                Ok(tail_enc) => {
                    let mut out = String::new();
                    if is_unreserved_exec(c) {
                        push_char(&mut out, c);
                        proof {
                            assert(out@ =~= encode_char(c));
                        }
                    } else {
                        let u = c as u32;
                        push_char(&mut out, '%');
                        let hi = hex_digit_exec((u / 16) as u8);
                        push_char(&mut out, hi);
                        let lo = hex_digit_exec((u % 16) as u8);
                        push_char(&mut out, lo);
                        proof {
                            assert(out@ =~= encode_char(c));
                        }
                    }
                    out.append(tail_enc.as_str());
                    proof {
                        assert(suffix.len() != 0);
                        assert(encode_component(suffix) == encode_char(c) + encode_component(
                            s@.skip(from as int + 1),
                        ));
                        assert forall|i: int| 0 <= i < suffix.len() implies (
                        #[trigger] suffix[i] as int) < 128 by {
                            if i > 0 {
                                assert(s@.skip(from as int + 1)[i - 1] == suffix[i]);
                            }
                        }
                    }
                    Ok(out)
                },
            }
        }
    }
}

/// Deserialize the suffix of `s` starting at `from`.
fn decode_component_from(s: &str, from: usize) -> (r: Result<String, AuthzError>)
    requires
        from as int <= s@.len(),
    ensures
        match r {
            Ok(d) => decode_component(s@.skip(from as int)) == Some(d@),
            Err(er) => er == AuthzError::MalformedRedirectTarget && decode_component(
                s@.skip(from as int),
            ) is None,
        },
    decreases s@.len() - from,
{
    let ghost suffix = s@.skip(from as int);
    let n = s.unicode_len();
    if from == n {
        proof {
            assert(suffix =~= Seq::<char>::empty());
        }
        Ok(String::new())
    } else {
        let c = s.get_char(from);
        proof {
            assert(suffix[0] == s@[from as int]);
        }
        if c == '%' {
            if n - from > 2 {
                let h1 = s.get_char(from + 1);
                let h2 = s.get_char(from + 2);
                proof {
                    assert(suffix[1] == s@[from as int + 1]);
                    assert(suffix[2] == s@[from as int + 2]);
                    assert(suffix.skip(3) =~= s@.skip(from as int + 3));
                }
                if is_hex_digit_exec(h1) && is_hex_digit_exec(h2) {
                    let v = hex_value_exec(h1) * 16 + hex_value_exec(h2);
                    if v < 128 {
                        match decode_component_from(s, from + 3) {
                            Ok(tail) => {
                                let mut out = String::new();
                                push_char(&mut out, v as char);
                                out.append(tail.as_str());
                                proof {
                                    assert(out@ =~= seq![(v as char)] + tail@);
                                }
                                Ok(out)
                            },
                            Err(er) => Err(er),
                        }
                    } else {
                        Err(AuthzError::MalformedRedirectTarget)
                    }
                } else {
                    Err(AuthzError::MalformedRedirectTarget)
                }
            } else {
                Err(AuthzError::MalformedRedirectTarget)
            }
        } else if c == '+' {
            proof {
                assert(suffix.skip(1) =~= s@.skip(from as int + 1));
            }
            match decode_component_from(s, from + 1) {
                Ok(tail) => {
                    let mut out = String::new();
                    push_char(&mut out, ' ');
                    out.append(tail.as_str());
                    proof {
                        assert(out@ =~= seq![' '] + tail@);
                    }
                    Ok(out)
                },
                Err(er) => Err(er),
            }
        } else if (c as u32) < 128 {
            proof {
                assert(suffix.skip(1) =~= s@.skip(from as int + 1));
            }
            match decode_component_from(s, from + 1) {
                Ok(tail) => {
                    let mut out = String::new();
                    push_char(&mut out, c);
                    out.append(tail.as_str());
                    proof {
                        assert(out@ =~= seq![c] + tail@);
                    }
                    Ok(out)
                },
                Err(er) => Err(er),
            }
        } else {
            Err(AuthzError::MalformedRedirectTarget)
        }
    }
}

/// Index of the first `c` at or after `from`, or the length if absent.
fn find_char_from(s: &str, from: usize, c: char) -> (r: usize)
    requires
        from as int <= s@.len(),
    ensures
        from <= r,
        r as int <= s@.len(),
        r as int - from as int == find_char(s@.skip(from as int), c),
        (r as int) < s@.len() ==> s@[r as int] == c,
    decreases s@.len() - from,
{
    let ghost suffix = s@.skip(from as int);
    let n = s.unicode_len();
    if from == n {
        proof {
            assert(suffix =~= Seq::<char>::empty());
        }
        from
    } else {
        let ch = s.get_char(from);
        proof {
            assert(suffix[0] == s@[from as int]);
            assert(suffix.drop_first() =~= s@.skip(from as int + 1));
        }
        if ch == c {
            from
        } else {
            find_char_from(s, from + 1, c)
        }
    }
}

/// Deserialize one `key=value` piece.
fn decode_pair_exec(p: &str) -> (r: Result<(String, String), AuthzError>)
    ensures
        match decode_pair(p@) {
            Some(pair) => r matches Ok(q) && q.0@ == pair.0 && q.1@ == pair.1,
            None => r == Err::<(String, String), AuthzError>(AuthzError::MalformedRedirectTarget),
        },
{
    proof {
        assert(p@.skip(0) =~= p@);
    }
    let n = p.unicode_len();
    let j = find_char_from(p, 0, '=');
    if j == n {
        Err(AuthzError::MalformedRedirectTarget)
    } else {
        let key_part = p.substring_char(0, j);
        proof {
            assert(key_part@ =~= p@.take(j as int));
        }
        match decode_component_from(key_part, 0) {
            Err(er) => {
                proof {
                    assert(key_part@.skip(0) =~= p@.take(j as int));
                }
                Err(er)
            },
            Ok(k) => {
                proof {
                    assert(key_part@.skip(0) =~= p@.take(j as int));
                }
                match decode_component_from(p, j + 1) {
                    Err(er) => Err(er),
                    Ok(v) => Ok((k, v)),
                }
            },
        }
    }
}

/// Deserialize the `&`-separated pieces of `q` from `from` on.
fn decode_pairs_from(q: &str, from: usize) -> (r: Result<Vec<(String, String)>, AuthzError>)
    requires
        from as int <= q@.len(),
    ensures
        match decode_pairs(q@.skip(from as int)) {
            Some(ps) => r matches Ok(v) && pairs_view(v@) == ps,
            None => r == Err::<Vec<(String, String)>, AuthzError>(
                AuthzError::MalformedRedirectTarget,
            ),
        },
    decreases q@.len() - from,
{
    let ghost suffix = q@.skip(from as int);
    let n = q.unicode_len();
    let i = find_char_from(q, from, '&');
    proof {
        lemma_find_char(suffix, '&');
    }
    if i < n {
        let piece = q.substring_char(from, i);
        proof {
            assert(piece@ =~= suffix.take(i as int - from as int));
            assert(q@.skip(i as int + 1) =~= suffix.skip((i as int - from as int) + 1));
        }
        match decode_pair_exec(piece) {
            Err(er) => Err(er),
            Ok(pair) => {
                match decode_pairs_from(q, i + 1) {
                    Err(er) => Err(er),
                    Ok(mut rest) => {
                        let ghost rest_snap = rest@;
                        rest.insert(0, pair);
                        proof {
                            let ps = decode_pairs(suffix).unwrap();
                            assert(pairs_view(rest@) =~= seq![(pair.0@, pair.1@)] + pairs_view(
                                rest_snap,
                            )) by {
                                assert forall|k: int| 0 <= k < rest@.len() implies rest@[k] == (
                                seq![pair] + rest_snap)[k] by {}
                            }
                            assert(pairs_view(rest@) =~= ps);
                        }
                        Ok(rest)
                    },
                }
            },
        }
    } else {
        let piece = q.substring_char(from, n);
        proof {
            assert(piece@ =~= suffix);
        }
        match decode_pair_exec(piece) {
            Err(er) => Err(er),
            Ok(pair) => {
                let mut v: Vec<(String, String)> = Vec::new();
                v.push(pair);
                proof {
                    assert(pairs_view(v@) =~= seq![(pair.0@, pair.1@)]);
                }
                Ok(v)
            },
        }
    }
}

/// Deserialize a whole query or fragment into its ordered key-value pairs.
pub fn decode_query_exec(q: &str) -> (r: Result<Vec<(String, String)>, AuthzError>)
    ensures
        match decode_query(q@) {
            Some(ps) => r matches Ok(v) && pairs_view(v@) == ps,
            None => r == Err::<Vec<(String, String)>, AuthzError>(
                AuthzError::MalformedRedirectTarget,
            ),
        },
{
    let n = q.unicode_len();
    if n == 0 {
        let v: Vec<(String, String)> = Vec::new();
        proof {
            assert(pairs_view(v@) =~= Seq::<(Seq<char>, Seq<char>)>::empty());
        }
        Ok(v)
    } else {
        proof {
            assert(q@.skip(0) =~= q@);
        }
        decode_pairs_from(q, 0)
    }
}

/// Serialize the pairs of `ps` from `i` on, pieces joined with `&`.
fn encode_pairs_from(ps: &Vec<(String, String)>, i: usize) -> (r: Result<String, AuthzError>)
    requires
        i as int <= ps@.len(),
    ensures
        match r {
            Ok(e) => pairs_encodable(pairs_view(ps@).skip(i as int)) && e@ == encode_pairs(
                pairs_view(ps@).skip(i as int),
            ),
            Err(er) => er == AuthzError::EncodingError && !pairs_encodable(
                pairs_view(ps@).skip(i as int),
            ),
        },
    decreases ps@.len() - i,
{
    let ghost suffix = pairs_view(ps@).skip(i as int);
    if i == ps.len() {
        proof {
            assert(suffix =~= Seq::<(Seq<char>, Seq<char>)>::empty());
        }
        Ok(String::new())
    } else {
        let pair = &ps[i];
        proof {
            assert(suffix[0] == (pair.0@, pair.1@));
            assert(suffix.drop_first() =~= pairs_view(ps@).skip(i as int + 1));
        }
        match encode_component_from(pair.0.as_str(), 0) {
            Err(er) => {
                proof {
                    assert(pair.0@.skip(0) =~= pair.0@);
                    assert(!pairs_encodable(suffix)) by {
                        if pairs_encodable(suffix) {
                            assert(component_encodable(suffix[0].0));
                        }
                    }
                }
                Err(er)
            },
            Ok(key_enc) => {
                proof {
                    assert(pair.0@.skip(0) =~= pair.0@);
                }
                match encode_component_from(pair.1.as_str(), 0) {
                    Err(er) => {
                        proof {
                            assert(pair.1@.skip(0) =~= pair.1@);
                            assert(!pairs_encodable(suffix)) by {
                                if pairs_encodable(suffix) {
                                    assert(component_encodable(suffix[0].1));
                                }
                            }
                        }
                        Err(er)
                    },
                    Ok(val_enc) => {
                        proof {
                            assert(pair.1@.skip(0) =~= pair.1@);
                        }
                        let mut out = key_enc;
                        push_char(&mut out, '=');
                        out.append(val_enc.as_str());
                        proof {
                            assert(out@ =~= encode_pair(suffix[0]));
                        }
                        if i + 1 == ps.len() {
                            proof {
                                assert(suffix.len() == 1);
                                assert(encode_pairs(suffix) == encode_pair(suffix[0]));
                                assert forall|k: int| 0 <= k < suffix.len() implies
                                    component_encodable(#[trigger] suffix[k].0)
                                    && component_encodable(suffix[k].1) by {}
                            }
                            Ok(out)
                        } else {
                            match encode_pairs_from(ps, i + 1) {
                                Err(er) => {
                                    proof {
                                        let tail = pairs_view(ps@).skip(i as int + 1);
                                        assert(!pairs_encodable(suffix)) by {
                                            if pairs_encodable(suffix) {
                                                lemma_pairs_encodable_drop(suffix);
                                                assert(pairs_encodable(tail));
                                            }
                                        }
                                    }
                                    Err(er)
                                },
                                Ok(rest_enc) => {
                                    push_char(&mut out, '&');
                                    out.append(rest_enc.as_str());
                                    proof {
                                        let tail = pairs_view(ps@).skip(i as int + 1);
                                        assert(suffix.len() > 1);
                                        assert(encode_pairs(suffix) == encode_pair(suffix[0])
                                            + seq!['&'] + encode_pairs(tail));
                                        assert forall|k: int| 0 <= k < suffix.len() implies
                                            component_encodable(#[trigger] suffix[k].0)
                                            && component_encodable(suffix[k].1) by {
                                            if k > 0 {
                                                assert(tail[k - 1] == suffix[k]);
                                            }
                                        }
                                    }
                                    Ok(out)
                                },
                            }
                        }
                    },
                }
            },
        }
    }
}

/// Serialize an ordered pair list into a query or fragment string.
pub fn encode_query_exec(ps: &Vec<(String, String)>) -> (r: Result<String, AuthzError>)
    ensures
        match r {
            Ok(e) => pairs_encodable(pairs_view(ps@)) && e@ == encode_pairs(pairs_view(ps@)),
            Err(er) => er == AuthzError::EncodingError && !pairs_encodable(pairs_view(ps@)),
        },
{
    proof {
        assert(pairs_view(ps@).skip(0) =~= pairs_view(ps@));
    }
    encode_pairs_from(ps, 0)
}

/// Whether some pair of `ps` has key `k`.
fn has_key_exec(ps: &Vec<(String, String)>, k: &String) -> (r: bool)
    ensures
        r == has_key(pairs_view(ps@), k@),
{
    let n = ps.len();
    let mut i: usize = 0;
    while i < n
        invariant
            n == ps@.len(),
            0 <= i <= n,
            forall|j: int| 0 <= j < i ==> pairs_view(ps@)[j].0 != k@,
        decreases n - i,
    {
        if ps[i].0.eq(k) {
            proof {
                assert(pairs_view(ps@)[i as int].0 == k@);
            }
            return true;
        }
        i = i + 1;
    }
    false
}

/// Clone a pair list.
fn clone_pairs(ps: &Vec<(String, String)>) -> (r: Vec<(String, String)>)
    ensures
        r@ == ps@,
{
    let n = ps.len();
    let mut out: Vec<(String, String)> = Vec::new();
    let mut i: usize = 0;
    while i < n
        invariant
            n == ps@.len(),
            0 <= i <= n,
            out@ == ps@.take(i as int),
        decreases n - i,
    {
        let pair = (ps[i].0.clone(), ps[i].1.clone());
        out.push(pair);
        proof {
            assert(pair == ps@[i as int]);
            assert(ps@.take(i as int + 1) =~= ps@.take(i as int).push(ps@[i as int]));
        }
        i = i + 1;
    }
    proof {
        assert(ps@.take(n as int) =~= ps@);
    }
    out
}

/// The surviving existing pairs from `i` on.
fn unshadowed_from(
    existing: &Vec<(String, String)>,
    i: usize,
    new_params: &Vec<(String, String)>,
) -> (r: Vec<(String, String)>)
    requires
        i as int <= existing@.len(),
    ensures
        pairs_view(r@) == unshadowed(pairs_view(existing@).skip(i as int), pairs_view(new_params@)),
    decreases existing@.len() - i,
{
    let ghost suffix = pairs_view(existing@).skip(i as int);
    if i == existing.len() {
        proof {
            assert(suffix =~= Seq::<(Seq<char>, Seq<char>)>::empty());
            assert(pairs_view(Seq::<(String, String)>::empty()) =~= Seq::<
                (Seq<char>, Seq<char>),
            >::empty());
        }
        Vec::new()
    } else {
        proof {
            assert(suffix[0] == (existing@[i as int].0@, existing@[i as int].1@));
            assert(suffix.drop_first() =~= pairs_view(existing@).skip(i as int + 1));
        }
        let mut rest = unshadowed_from(existing, i + 1, new_params);
        if has_key_exec(new_params, &existing[i].0) {
            rest
        } else {
            let ghost rest_snap = rest@;
            let pair = (existing[i].0.clone(), existing[i].1.clone());
            rest.insert(0, pair);
            proof {
                assert(pair == existing@[i as int]);
                assert(pairs_view(rest@) =~= seq![suffix[0]] + pairs_view(rest_snap));
            }
            rest
        }
    }
}

/// Merge new protocol parameters over a pre-existing pair list: surviving
/// existing pairs first, then every new parameter; new keys win.
pub fn merge_pairs_exec(
    existing: &Vec<(String, String)>,
    new_params: &Vec<(String, String)>,
) -> (r: Vec<(String, String)>)
    ensures
        pairs_view(r@) == merge_pairs(pairs_view(existing@), pairs_view(new_params@)),
{
    proof {
        assert(pairs_view(existing@).skip(0) =~= pairs_view(existing@));
    }
    let mut out = unshadowed_from(existing, 0, new_params);
    let ghost kept = out@;
    let mut tail = clone_pairs(new_params);
    out.append(&mut tail);
    proof {
        assert(pairs_view(out@) =~= pairs_view(kept) + pairs_view(new_params@)) by {
            assert(out@ == kept + new_params@);
        }
    }
    out
}

} // verus!


