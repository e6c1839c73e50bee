//! Bytes from outside, read as text.

use vstd::prelude::*;
use vstd::utf8::{
    char_u32_cast, decode_first_scalar, decode_utf8, decode_utf8_encode_utf8, encode_utf8, encode_utf8_decode_utf8,
    encode_utf8_first_scalar, encode_utf8_valid_utf8, is_ascii_chars, is_ascii_chars_encode_utf8,
    valid_utf8,
};

verus! {

/// The text of `bytes` with every ill-formed part replaced.
pub uninterp spec fn utf8_lossy(bytes: Seq<u8>) -> Seq<char>;

/// The longest start of `bytes` that is well-formed UTF-8.
pub open spec fn well_formed_start(bytes: Seq<u8>) -> Seq<u8>
    decreases bytes.len(),
{
    if valid_utf8(bytes) || bytes.len() == 0 {
        bytes
    } else {
        well_formed_start(bytes.drop_last())
    }
}

/// The text of the longest start of `bytes` that is well-formed.
pub open spec fn start_text(bytes: Seq<u8>) -> Seq<char> {
    decode_utf8(well_formed_start(bytes))
}

/// The text of `bytes`. Up to the first ill-formed part it is what they encode; there U+FFFD
/// stands, and how it goes on from there is left to the name.
pub open spec fn text_of(bytes: Seq<u8>) -> Seq<char> {
    if valid_utf8(bytes) {
        decode_utf8(bytes)
    } else {
        start_text(bytes) + seq!['\u{fffd}'] + utf8_lossy(bytes).skip(
            start_text(bytes).len() as int + 1,
        )
    }
}

/// `String::from_utf8_lossy`: the text that the bytes encode in UTF-8, with U+FFFD in place of
/// each ill-formed part. So a well-formed start is kept, and U+FFFD stands behind the longest one
/// where that is not all. How long an ill-formed part is, is left to the name.
#[verifier::external_body]
pub(crate) fn text_lossy(bytes: &[u8]) -> (t: String)
    ensures
        t@ == utf8_lossy(bytes@),
        valid_utf8(bytes@) ==> t@ == decode_utf8(bytes@),
        start_text(bytes@).is_prefix_of(t@),
        !valid_utf8(bytes@) ==> t@.len() > start_text(bytes@).len() && t@[start_text(
            bytes@,
        ).len() as int] == '\u{fffd}',
{
    String::from_utf8_lossy(bytes).into_owned()
}

/// Reads bytes as text.
pub fn read_text(bytes: &[u8]) -> (t: String)
    ensures
        t@ == text_of(bytes@),
{
    let t: String = text_lossy(bytes);
    proof {
        let n = start_text(bytes@).len() as int;
        if !valid_utf8(bytes@) {
            assert(t@.take(n) == start_text(bytes@));
            assert(t@ == t@.take(n) + seq![t@[n]] + t@.skip(n + 1));
        }
    }
    t
}

proof fn lemma_start(bytes: Seq<u8>)
    ensures
        valid_utf8(well_formed_start(bytes)),
        well_formed_start(bytes).is_prefix_of(bytes),
    decreases bytes.len(),
{
    if !valid_utf8(bytes) {
        lemma_start(bytes.drop_last());
    }
}

proof fn lemma_start_is_longest(bytes: Seq<u8>, k: int)
    requires
        0 <= k <= bytes.len(),
        valid_utf8(bytes.take(k)),
    ensures
        k <= well_formed_start(bytes).len(),
    decreases bytes.len(),
{
    if !valid_utf8(bytes) {
        if k == bytes.len() {
            assert(bytes.take(k) == bytes);
        } else {
            assert(bytes.drop_last().take(k) == bytes.take(k));
            lemma_start_is_longest(bytes.drop_last(), k);
        }
    }
}

/// A text starts with some ASCII characters where its bytes start with theirs.
proof fn lemma_ascii_prefix(p: Seq<char>, d: Seq<char>)
    requires
        is_ascii_chars(p),
    ensures
        p.is_prefix_of(d) <==> encode_utf8(p).is_prefix_of(encode_utf8(d)),
    decreases p.len(),
{
    is_ascii_chars_encode_utf8(p);
    let ep = encode_utf8(p);
    let ed = encode_utf8(d);
    if p.len() == 0 {
        assert(p == d.take(0));
        assert(ep == ed.take(0));
    } else if d.len() > 0 {
        let p1 = p.drop_first();
        let d1 = d.drop_first();
        encode_utf8_first_scalar(p);
        encode_utf8_first_scalar(d);
        lemma_ascii_prefix(p1, d1);
        is_ascii_chars_encode_utf8(p1);
        if p[0] == d[0] {
            assert(ep.drop_first() == encode_utf8(p1));
            assert(ed.drop_first() == encode_utf8(d1));
            assert(ep[0] == ed[0]);
            if p1.is_prefix_of(d1) {
                assert(p == d.take(p.len() as int)) by {
                    assert forall|i: int| 0 <= i < p.len() implies p[i] == d[i] by {
                        if i > 0 {
                            assert(p1[i - 1] == d1[i - 1]);
                        }
                    }
                }
                assert forall|i: int| 0 <= i < ep.len() implies ep[i] == ed[i] by {
                    if i > 0 {
                        assert(ep.drop_first()[i - 1] == ed.drop_first()[i - 1]);
                    }
                }
                assert(ep.is_prefix_of(ed));
            } else {
                if p.is_prefix_of(d) {
                    assert(p1 == d1.take(p1.len() as int));
                }
                if ep.is_prefix_of(ed) {
                    assert(ep.drop_first() == ed.drop_first().take(p1.len() as int));
                }
            }
        } else {
            if ep.is_prefix_of(ed) {
                assert(ep[0] == ed[0]);
                assert(ep[0] <= 0x7f);
                assert(decode_first_scalar(ep) == decode_first_scalar(ed));
                char_u32_cast(p[0], d[0] as u32);
                char_u32_cast(d[0], d[0] as u32);
            }
            if p.is_prefix_of(d) {
                assert(p[0] == d[0]);
            }
        }
    }
}

/// The text of some bytes, well-formed or not, starts with some ASCII characters if and only if
/// the bytes start with theirs.
pub proof fn law_ascii_start_is_kept(bytes: Seq<u8>, p: Seq<char>)
    requires
        is_ascii_chars(p),
    ensures
        p.is_prefix_of(text_of(bytes)) <==> encode_utf8(p).is_prefix_of(bytes),
{
    let start = well_formed_start(bytes);
    let d = decode_utf8(start);
    let t = text_of(bytes);
    let ep = encode_utf8(p);
    lemma_start(bytes);
    decode_utf8_encode_utf8(start);
    lemma_ascii_prefix(p, d);
    assert(d.is_prefix_of(t));
    if ep.is_prefix_of(bytes) {
        encode_utf8_valid_utf8(p);
        assert(bytes.take(ep.len() as int) == ep);
        lemma_start_is_longest(bytes, ep.len() as int);
        assert(ep == start.take(ep.len() as int));
        assert(p == t.take(p.len() as int));
    }
    if p.is_prefix_of(t) {
        if p.len() <= d.len() {
            assert(p == d.take(p.len() as int));
            assert(ep == bytes.take(ep.len() as int));
        } else {
            assert(p[d.len() as int] == t[d.len() as int]);
        }
    }
}

/// A character has at most four bytes.
pub proof fn lemma_utf8_len(s: Seq<char>)
    ensures
        encode_utf8(s).len() <= 4 * s.len(),
    decreases s.len(),
{
    if s.len() > 0 {
        lemma_utf8_len(s.drop_first());
    }
}

/// Well-formed bytes are read as the text that they encode. Of others the longest well-formed start
/// is kept, and U+FFFD stands behind it.
pub proof fn law_text_is_what_bytes_encode(bytes: Seq<u8>, chars: Seq<char>)
    ensures
        text_of(encode_utf8(chars)) == chars,
        valid_utf8(bytes) ==> encode_utf8(text_of(bytes)) == bytes,
        !valid_utf8(bytes) ==> {
            let start = decode_utf8(well_formed_start(bytes));
            start.is_prefix_of(text_of(bytes)) && text_of(bytes)[start.len() as int] == '\u{fffd}'
        },
        valid_utf8(well_formed_start(bytes)),
        well_formed_start(bytes).is_prefix_of(bytes),
{
    encode_utf8_valid_utf8(chars);
    encode_utf8_decode_utf8(chars);
    lemma_start(bytes);
    if valid_utf8(bytes) {
        decode_utf8_encode_utf8(bytes);
    } else {
        let start = decode_utf8(well_formed_start(bytes));
        assert(text_of(bytes).take(start.len() as int) == start);
    }
}

} // verus!
