//! Identifiers of 128 bits and their texts, by the crate `uuid`.

use vstd::arithmetic::power::{lemma_pow0, lemma_pow1, lemma_pow_adds, pow};
use vstd::prelude::*;

verus! {

/// The character of a hexadecimal digit, in lower case.
pub open spec fn hex_char(d: nat) -> char {
    if d < 10 {
        ('0' as nat + d) as char
    } else {
        ('a' as nat + (d - 10)) as char
    }
}

/// The last `n` hexadecimal digits of `v`, the most significant first.
pub open spec fn hex_digits(v: nat, n: nat) -> Seq<char>
    decreases n,
{
    if n == 0 {
        Seq::empty()
    } else {
        hex_digits(v / 16, (n - 1) as nat).push(hex_char(v % 16))
    }
}

/// The value of a hexadecimal digit of either case.
pub open spec fn hex_digit_value(c: char) -> Option<nat> {
    if '0' <= c <= '9' {
        Some((c as nat - '0' as nat) as nat)
    } else if 'a' <= c <= 'f' {
        Some((c as nat - 'a' as nat + 10) as nat)
    } else if 'A' <= c <= 'F' {
        Some((c as nat - 'A' as nat + 10) as nat)
    } else {
        None
    }
}

/// The value of a row of hexadecimal digits, the most significant first.
pub open spec fn hex_value(s: Seq<char>) -> Option<nat>
    decreases s.len(),
{
    if s.len() == 0 {
        Some(0)
    } else {
        match (hex_value(s.drop_last()), hex_digit_value(s.last())) {
            (Some(v), Some(d)) => Some(v * 16 + d),
            _ => None,
        }
    }
}

/// 32 characters in groups of 8, 4, 4, 4 and 12, with hyphens between the groups.
pub open spec fn hyphenated(d: Seq<char>) -> Seq<char> {
    d.subrange(0, 8) + seq!['-'] + d.subrange(8, 12) + seq!['-'] + d.subrange(12, 16) + seq!['-']
        + d.subrange(16, 20) + seq!['-'] + d.subrange(20, 32)
}

/// The text of an identifier: its 32 hexadecimal digits in hyphenated groups.
pub open spec fn uuid_text(id: u128) -> Seq<char> {
    hyphenated(hex_digits(id as nat, 32))
}

/// The 32 characters of a hyphenated text.
pub open spec fn without_hyphens(s: Seq<char>) -> Option<Seq<char>> {
    if s.len() == 36 && s[8] == '-' && s[13] == '-' && s[18] == '-' && s[23] == '-' {
        Some(
            s.subrange(0, 8) + s.subrange(9, 13) + s.subrange(14, 18) + s.subrange(19, 23)
                + s.subrange(24, 36),
        )
    } else {
        None
    }
}

/// `c` in lower case, where it is an ASCII letter.
pub open spec fn ascii_lower(c: char) -> char {
    if 'A' <= c <= 'Z' {
        (c as nat + 32) as char
    } else {
        c
    }
}

/// The 32 characters that a text holds: bare, hyphenated, hyphenated in braces, or hyphenated
/// behind `urn:uuid:` in any case.
pub open spec fn uuid_characters(s: Seq<char>) -> Option<Seq<char>> {
    if s.len() == 32 {
        Some(s)
    } else if s.len() == 38 && s[0] == '{' && s[37] == '}' {
        without_hyphens(s.subrange(1, 37))
    } else if s.len() == 45 && s.take(9).map_values(|c: char| ascii_lower(c))
        =~= seq!['u', 'r', 'n', ':', 'u', 'u', 'i', 'd', ':'] {
        without_hyphens(s.skip(9))
    } else {
        without_hyphens(s)
    }
}

/// The identifier that a text writes.
pub open spec fn uuid_of(s: Seq<char>) -> Option<u128> {
    match uuid_characters(s) {
        Some(d) => match hex_value(d) {
            Some(v) => Some(v as u128),
            None => None,
        },
        None => None,
    }
}

/// `Uuid::parse_str`: the identifier that the text writes, as the number of its 16 octets in
/// big-endian order; none, if the text is of no accepted form.
#[verifier::external_body]
pub(crate) fn parse_uuid(text: &str) -> (id: Option<u128>)
    ensures
        id == uuid_of(text@),
{
    uuid::Uuid::parse_str(text).ok().map(|u| u.as_u128())
}

/// `Uuid::to_string`: the hyphenated text, in lower case.
#[verifier::external_body]
pub(crate) fn format_uuid(id: u128) -> (text: String)
    ensures
        text@ == uuid_text(id),
{
    uuid::Uuid::from_u128(id).to_string()
}

proof fn lemma_hex_digits(v: nat, n: nat)
    ensures
        hex_digits(v, n).len() == n,
        hex_value(hex_digits(v, n)) is Some,
        v < pow(16, n) ==> hex_value(hex_digits(v, n)) == Some(v),
    decreases n,
{
    lemma_pow0(16);
    if n > 0 {
        let m = (n - 1) as nat;
        lemma_hex_digits(v / 16, m);
        assert(hex_digits(v, n).drop_last() == hex_digits(v / 16, m));
        assert(hex_digit_value(hex_char(v % 16)) == Some(v % 16));
        lemma_pow_adds(16, 1, m);
        lemma_pow1(16);
        if v < pow(16, n) {
            assert(v / 16 < pow(16, m)) by (nonlinear_arith)
                requires
                    v < 16 * pow(16, m),
            ;
        }
    }
}

proof fn lemma_hex_digits_chars(v: nat, n: nat, i: int)
    requires
        0 <= i < hex_digits(v, n).len(),
    ensures
        ({
            let c = hex_digits(v, n)[i];
            '0' <= c <= '9' || 'a' <= c <= 'f'
        }),
    decreases n,
{
    if n > 0 && i < hex_digits(v, n).len() - 1 {
        lemma_hex_digits_chars(v / 16, (n - 1) as nat, i);
    }
}

/// An identifier's text has 36 characters, each a digit, a letter from `a` to `f` or a hyphen.
pub proof fn lemma_uuid_text(id: u128)
    ensures
        uuid_text(id).len() == 36,
        forall|i: int|
            0 <= i < 36 ==> {
                let c = #[trigger] uuid_text(id)[i];
                '0' <= c <= '9' || 'a' <= c <= 'f' || c == '-'
            },
{
    let d = hex_digits(id as nat, 32);
    lemma_hex_digits(id as nat, 32);
    assert forall|k: int| 0 <= k < 32 implies {
        let c = #[trigger] d[k];
        '0' <= c <= '9' || 'a' <= c <= 'f'
    } by {
        lemma_hex_digits_chars(id as nat, 32, k);
    }
}

/// An identifier's text reads back as that identifier.
pub proof fn law_uuid_reads_back(id: u128)
    ensures
        uuid_of(uuid_text(id)) == Some(id),
{
    let d = hex_digits(id as nat, 32);
    lemma_hex_digits(id as nat, 32);
    assert(id < pow(16, 32)) by {
        lemma_pow1(16);
        lemma_pow_adds(16, 1, 1);
        assert(pow(16, 2) == 0x100);
        lemma_pow_adds(16, 2, 2);
        assert(pow(16, 4) == 0x100 * 0x100);
        lemma_pow_adds(16, 4, 4);
        assert(pow(16, 8) == 0x1_0000 * 0x1_0000);
        lemma_pow_adds(16, 8, 8);
        assert(pow(16, 16) == 0x1_0000_0000 * 0x1_0000_0000);
        lemma_pow_adds(16, 16, 16);
        assert(pow(16, 32) == 0x1_0000_0000_0000_0000 * 0x1_0000_0000_0000_0000);
    }
    let s = uuid_text(id);
    assert(without_hyphens(s).unwrap() == d);
}

} // verus!
