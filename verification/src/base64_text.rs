//! Base64, by the crate `base64`.

use vstd::prelude::*;

verus! {

/// The octet of `bytes` at `i`; past the end, zero.
pub open spec fn octet(bytes: Seq<u8>, i: int) -> int {
    if i < bytes.len() {
        bytes[i] as int
    } else {
        0
    }
}

/// The 24 bits of three octets, from `at` on.
pub open spec fn octets_bits(bytes: Seq<u8>, at: int) -> int {
    octet(bytes, at) * 0x10000 + octet(bytes, at + 1) * 0x100 + octet(bytes, at + 2)
}

/// The character for six bits; `c62` and `c63` are the last two of the alphabet.
pub open spec fn sextet_char(n: int, c62: char, c63: char) -> char {
    if n < 26 {
        ('A' as int + n) as char
    } else if n < 52 {
        ('a' as int + (n - 26)) as char
    } else if n < 62 {
        ('0' as int + (n - 52)) as char
    } else if n == 62 {
        c62
    } else {
        c63
    }
}

/// The character at `i` of the text for `bytes`: each three octets give four characters, the
/// most significant six bits first, and `=` stands where no octet gives a bit.
pub open spec fn base64_char(bytes: Seq<u8>, i: int, c62: char, c63: char) -> char {
    let g = 3 * (i / 4);
    let k = i % 4;
    let bits = octets_bits(bytes, g);
    let shift: int = if k == 0 {
        0x40000
    } else if k == 1 {
        0x1000
    } else if k == 2 {
        0x40
    } else {
        1
    };
    if g + k > bytes.len() {
        '='
    } else {
        sextet_char((bits / shift) % 64, c62, c63)
    }
}

/// How many characters the text for `n` octets has.
pub open spec fn base64_len(n: nat) -> nat {
    4 * ((n + 2) / 3)
}

/// The text for `bytes`, padded with `=`.
pub open spec fn base64_text(bytes: Seq<u8>, c62: char, c63: char) -> Seq<char> {
    Seq::new(base64_len(bytes.len()), |i: int| base64_char(bytes, i, c62, c63))
}

/// The text for `bytes` in the standard alphabet.
pub open spec fn base64_standard(bytes: Seq<u8>) -> Seq<char> {
    base64_text(bytes, '+', '/')
}

/// The text for `bytes` in the alphabet for URLs and file names.
pub open spec fn base64_url_safe(bytes: Seq<u8>) -> Seq<char> {
    base64_text(bytes, '-', '_')
}

/// `Engine::encode` of the engine `STANDARD`: the padded base64 text of RFC 4648 in the standard
/// alphabet. The call panics where that text is too long to be allocated.
#[verifier::external_body]
pub(crate) fn encode_standard(bytes: &[u8]) -> (t: String)
    requires
        base64_len(bytes@.len()) <= isize::MAX,
    ensures
        t@ == base64_standard(bytes@),
{
    base64::Engine::encode(&base64::engine::general_purpose::STANDARD, bytes)
}

/// `Engine::encode` of the engine `URL_SAFE`: the padded base64 text of RFC 4648 in the alphabet
/// for URLs. The call panics where that text is too long to be allocated.
#[verifier::external_body]
pub(crate) fn encode_url_safe(bytes: &[u8]) -> (t: String)
    requires
        base64_len(bytes@.len()) <= isize::MAX,
    ensures
        t@ == base64_url_safe(bytes@),
{
    base64::Engine::encode(&base64::engine::general_purpose::URL_SAFE, bytes)
}

/// The six bits that a character stands for; a character of no alphabet stands for none set.
pub open spec fn sextet_value(c: char, c62: char, c63: char) -> int {
    if 'A' <= c <= 'Z' {
        c as int - 'A' as int
    } else if 'a' <= c <= 'z' {
        c as int - 'a' as int + 26
    } else if '0' <= c <= '9' {
        c as int - '0' as int + 52
    } else if c == c62 {
        62
    } else if c == c63 {
        63
    } else {
        0
    }
}

/// How many `=` a text ends in, of the at most two that may stand there.
pub open spec fn padding(text: Seq<char>) -> int {
    if text.len() >= 2 && text[text.len() - 2] == '=' {
        2
    } else if text.len() >= 1 && text.last() == '=' {
        1
    } else {
        0
    }
}

/// The 24 bits of four characters of a text, from `at` on.
pub open spec fn group_bits(text: Seq<char>, at: int, c62: char, c63: char) -> int {
    sextet_value(text[at], c62, c63) * 0x40000 + sextet_value(text[at + 1], c62, c63) * 0x1000
        + sextet_value(text[at + 2], c62, c63) * 0x40 + sextet_value(text[at + 3], c62, c63)
}

/// The octet at `j` that a text holds.
pub open spec fn octet_of(text: Seq<char>, j: int, c62: char, c63: char) -> u8 {
    let bits = group_bits(text, 4 * (j / 3), c62, c63);
    let k = j % 3;
    if k == 0 {
        (bits / 0x10000) as u8
    } else if k == 1 {
        ((bits / 0x100) % 0x100) as u8
    } else {
        (bits % 0x100) as u8
    }
}

/// The octets that a text holds.
pub open spec fn base64_bytes(text: Seq<char>, c62: char, c63: char) -> Seq<u8> {
    Seq::new(
        (3 * (text.len() / 4) - padding(text)) as nat,
        |j: int| octet_of(text, j, c62, c63),
    )
}

/// Two characters that can stand last in an alphabet.
pub open spec fn can_be_last(c62: char, c63: char) -> bool {
    &&& c62 != c63
    &&& sextet_value(c62, '=', '=') == 0 && c62 != 'A' && c62 != '='
    &&& sextet_value(c63, '=', '=') == 0 && c63 != 'A' && c63 != '='
}

proof fn lemma_sextet(n: int, c62: char, c63: char)
    requires
        0 <= n < 64,
        can_be_last(c62, c63),
    ensures
        sextet_value(sextet_char(n, c62, c63), c62, c63) == n,
        sextet_char(n, c62, c63) != '=',
{
}

proof fn lemma_sextets(bits: u32)
    requires
        bits < 0x100_0000,
    ensures
        ((bits / 0x40000) % 64) * 0x40000 + ((bits / 0x1000) % 64) * 0x1000 + ((bits / 0x40) % 64)
            * 0x40 + bits % 64 == bits,
        bits % 0x10000 == 0 ==> (bits / 0x40) % 64 == 0,
        bits % 0x100 == 0 ==> bits % 64 == 0,
{
    assert(((bits / 0x40000) % 64) * 0x40000 + ((bits / 0x1000) % 64) * 0x1000 + ((bits / 0x40)
        % 64) * 0x40 + bits % 64 == bits) by (bit_vector)
        requires
            bits < 0x100_0000,
    ;
    assert(bits % 0x10000 == 0 ==> (bits / 0x40) % 64 == 0) by (bit_vector);
    assert(bits % 0x100 == 0 ==> bits % 64 == 0) by (bit_vector);
}

proof fn lemma_octets(b0: int, b1: int, b2: int)
    requires
        0 <= b0 < 256,
        0 <= b1 < 256,
        0 <= b2 < 256,
    ensures
        ({
            let bits = b0 * 0x10000 + b1 * 0x100 + b2;
            &&& 0 <= bits < 0x100_0000
            &&& bits / 0x10000 == b0
            &&& (bits / 0x100) % 0x100 == b1
            &&& bits % 0x100 == b2
            &&& b1 == 0 && b2 == 0 ==> bits % 0x10000 == 0
        }),
{
    let bits = b0 * 0x10000 + b1 * 0x100 + b2;
    assert(bits / 0x100 == b0 * 0x100 + b1);
}

proof fn lemma_group(bytes: Seq<u8>, g: int, c62: char, c63: char)
    requires
        can_be_last(c62, c63),
        0 <= g,
        3 * g < bytes.len(),
    ensures
        4 * g + 3 < base64_len(bytes.len()),
        group_bits(base64_text(bytes, c62, c63), 4 * g, c62, c63) == octets_bits(bytes, 3 * g),
        base64_text(bytes, c62, c63)[4 * g + 2] == '=' <==> 3 * g + 1 >= bytes.len(),
        base64_text(bytes, c62, c63)[4 * g + 3] == '=' <==> 3 * g + 2 >= bytes.len(),
{
    let t = base64_text(bytes, c62, c63);
    let bits = octets_bits(bytes, 3 * g);
    let s0 = (bits / 0x40000) % 64;
    let s1 = (bits / 0x1000) % 64;
    let s2 = (bits / 0x40) % 64;
    let s3 = (bits / 1) % 64;
    lemma_octets(octet(bytes, 3 * g), octet(bytes, 3 * g + 1), octet(bytes, 3 * g + 2));
    lemma_sextets(bits as u32);
    assert(s0 * 0x40000 + s1 * 0x1000 + s2 * 0x40 + s3 == bits);
    lemma_sextet(s0, c62, c63);
    lemma_sextet(s1, c62, c63);
    lemma_sextet(s2, c62, c63);
    lemma_sextet(s3, c62, c63);
    assert((4 * g) / 4 == g && (4 * g) % 4 == 0);
    assert((4 * g + 1) / 4 == g && (4 * g + 1) % 4 == 1);
    assert((4 * g + 2) / 4 == g && (4 * g + 2) % 4 == 2);
    assert((4 * g + 3) / 4 == g && (4 * g + 3) % 4 == 3);
    assert(4 * g + 3 < t.len());
    assert(t[4 * g] == sextet_char(s0, c62, c63));
    assert(t[4 * g + 1] == sextet_char(s1, c62, c63));
    assert(t[4 * g + 2] == if 3 * g + 1 < bytes.len() {
        sextet_char(s2, c62, c63)
    } else {
        '='
    });
    assert(t[4 * g + 3] == if 3 * g + 2 < bytes.len() {
        sextet_char(s3, c62, c63)
    } else {
        '='
    });
}

/// A text holds the octets that it was made for.
pub proof fn law_base64_reads_back(bytes: Seq<u8>, c62: char, c63: char)
    requires
        can_be_last(c62, c63),
    ensures
        base64_bytes(base64_text(bytes, c62, c63), c62, c63) == bytes,
{
    let t = base64_text(bytes, c62, c63);
    let n = bytes.len() as int;
    if n > 0 {
        let g = (n - 1) / 3;
        lemma_group(bytes, g, c62, c63);
        assert(t.len() == 4 * g + 4);
    }
    assert(base64_bytes(t, c62, c63).len() == n);
    assert forall|j: int| 0 <= j < n implies octet_of(t, j, c62, c63) == bytes[j] by {
        let g = j / 3;
        lemma_group(bytes, g, c62, c63);
        lemma_octets(octet(bytes, 3 * g), octet(bytes, 3 * g + 1), octet(bytes, 3 * g + 2));
    }
    assert(base64_bytes(t, c62, c63) =~= bytes);
}

/// The alphabets that are in use can be read back.
pub proof fn lemma_alphabets()
    ensures
        can_be_last('+', '/'),
        can_be_last('-', '_'),
{
}

/// A text has no other characters than those of its alphabet and `=`.
pub proof fn lemma_base64_chars(bytes: Seq<u8>, c62: char, c63: char, i: int)
    requires
        0 <= i < base64_len(bytes.len()),
    ensures
        ({
            let c = base64_text(bytes, c62, c63)[i];
            'A' <= c <= 'Z' || 'a' <= c <= 'z' || '0' <= c <= '9' || c == c62 || c == c63 || c
                == '='
        }),
{
}

} // verus!
