//! Text as a sequence of characters: trimming, splitting at a separator, and
//! the decimal notation of integers.

use vstd::arithmetic::power::{lemma_pow0, lemma_pow1, lemma_pow_adds, pow};
use vstd::prelude::*;
use vstd::string::*;

verus! {

/// The characters with the Unicode property `White_Space`.
pub open spec fn is_white_space(c: char) -> bool {
    let n = c as u32;
    ||| 0x09 <= n <= 0x0d
    ||| n == 0x20
    ||| n == 0x85
    ||| n == 0xa0
    ||| n == 0x1680
    ||| 0x2000 <= n <= 0x200a
    ||| n == 0x2028
    ||| n == 0x2029
    ||| n == 0x202f
    ||| n == 0x205f
    ||| n == 0x3000
}

/// `s` without its leading white space.
pub open spec fn trim_start(s: Seq<char>) -> Seq<char>
    decreases s.len(),
{
    if s.len() > 0 && is_white_space(s[0]) {
        trim_start(s.drop_first())
    } else {
        s
    }
}

/// `s` without its trailing white space.
pub open spec fn trim_end(s: Seq<char>) -> Seq<char>
    decreases s.len(),
{
    if s.len() > 0 && is_white_space(s.last()) {
        trim_end(s.drop_last())
    } else {
        s
    }
}

/// `s` without white space at either end.
pub open spec fn trimmed(s: Seq<char>) -> Seq<char> {
    trim_end(trim_start(s))
}

/// The index of the first `c` in `s`; the length of `s` if there is none.
pub open spec fn first_index(s: Seq<char>, c: char) -> int
    decreases s.len(),
{
    if s.len() == 0 || s[0] == c {
        0
    } else {
        1 + first_index(s.drop_first(), c)
    }
}

/// The index of the last `c` in `s`; `-1` if there is none.
pub open spec fn last_index(s: Seq<char>, c: char) -> int
    decreases s.len(),
{
    if s.len() == 0 || s.last() == c {
        s.len() - 1
    } else {
        last_index(s.drop_last(), c)
    }
}

/// What stands before and after the first `c` of `s`.
pub open spec fn split_first(s: Seq<char>, c: char) -> Option<(Seq<char>, Seq<char>)> {
    let i = first_index(s, c);
    if i < s.len() {
        Some((s.take(i), s.skip(i + 1)))
    } else {
        None
    }
}

/// What stands before and after the last `c` of `s`.
pub open spec fn split_last(s: Seq<char>, c: char) -> Option<(Seq<char>, Seq<char>)> {
    let i = last_index(s, c);
    if i >= 0 {
        Some((s.take(i), s.skip(i + 1)))
    } else {
        None
    }
}

/// The pieces of `s` between the separators `c`; one more than there are separators.
pub open spec fn pieces(s: Seq<char>, c: char) -> Seq<Seq<char>>
    decreases s.len(),
{
    let i = first_index(s, c);
    if 0 <= i < s.len() {
        seq![s.take(i)] + pieces(s.skip(i + 1), c)
    } else {
        seq![s]
    }
}

/// What follows `prefix` in `s`, if `s` starts with it.
pub open spec fn after_prefix(s: Seq<char>, prefix: Seq<char>) -> Option<Seq<char>> {
    if prefix.is_prefix_of(s) {
        Some(s.skip(prefix.len() as int))
    } else {
        None
    }
}

/// The characters of `s`, one by one.
pub fn characters(s: &str) -> (v: Vec<char>)
    ensures
        v@ == s@,
{
    let mut v: Vec<char> = Vec::new();
    for c in it: s.chars()
        invariant
            v@ == it.seq().take(it.index()),
            it.seq() == s@,
    {
        v.push(c);
    }
    v
}

/// Whether `c` has the Unicode property `White_Space`.
pub fn white_space(c: char) -> (b: bool)
    ensures
        b == is_white_space(c),
{
    let n: u32 = c as u32;
    (0x09 <= n && n <= 0x0d) || n == 0x20 || n == 0x85 || n == 0xa0 || n == 0x1680
        || (0x2000 <= n && n <= 0x200a) || n == 0x2028 || n == 0x2029 || n == 0x202f || n == 0x205f
        || n == 0x3000
}

/// The text of `s` without white space at either end.
pub fn trim(s: &str) -> (t: &str)
    ensures
        t@ == trimmed(s@),
{
    let v: Vec<char> = characters(s);
    let mut from: usize = 0;
    assert(s@.skip(0) == s@);
    while from < v.len() && white_space(v[from])
        invariant
            from <= v.len(),
            v@ == s@,
            trim_start(s@) == trim_start(s@.skip(from as int)),
        decreases v.len() - from,
    {
        assert(s@.skip(from as int).drop_first() == s@.skip(from + 1));
        from = from + 1;
    }
    let ghost rest = s@.skip(from as int);
    let mut to: usize = v.len();
    assert(s@.subrange(from as int, to as int) == rest);
    while from < to && white_space(v[to - 1])
        invariant
            from <= to <= v.len(),
            v@ == s@,
            trim_end(rest) == trim_end(s@.subrange(from as int, to as int)),
        decreases to,
    {
        assert(s@.subrange(from as int, to as int).drop_last() == s@.subrange(
            from as int,
            to - 1,
        ));
        to = to - 1;
    }
    s.substring_char(from, to)
}

pub proof fn lemma_first_index(s: Seq<char>, c: char, i: int)
    requires
        0 <= i <= s.len(),
        forall|j: int| 0 <= j < i ==> s[j] != c,
        i < s.len() ==> s[i] == c,
    ensures
        first_index(s, c) == i,
    decreases s.len(),
{
    if i > 0 {
        lemma_first_index(s.drop_first(), c, i - 1);
    }
}

pub proof fn lemma_first_index_is(s: Seq<char>, c: char)
    ensures
        0 <= first_index(s, c) <= s.len(),
        first_index(s, c) < s.len() ==> s[first_index(s, c)] == c,
        forall|j: int| 0 <= j < first_index(s, c) ==> s[j] != c,
    decreases s.len(),
{
    if s.len() > 0 && s[0] != c {
        lemma_first_index_is(s.drop_first(), c);
        assert forall|j: int| 0 <= j < first_index(s, c) implies s[j] != c by {
            if j > 0 {
                assert(s.drop_first()[j - 1] == s[j]);
            }
        }
    }
}

pub proof fn lemma_last_index(s: Seq<char>, c: char, i: int)
    requires
        -1 <= i < s.len(),
        forall|j: int| i < j < s.len() ==> s[j] != c,
        i >= 0 ==> s[i] == c,
    ensures
        last_index(s, c) == i,
    decreases s.len(),
{
    if i < s.len() - 1 {
        lemma_last_index(s.drop_last(), c, i);
    }
}

/// A separator between two texts parts their pieces.
pub proof fn lemma_pieces_join(a: Seq<char>, b: Seq<char>, c: char)
    ensures
        pieces(a + seq![c] + b, c) == pieces(a, c) + pieces(b, c),
    decreases a.len(),
{
    let s = a + seq![c] + b;
    let i = first_index(a, c);
    lemma_first_index_is(a, c);
    assert(forall|j: int| 0 <= j < a.len() ==> s[j] == a[j]);
    lemma_first_index(s, c, i);
    assert(s.take(i) == a.take(i));
    if i < a.len() {
        let rest = a.skip(i + 1);
        lemma_pieces_join(rest, b, c);
        assert(s.skip(i + 1) == rest + seq![c] + b);
        assert(seq![a.take(i)] + (pieces(rest, c) + pieces(b, c)) == seq![a.take(i)] + pieces(
            rest,
            c,
        ) + pieces(b, c));
    } else {
        assert(s.skip(i + 1) == b);
        assert(a.take(i) == a);
    }
}

/// The character `c` does not stand in `s`.
pub open spec fn lacks(s: Seq<char>, c: char) -> bool {
    forall|i: int| 0 <= i < s.len() ==> s[i] != c
}

/// What lacks a character is one piece.
pub proof fn lemma_one_piece(s: Seq<char>, c: char)
    requires
        lacks(s, c),
    ensures
        pieces(s, c) == seq![s],
{
    lemma_first_index(s, c, s.len() as int);
}

/// The texts one after another, with `c` between them.
pub open spec fn joined(texts: Seq<Seq<char>>, c: char) -> Seq<char>
    decreases texts.len(),
{
    if texts.len() == 0 {
        Seq::empty()
    } else if texts.len() == 1 {
        texts[0]
    } else {
        joined(texts.drop_last(), c) + seq![c] + texts.last()
    }
}

/// One more text is joined to the others.
pub proof fn lemma_joined_push(texts: Seq<Seq<char>>, t: Seq<char>, c: char)
    requires
        texts.len() > 0,
    ensures
        joined(texts.push(t), c) == joined(texts, c) + seq![c] + t,
{
    assert(texts.push(t).drop_last() == texts);
}

/// Where texts are put one behind another, it does not matter which two are put together first.
pub proof fn lemma_assoc(a: Seq<char>, b: Seq<char>, c: Seq<char>)
    ensures
        a + (b + c) == a + b + c,
{
}

/// Texts that lack a character and are joined by it are the pieces of what comes of it.
pub proof fn lemma_joined(texts: Seq<Seq<char>>, c: char)
    requires
        texts.len() > 0,
        forall|i: int| 0 <= i < texts.len() ==> lacks(#[trigger] texts[i], c),
    ensures
        pieces(joined(texts, c), c) == texts,
    decreases texts.len(),
{
    lemma_one_piece(texts.last(), c);
    if texts.len() == 1 {
        assert(seq![texts[0]] == texts);
    } else {
        let rest = texts.drop_last();
        assert forall|i: int| 0 <= i < rest.len() implies lacks(#[trigger] rest[i], c) by {
            assert(rest[i] == texts[i]);
        }
        lemma_joined(rest, c);
        lemma_pieces_join(joined(rest, c), texts.last(), c);
        assert(rest + seq![texts.last()] == texts);
    }
}

/// All characters of `s` are white space.
pub open spec fn is_blank(s: Seq<char>) -> bool {
    forall|i: int| 0 <= i < s.len() ==> is_white_space(#[trigger] s[i])
}

proof fn lemma_trim_start(before: Seq<char>, s: Seq<char>)
    requires
        is_blank(before),
    ensures
        trim_start(before + s) == trim_start(s),
    decreases before.len(),
{
    if before.len() > 0 {
        assert((before + s)[0] == before[0]);
        assert((before + s).drop_first() == before.drop_first() + s);
        lemma_trim_start(before.drop_first(), s);
    } else {
        assert(before + s == s);
    }
}

proof fn lemma_trim_end(s: Seq<char>, after: Seq<char>)
    requires
        is_blank(after),
    ensures
        trim_end(s + after) == trim_end(s),
    decreases after.len(),
{
    if after.len() > 0 {
        assert((s + after).last() == after.last());
        assert((s + after).drop_last() == s + after.drop_last());
        lemma_trim_end(s, after.drop_last());
    } else {
        assert(s + after == s);
    }
}

proof fn lemma_trimmed_before(s: Seq<char>, after: Seq<char>)
    requires
        is_blank(after),
    ensures
        trimmed(s + after) == trimmed(s),
    decreases s.len(),
{
    if s.len() == 0 {
        lemma_trim_start(after, s);
        assert(after + s == s + after);
    } else {
        assert((s + after)[0] == s[0]);
        if is_white_space(s[0]) {
            assert((s + after).drop_first() == s.drop_first() + after);
            lemma_trimmed_before(s.drop_first(), after);
        } else {
            lemma_trim_end(s, after);
        }
    }
}

/// White space at either end of a text does not change what is left when it is trimmed.
pub proof fn lemma_trimmed_between(before: Seq<char>, s: Seq<char>, after: Seq<char>)
    requires
        is_blank(before),
        is_blank(after),
    ensures
        trimmed(before + s + after) == trimmed(s),
{
    lemma_trim_start(before, s + after);
    assert(before + (s + after) == before + s + after);
    lemma_trimmed_before(s, after);
}

/// The index of the first `c` in `v`; the length of `v` if there is none.
fn position(v: &Vec<char>, c: char) -> (i: usize)
    ensures
        i == first_index(v@, c),
        i <= v.len(),
{
    let mut i: usize = 0;
    while i < v.len() && v[i] != c
        invariant
            i <= v.len(),
            forall|j: int| 0 <= j < i ==> v@[j] != c,
        decreases v.len() - i,
    {
        i = i + 1;
    }
    proof {
        lemma_first_index(v@, c, i as int);
    }
    i
}

/// What stands before and after the first `c` of `s`.
pub fn split_once(s: &str, c: char) -> (r: Option<(&str, &str)>)
    ensures
        match r {
            Some((a, b)) => split_first(s@, c) == Some((a@, b@)),
            None => split_first(s@, c) is None,
        },
{
    let v: Vec<char> = characters(s);
    let i: usize = position(&v, c);
    if i < v.len() {
        Some((s.substring_char(0, i), s.substring_char(i + 1, v.len())))
    } else {
        None
    }
}

/// What stands before and after the last `c` of `s`.
pub fn rsplit_once(s: &str, c: char) -> (r: Option<(&str, &str)>)
    ensures
        match r {
            Some((a, b)) => split_last(s@, c) == Some((a@, b@)),
            None => split_last(s@, c) is None,
        },
{
    let v: Vec<char> = characters(s);
    let mut i: usize = v.len();
    while i > 0 && v[i - 1] != c
        invariant
            i <= v.len(),
            forall|j: int| i <= j < v.len() ==> v@[j] != c,
        decreases i,
    {
        i = i - 1;
    }
    proof {
        lemma_last_index(v@, c, i - 1);
    }
    if i > 0 {
        Some((s.substring_char(0, i - 1), s.substring_char(i, v.len())))
    } else {
        None
    }
}

/// The pieces of `s` between the separators `c`.
pub fn split(s: &str, c: char) -> (r: Vec<&str>)
    ensures
        r@.map_values(|p: &str| p@) == pieces(s@, c),
{
    let v: Vec<char> = characters(s);
    let mut r: Vec<&str> = Vec::new();
    let mut from: usize = 0;
    let mut i: usize = 0;
    let ghost view = |p: &str| p@;
    assert(s@.skip(0) == s@);
    assert(r@.map_values(view) + pieces(s@, c) == pieces(s@, c));
    while i < v.len()
        invariant
            from <= i <= v.len(),
            v@ == s@,
            forall|j: int| from <= j < i ==> v@[j] != c,
            r@.map_values(view) + pieces(s@.skip(from as int), c) == pieces(s@, c),
            view == (|p: &str| p@),
        decreases v.len() - i,
    {
        if v[i] == c {
            let ghost before = r@.map_values(view);
            let ghost rest = s@.skip(from as int);
            let ghost piece = rest.take(i - from);
            proof {
                lemma_first_index(rest, c, i - from);
                assert(piece == s@.subrange(from as int, i as int));
                assert(rest.skip(i - from + 1) == s@.skip(i + 1));
            }
            r.push(s.substring_char(from, i));
            from = i + 1;
            assert(r@.map_values(view) == before.push(piece));
            assert(r@.map_values(view) + pieces(s@.skip(from as int), c) == before + pieces(
                rest,
                c,
            ));
        }
        i = i + 1;
    }
    let ghost before = r@.map_values(view);
    let ghost rest = s@.skip(from as int);
    proof {
        lemma_first_index(rest, c, rest.len() as int);
    }
    r.push(s.substring_char(from, v.len()));
    assert(r@.map_values(view) == before.push(rest));
    assert(before + pieces(rest, c) == before.push(rest));
    r
}

/// What follows `prefix` in `s`, if `s` starts with it.
pub fn strip_prefix<'a>(s: &'a str, prefix: &str) -> (r: Option<&'a str>)
    ensures
        match r {
            Some(rest) => after_prefix(s@, prefix@) == Some(rest@),
            None => after_prefix(s@, prefix@) is None,
        },
{
    let v: Vec<char> = characters(s);
    let p: Vec<char> = characters(prefix);
    if p.len() > v.len() {
        return None;
    }
    let mut i: usize = 0;
    while i < p.len()
        invariant
            i <= p.len() <= v.len(),
            v@ == s@,
            p@ == prefix@,
            forall|j: int| 0 <= j < i ==> v@[j] == p@[j],
        decreases p.len() - i,
    {
        if v[i] != p[i] {
            assert(s@.take(p.len() as int)[i as int] != prefix@[i as int]);
            return None;
        }
        i = i + 1;
    }
    assert(s@.take(p.len() as int) == prefix@);
    Some(s.substring_char(p.len(), v.len()))
}

/// The decimal digits.
pub open spec fn is_digit(c: char) -> bool {
    '0' <= c <= '9'
}

/// One or more decimal digits.
pub open spec fn is_number(s: Seq<char>) -> bool {
    s.len() > 0 && forall|i: int| 0 <= i < s.len() ==> is_digit(#[trigger] s[i])
}

/// The value of a row of decimal digits, the most significant first.
pub open spec fn number_value(s: Seq<char>) -> nat
    decreases s.len(),
{
    if s.len() == 0 {
        0
    } else {
        number_value(s.drop_last()) * 10 + (s.last() as nat - '0' as nat) as nat
    }
}

/// The number that `s` writes as an optional `+` and decimal digits, if it is at most `max`.
pub open spec fn unsigned_value(s: Seq<char>, max: nat) -> Option<nat> {
    let digits = if s.len() > 0 && s[0] == '+' {
        s.skip(1)
    } else {
        s
    };
    if is_number(digits) && number_value(digits) <= max {
        Some(number_value(digits))
    } else {
        None
    }
}

/// The number that `s` writes as an optional sign and decimal digits, if an `i64` holds it.
pub open spec fn signed_value(s: Seq<char>) -> Option<i64> {
    if s.len() > 0 && s[0] == '-' {
        let digits = s.skip(1);
        if is_number(digits) && number_value(digits) <= 0x8000_0000_0000_0000 {
            Some((-(number_value(digits) as int)) as i64)
        } else {
            None
        }
    } else {
        match unsigned_value(s, 0x7fff_ffff_ffff_ffff) {
            Some(n) => Some(n as i64),
            None => None,
        }
    }
}

/// A digit's character.
pub open spec fn digit_char(d: nat) -> char {
    ('0' as nat + d) as char
}

/// The decimal notation of `n`, without leading zeros.
pub open spec fn decimal(n: nat) -> Seq<char>
    decreases n,
{
    if n < 10 {
        seq![digit_char(n)]
    } else {
        decimal(n / 10).push(digit_char(n % 10))
    }
}

/// The decimal notation of an integer: a `-` in front of a negative one.
pub open spec fn signed_decimal(n: int) -> Seq<char> {
    if n < 0 {
        seq!['-'] + decimal((-n) as nat)
    } else {
        decimal(n as nat)
    }
}

/// A number's decimal notation is a row of digits with that number as its value.
pub proof fn lemma_decimal(n: nat)
    ensures
        is_number(decimal(n)),
        number_value(decimal(n)) == n,
    decreases n,
{
    let s = decimal(n);
    if n < 10 {
        assert(s.drop_last() == Seq::<char>::empty());
        assert(number_value(s.drop_last()) == 0);
    } else {
        lemma_decimal(n / 10);
        assert(s.drop_last() == decimal(n / 10));
    }
}

/// A number's decimal notation starts with a zero only where that is all of it.
pub proof fn lemma_no_leading_zero(n: nat)
    ensures
        decimal(n).len() == 1 || decimal(n)[0] != '0',
        n > 0 ==> decimal(n)[0] != '0',
    decreases n,
{
    if n >= 10 {
        lemma_decimal(n / 10);
        lemma_no_leading_zero(n / 10);
        assert(decimal(n)[0] == decimal(n / 10)[0]);
    }
}

/// What is written in decimal reads back as the same number.
pub proof fn lemma_decimal_reads_back(n: nat, max: nat)
    requires
        n <= max,
    ensures
        unsigned_value(decimal(n), max) == Some(n),
        n <= i64::MAX ==> signed_value(decimal(n)) == Some(n as i64),
{
    lemma_decimal(n);
    assert(is_digit(decimal(n)[0]));
}

proof fn lemma_number_value_grows(s: Seq<char>, k: int)
    requires
        0 <= k <= s.len(),
    ensures
        number_value(s.take(k)) <= number_value(s),
    decreases s.len(),
{
    if k == s.len() {
        assert(s.take(k) == s);
    } else {
        lemma_number_value_grows(s.drop_last(), k);
        assert(s.drop_last().take(k) == s.take(k));
    }
}

/// The value of the row of digits `v[from..]`, if it is one and is at most `max`.
fn digits_value(v: &Vec<char>, from: usize, max: u64) -> (r: Option<u64>)
    requires
        from <= v.len(),
    ensures
        match r {
            Some(n) => is_number(v@.skip(from as int)) && n == number_value(v@.skip(from as int))
                && n <= max,
            None => !(is_number(v@.skip(from as int)) && number_value(v@.skip(from as int)) <= max),
        },
{
    let ghost s = v@.skip(from as int);
    if from == v.len() {
        return None;
    }
    let mut i: usize = from;
    let mut n: u64 = 0;
    assert(s.take(0) == Seq::<char>::empty());
    while i < v.len()
        invariant
            from <= i <= v.len(),
            from < v.len(),
            s == v@.skip(from as int),
            forall|j: int| 0 <= j < i - from ==> is_digit(#[trigger] s[j]),
            n == number_value(s.take(i - from)),
            n <= max,
        decreases v.len() - i,
    {
        let c: char = v[i];
        assert(c == s[i - from]);
        if c < '0' || c > '9' {
            return None;
        }
        let next: u128 = n as u128 * 10 + (c as u32 - 0x30) as u128;
        proof {
            assert(s.take(i - from + 1).drop_last() == s.take(i - from));
            lemma_number_value_grows(s, i - from + 1);
        }
        if next > max as u128 {
            return None;
        }
        n = next as u64;
        i = i + 1;
    }
    assert(s.take(i - from) == s);
    Some(n)
}

/// Reads an optional `+` and decimal digits as a port number.
pub fn parse_u16(s: &str) -> (r: Option<u16>)
    ensures
        match r {
            Some(n) => unsigned_value(s@, 0xffff) == Some(n as nat),
            None => unsigned_value(s@, 0xffff) is None,
        },
{
    let v: Vec<char> = characters(s);
    let from: usize = if v.len() > 0 && v[0] == '+' {
        1
    } else {
        0
    };
    assert(s@.skip(0) == s@);
    match digits_value(&v, from, 0xffff) {
        Some(n) => Some(n as u16),
        None => None,
    }
}

/// Reads an optional sign and decimal digits.
pub fn parse_i64(s: &str) -> (r: Option<i64>)
    ensures
        r == signed_value(s@),
{
    let v: Vec<char> = characters(s);
    assert(s@.skip(0) == s@);
    if v.len() > 0 && v[0] == '-' {
        match digits_value(&v, 1, 0x8000_0000_0000_0000) {
            Some(n) => Some((-(n as i128)) as i64),
            None => None,
        }
    } else {
        let from: usize = if v.len() > 0 && v[0] == '+' {
            1
        } else {
            0
        };
        match digits_value(&v, from, 0x7fff_ffff_ffff_ffff) {
            Some(n) => Some(n as i64),
            None => None,
        }
    }
}

/// The character of a digit, as a text.
fn digit_text(d: u64) -> (t: &'static str)
    requires
        d < 10,
    ensures
        t@ == seq![digit_char(d as nat)],
{
    proof {
        reveal_strlit("0");
        reveal_strlit("1");
        reveal_strlit("2");
        reveal_strlit("3");
        reveal_strlit("4");
        reveal_strlit("5");
        reveal_strlit("6");
        reveal_strlit("7");
        reveal_strlit("8");
        reveal_strlit("9");
    }
    match d {
        0 => "0",
        1 => "1",
        2 => "2",
        3 => "3",
        4 => "4",
        5 => "5",
        6 => "6",
        7 => "7",
        8 => "8",
        _ => "9",
    }
}

/// The decimal notation of `n`.
pub fn decimal_text(n: u64) -> (t: String)
    ensures
        t@ == decimal(n as nat),
    decreases n,
{
    if n < 10 {
        digit_text(n).to_owned()
    } else {
        let mut t: String = decimal_text(n / 10);
        t.append(digit_text(n % 10));
        t
    }
}

/// Whether two texts are the same.
pub fn same_text(a: &str, b: &str) -> (r: bool)
    ensures
        r == (a@ == b@),
{
    a.to_owned() == b.to_owned()
}

/// A text, or the empty one where it is missing.
pub open spec fn text_or_empty(t: Option<Seq<char>>) -> Seq<char> {
    match t {
        Some(s) => s,
        None => Seq::empty(),
    }
}

/// A text that may be missing, as a character sequence.
pub open spec fn text_view(t: Option<String>) -> Option<Seq<char>> {
    match t {
        Some(s) => Some(s@),
        None => None,
    }
}

/// A text, or the empty one where it is missing.
pub fn text_or_default(t: Option<String>) -> (s: String)
    ensures
        s@ == text_or_empty(text_view(t)),
{
    match t {
        Some(s) => s,
        None => String::new(),
    }
}

/// A text splits at the first separator: what stands before it, the separator and what stands
/// after it are the text, and before it there is no other. Only a text that lacks it does not
/// split.
pub proof fn law_split_first(s: Seq<char>, c: char)
    ensures
        match split_first(s, c) {
            Some((a, b)) => s == a + seq![c] + b && lacks(a, c),
            None => lacks(s, c),
        },
{
    lemma_first_index_is(s, c);
    let i = first_index(s, c);
    if i < s.len() {
        assert(s == s.take(i) + seq![c] + s.skip(i + 1));
    }
}

proof fn lemma_last_index_is(s: Seq<char>, c: char)
    ensures
        -1 <= last_index(s, c) < s.len(),
        last_index(s, c) >= 0 ==> s[last_index(s, c)] == c,
        forall|j: int| last_index(s, c) < j < s.len() ==> s[j] != c,
    decreases s.len(),
{
    if s.len() > 0 && s.last() != c {
        lemma_last_index_is(s.drop_last(), c);
        assert forall|j: int| last_index(s, c) < j < s.len() implies s[j] != c by {
            if j < s.len() - 1 {
                assert(s.drop_last()[j] == s[j]);
            }
        }
    }
}

/// A text splits at the last separator: what stands before it, the separator and what stands
/// after it are the text, and after it there is no other. Only a text that lacks it does not
/// split.
pub proof fn law_split_last(s: Seq<char>, c: char)
    ensures
        match split_last(s, c) {
            Some((a, b)) => s == a + seq![c] + b && lacks(b, c),
            None => lacks(s, c),
        },
{
    lemma_last_index_is(s, c);
    let i = last_index(s, c);
    if i >= 0 {
        assert(s == s.take(i) + seq![c] + s.skip(i + 1));
        let rest = s.skip(i + 1);
        assert forall|j: int| 0 <= j < rest.len() implies rest[j] != c by {
            assert(rest[j] == s[i + 1 + j]);
        }
    }
}

/// The pieces of a text lack the separator, and joined by it they are the text again.
pub proof fn law_pieces_are_joined(s: Seq<char>, c: char)
    ensures
        pieces(s, c).len() > 0,
        joined(pieces(s, c), c) == s,
        forall|i: int| 0 <= i < pieces(s, c).len() ==> lacks(#[trigger] pieces(s, c)[i], c),
    decreases s.len(),
{
    lemma_first_index_is(s, c);
    let i = first_index(s, c);
    if i < s.len() {
        let rest = s.skip(i + 1);
        let more = pieces(rest, c);
        law_pieces_are_joined(rest, c);
        assert(pieces(s, c) == seq![s.take(i)] + more);
        lemma_joined_front(s.take(i), more, c);
        assert(s.take(i) + seq![c] + rest == s);
        assert forall|k: int| 0 <= k < pieces(s, c).len() implies lacks(
            #[trigger] pieces(s, c)[k],
            c,
        ) by {
            if k > 0 {
                assert(pieces(s, c)[k] == more[k - 1]);
            }
        }
    }
}

proof fn lemma_joined_front(t: Seq<char>, texts: Seq<Seq<char>>, c: char)
    requires
        texts.len() > 0,
    ensures
        joined(seq![t] + texts, c) == t + seq![c] + joined(texts, c),
    decreases texts.len(),
{
    let all = seq![t] + texts;
    reveal_with_fuel(joined, 2);
    assert(all.drop_last() == seq![t] + texts.drop_last());
    if texts.len() == 1 {
        assert(all.drop_last()[0] == t);
    } else {
        lemma_joined_front(t, texts.drop_last(), c);
        assert(t + seq![c] + joined(texts.drop_last(), c) + seq![c] + texts.last() == t + seq![c]
            + (joined(texts.drop_last(), c) + seq![c] + texts.last()));
    }
}

/// What follows a prefix is the rest of the text; a text that does not start with it has none.
pub proof fn law_prefix_and_rest(s: Seq<char>, prefix: Seq<char>, rest: Seq<char>)
    ensures
        after_prefix(s, prefix) == Some(rest) <==> s == prefix + rest,
        after_prefix(prefix + rest, prefix) == Some(rest),
        after_prefix(s, prefix) is None <==> !(s.len() >= prefix.len() && s.take(
            prefix.len() as int,
        ) == prefix),
{
    assert((prefix + rest).skip(prefix.len() as int) == rest);
    assert((prefix + rest).take(prefix.len() as int) == prefix);
    if prefix.is_prefix_of(s) {
        assert(s == prefix + s.skip(prefix.len() as int));
    }
}

/// Trimming takes white space off both ends and nothing else, and leaves none there.
pub proof fn law_trim_takes_white_space(s: Seq<char>) -> (ends: (Seq<char>, Seq<char>))
    ensures
        s == ends.0 + trimmed(s) + ends.1,
        is_blank(ends.0),
        is_blank(ends.1),
        trimmed(s).len() > 0 ==> !is_white_space(trimmed(s)[0]) && !is_white_space(
            trimmed(s).last(),
        ),
{
    let before = lemma_trim_start_takes(s);
    let mid = trim_start(s);
    let after = lemma_trim_end_takes(mid);
    assert(s == before + (trimmed(s) + after));
    lemma_assoc(before, trimmed(s), after);
    if trimmed(s).len() > 0 {
        assert(mid[0] == trimmed(s)[0]);
    }
    (before, after)
}

proof fn lemma_trim_start_takes(s: Seq<char>) -> (before: Seq<char>)
    ensures
        s == before + trim_start(s),
        is_blank(before),
        trim_start(s).len() > 0 ==> !is_white_space(trim_start(s)[0]),
    decreases s.len(),
{
    if s.len() > 0 && is_white_space(s[0]) {
        let b = lemma_trim_start_takes(s.drop_first());
        let before = seq![s[0]] + b;
        assert(s == seq![s[0]] + s.drop_first());
        assert(s == before + trim_start(s));
        before
    } else {
        assert(s == Seq::<char>::empty() + s);
        Seq::empty()
    }
}

proof fn lemma_trim_end_takes(s: Seq<char>) -> (after: Seq<char>)
    ensures
        s == trim_end(s) + after,
        is_blank(after),
        trim_end(s).len() > 0 ==> !is_white_space(trim_end(s).last()),
    decreases s.len(),
{
    if s.len() > 0 && is_white_space(s.last()) {
        let a = lemma_trim_end_takes(s.drop_last());
        let after = a.push(s.last());
        assert(s == s.drop_last().push(s.last()));
        assert(s == trim_end(s) + after);
        after
    } else {
        assert(s == s + Seq::<char>::empty());
        Seq::empty()
    }
}

/// A row of digits has the value of its front, shifted by the digits behind it, and of those.
pub proof fn law_digits_have_their_place(a: Seq<char>, b: Seq<char>)
    ensures
        number_value(a + b) == number_value(a) * pow(10, b.len()) + number_value(b),
        forall|c: char| is_digit(c) ==> #[trigger] number_value(seq![c]) == c as nat - '0' as nat,
    decreases b.len(),
{
    assert forall|c: char| is_digit(c) implies #[trigger] number_value(seq![c]) == c as nat
        - '0' as nat by {
        assert(seq![c].drop_last() == Seq::<char>::empty());
        reveal_with_fuel(number_value, 2);
    }
    if b.len() == 0 {
        assert(a + b == a);
        lemma_pow0(10);
    } else {
        let n = (b.len() - 1) as nat;
        law_digits_have_their_place(a, b.drop_last());
        assert((a + b).drop_last() == a + b.drop_last());
        assert((a + b).last() == b.last());
        lemma_pow1(10);
        lemma_pow_adds(10, n, 1);
        assert(number_value(a) * (pow(10, n) * 10) == number_value(a) * pow(10, n) * 10)
            by (nonlinear_arith);
    }
}

/// A number is read from digits, with or without a `+`, where it is in range; anything else is
/// not read.
pub proof fn law_unsigned_is_read(digits: Seq<char>, max: nat)
    ensures
        is_number(digits) && number_value(digits) <= max ==> unsigned_value(digits, max) == Some(
            number_value(digits),
        ) && unsigned_value(seq!['+'] + digits, max) == Some(number_value(digits)),
        !(is_number(digits) && number_value(digits) <= max) ==> unsigned_value(
            seq!['+'] + digits,
            max,
        ) is None && (digits.len() == 0 || digits[0] != '+' ==> unsigned_value(
            digits,
            max,
        ) is None),
{
    assert((seq!['+'] + digits).skip(1) == digits);
    if is_number(digits) {
        assert(is_digit(digits[0]));
    }
}

/// A signed number is read from an optional sign and digits where an `i64` holds it; anything
/// else is not read.
pub proof fn law_signed_is_read(digits: Seq<char>)
    ensures
        ({
            let n = number_value(digits);
            &&& is_number(digits) && n <= i64::MAX ==> {
                &&& signed_value(digits) == Some(n as i64)
                &&& signed_value(seq!['+'] + digits) == Some(n as i64)
            }
            &&& is_number(digits) && n <= i64::MAX + 1 ==> signed_value(seq!['-'] + digits)
                is Some && signed_value(seq!['-'] + digits)->0 == -n
            &&& !is_number(digits) || n > i64::MAX ==> signed_value(seq!['+'] + digits) is None
                && (digits.len() == 0 || (digits[0] != '+' && digits[0] != '-') ==> signed_value(
                digits,
            ) is None)
            &&& !is_number(digits) || n > i64::MAX + 1 ==> signed_value(seq!['-'] + digits) is None
        }),
{
    law_unsigned_is_read(digits, 0x7fff_ffff_ffff_ffff);
    assert((seq!['+'] + digits).skip(1) == digits);
    assert((seq!['-'] + digits).skip(1) == digits);
    assert((seq!['+'] + digits)[0] == '+');
    assert((seq!['-'] + digits)[0] == '-');
    if is_number(digits) {
        assert(is_digit(digits[0]));
    }
}

/// A number is written as digits that have its value, with a leading zero only where it is zero;
/// a negative one with a `-` in front.
pub proof fn law_decimal_is_canonical(n: nat)
    ensures
        is_number(decimal(n)),
        number_value(decimal(n)) == n,
        decimal(n).len() == 1 || decimal(n)[0] != '0',
        signed_decimal(n as int) == decimal(n),
        n > 0 ==> signed_decimal(-(n as int)) == seq!['-'] + decimal(n),
{
    lemma_decimal(n);
    lemma_no_leading_zero(n);
}

/// A text is seen as its characters, and a missing one counts as the empty one.
pub proof fn law_missing_text_is_empty(t: Seq<char>, s: String)
    ensures
        text_or_empty(Some(t)) == t,
        text_or_empty(None) == Seq::<char>::empty(),
        text_view(Some(s)) == Some(s@),
        text_view(None) is None,
{
}

/// Digits without a leading zero are the decimal notation of their value.
pub proof fn law_canonical_digits_are_decimal(s: Seq<char>)
    requires
        is_number(s),
        s.len() == 1 || s[0] != '0',
    ensures
        decimal(number_value(s)) == s,
        s[0] != '0' ==> number_value(s) > 0,
    decreases s.len(),
{
    let rest = s.drop_last();
    assert(is_digit(s[0]));
    assert(is_digit(s.last()));
    if s.len() == 1 {
        assert(rest == Seq::<char>::empty());
        reveal_with_fuel(number_value, 2);
        assert(decimal(number_value(s)) == seq![s[0]]);
        assert(seq![s[0]] == s);
    } else {
        assert(rest[0] == s[0]);
        assert forall|i: int| 0 <= i < rest.len() implies is_digit(#[trigger] rest[i]) by {
            assert(is_digit(s[i]));
        }
        law_canonical_digits_are_decimal(rest);
        assert(number_value(s) / 10 == number_value(rest));
        assert(decimal(number_value(s)) == rest.push(s.last()));
        assert(rest.push(s.last()) == s);
    }
}

/// The digits are the characters from `0` to `9`, and a number is one or more of them.
pub proof fn law_numbers_are_digits(s: Seq<char>, c: char)
    ensures
        is_digit(c) <==> '0' <= c <= '9',
        is_number(s) <==> s.len() > 0 && forall|i: int|
            0 <= i < s.len() ==> '0' <= #[trigger] s[i] <= '9',
{
    if forall|i: int| 0 <= i < s.len() ==> '0' <= #[trigger] s[i] <= '9' {
        assert forall|i: int| 0 <= i < s.len() implies is_digit(#[trigger] s[i]) by {}
    }
    if is_number(s) {
        assert forall|i: int| 0 <= i < s.len() implies '0' <= #[trigger] s[i] <= '9' by {
            assert(is_digit(s[i]));
        }
    }
}

} // verus!
