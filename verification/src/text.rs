//! Character-level text helpers shared by the calculator and its renderer.
use vstd::prelude::*;
use vstd::utf8::encode_utf8;

verus! {

/// The digit character for a value in `0..10`.
pub open spec fn digit_char(d: int) -> char {
    if d <= 0 { '0' }
    else if d == 1 { '1' }
    else if d == 2 { '2' }
    else if d == 3 { '3' }
    else if d == 4 { '4' }
    else if d == 5 { '5' }
    else if d == 6 { '6' }
    else if d == 7 { '7' }
    else if d == 8 { '8' }
    else { '9' }
}

/// Decimal notation of a natural number, most significant digit first,
/// without leading zeros.
pub open spec fn decimal_digits(n: nat) -> Seq<char>
    decreases n,
{
    if n < 10 {
        seq![digit_char(n as int)]
    } else {
        decimal_digits(n / 10).push(digit_char((n % 10) as int))
    }
}

/// Decimal notation of an integer, with a leading `-` when it is negative.
pub open spec fn int_text(n: int) -> Seq<char> {
    if n < 0 {
        seq!['-'] + decimal_digits((-n) as nat)
    } else {
        decimal_digits(n as nat)
    }
}

/// `s` with every trailing `c` removed.
pub open spec fn trim_end(s: Seq<char>, c: char) -> Seq<char>
    decreases s.len(),
{
    if s.len() > 0 && s.last() == c {
        trim_end(s.drop_last(), c)
    } else {
        s
    }
}

/// Number of bytes of the UTF-8 encoding of `s`.
pub open spec fn byte_len(s: Seq<char>) -> nat {
    encode_utf8(s).len()
}

/// Number of bytes of `s`, as `str::len` counts them.
pub fn byte_count(s: &str) -> (n: usize)
    ensures
        n == byte_len(s@),
{
    s.as_bytes().len()
}

/// The one-digit string literal for `d`.
pub fn digit_str(d: u64) -> (s: &'static str)
    requires
        d < 10,
    ensures
        s@ == seq![digit_char(d as int)],
{
    if d == 0 {
        proof { reveal_strlit("0"); }
        "0"
    } else if d == 1 {
        proof { reveal_strlit("1"); }
        "1"
    } else if d == 2 {
        proof { reveal_strlit("2"); }
        "2"
    } else if d == 3 {
        proof { reveal_strlit("3"); }
        "3"
    } else if d == 4 {
        proof { reveal_strlit("4"); }
        "4"
    } else if d == 5 {
        proof { reveal_strlit("5"); }
        "5"
    } else if d == 6 {
        proof { reveal_strlit("6"); }
        "6"
    } else if d == 7 {
        proof { reveal_strlit("7"); }
        "7"
    } else if d == 8 {
        proof { reveal_strlit("8"); }
        "8"
    } else {
        proof { reveal_strlit("9"); }
        "9"
    }
}

/// Appends the decimal notation of `m` to `out`.
pub fn push_decimal(out: &mut String, m: u64)
    ensures
        final(out)@ == old(out)@ + decimal_digits(m as nat),
    decreases m,
{
    if m >= 10 {
        push_decimal(out, m / 10);
    }
    out.append(digit_str(m % 10));
    proof {
        if m >= 10 {
            assert(old(out)@ + decimal_digits(m as nat) =~= old(out)@ + decimal_digits((m / 10) as nat)
                + seq![digit_char((m % 10) as int)]);
        } else {
            assert(m % 10 == m);
        }
    }
}

/// Decimal notation of `n`, as `format!("{}", n)` writes it.
pub fn int_to_text(n: i64) -> (s: String)
    ensures
        s@ == int_text(n as int),
{
    let mut s = String::new();
    if n < 0 {
        proof { reveal_strlit("-"); }
        s.append("-");
        let m: u64 = if n == i64::MIN { 9223372036854775808u64 } else { (-n) as u64 };
        push_decimal(&mut s, m);
    } else {
        push_decimal(&mut s, n as u64);
    }
    s
}

/// Whether `c` occurs in `s`.
pub fn contains_char(s: &str, c: char) -> (found: bool)
    ensures
        found == s@.contains(c),
{
    let n = s.unicode_len();
    let mut i: usize = 0;
    while i < n
        invariant
            n == s@.len(),
            i <= n,
            forall|j: int| 0 <= j < i ==> s@[j] != c,
        decreases n - i,
    {
        if s.get_char(i) == c {
            assert(s@[i as int] == c);
            return true;
        }
        i = i + 1;
    }
    false
}

/// Whether `s` is exactly the one-character text `c`.
pub fn is_single_char(s: &str, c: char) -> (same: bool)
    ensures
        same == (s@ == seq![c]),
{
    let n = s.unicode_len();
    if n == 1 {
        let first = s.get_char(0);
        if first == c {
            assert(s@ =~= seq![c]);
            true
        } else {
            false
        }
    } else {
        false
    }
}

/// `s` without its last character.
pub fn without_last(s: &str) -> (r: String)
    requires
        s@.len() > 0,
    ensures
        r@ == s@.drop_last(),
{
    let n = s.unicode_len();
    String::from_str(s.substring_char(0, n - 1))
}

/// `s` with every trailing `c` removed, as `trim_end_matches(c)` does.
pub fn trim_end_char(s: &str, c: char) -> (r: String)
    ensures
        r@ == trim_end(s@, c),
{
    let n = s.unicode_len();
    let mut end: usize = n;
    assert(s@.subrange(0, n as int) =~= s@);
    while end > 0 && s.get_char(end - 1) == c
        invariant
            n == s@.len(),
            end <= n,
            trim_end(s@, c) == trim_end(s@.subrange(0, end as int), c),
        decreases end,
    {
        let ghost pre = s@.subrange(0, end as int);
        assert(pre.drop_last() =~= s@.subrange(0, end - 1));
        end = end - 1;
    }
    let kept = s.substring_char(0, end);
    String::from_str(kept)
}

/// Concatenation of two texts.
pub fn concat(a: &str, b: &str) -> (r: String)
    ensures
        r@ == a@ + b@,
{
    let mut r = String::from_str(a);
    r.append(b);
    r
}

/// An empty sequence encodes to no bytes, and any other to some.
pub proof fn lemma_byte_len_zero(s: Seq<char>)
    ensures
        (byte_len(s) == 0) == (s.len() == 0),
{
    if s.len() > 0 {
        assert(encode_utf8(s) == vstd::utf8::encode_scalar(s[0] as u32) + encode_utf8(s.drop_first()));
    }
}

/// Encoding a sequence with one more character appends that character's
/// encoding.
pub proof fn lemma_encode_push(s: Seq<char>, c: char)
    ensures
        encode_utf8(s.push(c)) == encode_utf8(s) + vstd::utf8::encode_scalar(c as u32),
    decreases s.len(),
{
    if s.len() == 0 {
        assert(s.push(c).drop_first() =~= Seq::<char>::empty());
        assert(encode_utf8(Seq::<char>::empty()) =~= Seq::<u8>::empty());
        assert(encode_utf8(s.push(c)) =~= vstd::utf8::encode_scalar(c as u32));
    } else {
        lemma_encode_push(s.drop_first(), c);
        assert(s.push(c).drop_first() =~= s.drop_first().push(c));
        assert(s.push(c)[0] == s[0]);
        assert(encode_utf8(s.push(c)) =~= encode_utf8(s) + vstd::utf8::encode_scalar(c as u32));
    }
}

/// A digit takes one byte.
pub proof fn lemma_byte_len_push_digit(s: Seq<char>, d: int)
    ensures
        byte_len(s.push(digit_char(d))) == byte_len(s) + 1,
{
    lemma_encode_push(s, digit_char(d));
    assert(vstd::utf8::has_width_1_encoding(digit_char(d) as u32));
}

/// A one-digit text takes one byte.
pub proof fn lemma_byte_len_digit(d: int)
    ensures
        byte_len(seq![digit_char(d)]) == 1,
{
    lemma_byte_len_push_digit(Seq::empty(), d);
    assert(Seq::<char>::empty().push(digit_char(d)) =~= seq![digit_char(d)]);
    lemma_byte_len_zero(Seq::empty());
}

/// Removing trailing `c`s leaves a text that does not end in `c`.
pub proof fn lemma_trim_end_last(s: Seq<char>, c: char)
    ensures
        trim_end(s, c).len() == 0 || trim_end(s, c).last() != c,
    decreases s.len(),
{
    if s.len() > 0 && s.last() == c {
        lemma_trim_end_last(s.drop_last(), c);
    }
}

/// The decimal notation of a number ends in a digit.
pub proof fn lemma_decimal_digits_last(n: nat)
    ensures
        decimal_digits(n).len() > 0,
        decimal_digits(n).last() == digit_char((n % 10) as int),
{
}

/// Every character of `s` is ASCII.
pub open spec fn is_ascii_text(s: Seq<char>) -> bool {
    forall|i: int| 0 <= i < s.len() ==> (#[trigger] s[i] as u32) < 0x80
}

/// `s` holds at most one decimal point.
pub open spec fn at_most_one_point(s: Seq<char>) -> bool {
    forall|i: int, j: int|
        0 <= i < s.len() && 0 <= j < s.len() && #[trigger] s[i] == '.' && #[trigger] s[j] == '.' ==> i == j
}

/// `c` is a decimal digit.
pub open spec fn is_digit(c: char) -> bool {
    '0' <= c <= '9'
}

/// Every character of `s` is a decimal digit.
pub open spec fn all_digits(s: Seq<char>) -> bool {
    forall|i: int| 0 <= i < s.len() ==> is_digit(#[trigger] s[i])
}

/// The digit characters are decimal digits.
pub proof fn lemma_digit_char_is_digit(d: int)
    ensures
        is_digit(digit_char(d)),
{
}

/// The decimal notation of a number is made of digits.
pub proof fn lemma_decimal_digits_are_digits(n: nat)
    ensures
        all_digits(decimal_digits(n)),
        decimal_digits(n).len() > 0,
    decreases n,
{
    lemma_digit_char_is_digit(n as int);
    lemma_digit_char_is_digit((n % 10) as int);
    if n >= 10 {
        lemma_decimal_digits_are_digits(n / 10);
    }
}

/// An ASCII text takes one byte per character.
pub proof fn lemma_ascii_byte_len(s: Seq<char>)
    requires
        is_ascii_text(s),
    ensures
        byte_len(s) == s.len(),
    decreases s.len(),
{
    if s.len() == 0 {
        assert(encode_utf8(s) =~= Seq::<u8>::empty());
    } else {
        let init = s.drop_last();
        assert(init.push(s.last()) =~= s);
        assert((s[s.len() - 1] as u32) < 0x80);
        assert(is_ascii_text(init));
        lemma_ascii_byte_len(init);
        lemma_encode_push(init, s.last());
    }
}

/// Removing trailing `c`s leaves a prefix, which keeps every character
/// before the last one that is not `c`.
pub proof fn lemma_trim_end_prefix(s: Seq<char>, c: char)
    ensures
        trim_end(s, c).len() <= s.len(),
        trim_end(s, c) == s.subrange(0, trim_end(s, c).len() as int),
        forall|k: int| 0 <= k < s.len() && s[k] != c ==> k < trim_end(s, c).len(),
    decreases s.len(),
{
    if s.len() > 0 && s.last() == c {
        lemma_trim_end_prefix(s.drop_last(), c);
        let t = trim_end(s.drop_last(), c);
        assert(t =~= s.subrange(0, t.len() as int));
        assert forall|k: int| 0 <= k < s.len() && s[k] != c implies k < trim_end(s, c).len() by {
            assert(k != s.len() - 1);
            assert(s.drop_last()[k] == s[k]);
        }
    } else {
        assert(s =~= s.subrange(0, s.len() as int));
    }
}

/// Every character takes at least one byte.
pub proof fn lemma_byte_len_at_least_len(s: Seq<char>)
    ensures
        byte_len(s) >= s.len(),
    decreases s.len(),
{
    if s.len() > 0 {
        let init = s.drop_last();
        assert(init.push(s.last()) =~= s);
        lemma_byte_len_at_least_len(init);
        lemma_encode_push(init, s.last());
    }
}

} // verus!
