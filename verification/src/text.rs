//! Character-level helpers shared by the analyzer and the renderers.

use vstd::prelude::*;

verus! {

/// The character for a decimal digit.
pub open spec fn digit_char(d: nat) -> char {
    seq!['0', '1', '2', '3', '4', '5', '6', '7', '8', '9'][d as int]
}

/// Decimal notation of a natural number, most significant digit first.
pub open spec fn decimal(n: nat) -> Seq<char>
    decreases n,
{
    if n < 10 {
        seq![digit_char(n)]
    } else {
        decimal(n / 10).push(digit_char(n % 10))
    }
}

/// Decimal notation names numbers one to one: distinct numbers have
/// distinct notations.
pub proof fn lemma_decimal_injective(a: nat, b: nat)
    ensures
        decimal(a) == decimal(b) ==> a == b,
    decreases a,
{
    lemma_decimal_len(a);
    lemma_decimal_len(b);
    if decimal(a) == decimal(b) {
        if a >= 10 && b >= 10 {
            assert(decimal(a).drop_last() == decimal(a / 10));
            assert(decimal(b).drop_last() == decimal(b / 10));
            lemma_decimal_injective(a / 10, b / 10);
            assert(decimal(a).last() == digit_char(a % 10));
            assert(decimal(b).last() == digit_char(b % 10));
        } else {
            assert(decimal(a)[0] == digit_char(a));
            assert(decimal(b)[0] == digit_char(b));
        }
    }
}

/// Decimal notation is made of the digits `0` to `9`.
pub proof fn lemma_decimal_digits(n: nat)
    ensures
        forall|j: int| 0 <= j < decimal(n).len() ==> '0' <= #[trigger] decimal(n)[j] <= '9',
    decreases n,
{
    if n >= 10 {
        lemma_decimal_digits(n / 10);
        assert forall|j: int| 0 <= j < decimal(n).len() implies '0' <= #[trigger] decimal(n)[j] <= '9' by {
            if j < decimal(n / 10).len() {
                assert(decimal(n)[j] == decimal(n / 10)[j]);
            }
        }
    }
}

/// Notations of numbers below ten have one digit; those of larger numbers
/// have more.
pub proof fn lemma_decimal_len(n: nat)
    ensures
        decimal(n).len() >= 1,
        decimal(n).len() == 1 <==> n < 10,
    decreases n,
{
    if n >= 10 {
        lemma_decimal_len(n / 10);
    }
}

/// Appends one character to a `String` (std's `String::push`).
#[verifier::external_body]
pub(crate) fn push_char(text: &mut String, c: char)
    ensures
        final(text)@ == old(text)@.push(c),
{
    text.push(c);
}

/// The characters of a string slice, in order.
pub fn chars_of(s: &str) -> (out: Vec<char>)
    ensures
        out@ == s@,
{
    let mut out: Vec<char> = Vec::new();
    for c in it: s.chars()
        invariant
            out@ == it.seq().take(it.index() as int),
    {
        out.push(c);
    }
    out
}

fn digit(d: u128) -> (c: char)
    requires
        d < 10,
    ensures
        c == digit_char(d as nat),
{
    if d == 0 {
        '0'
    } else if d == 1 {
        '1'
    } else if d == 2 {
        '2'
    } else if d == 3 {
        '3'
    } else if d == 4 {
        '4'
    } else if d == 5 {
        '5'
    } else if d == 6 {
        '6'
    } else if d == 7 {
        '7'
    } else if d == 8 {
        '8'
    } else {
        '9'
    }
}

/// Decimal notation of `n`.
pub fn decimal_text(n: u128) -> (out: String)
    ensures
        out@ == decimal(n as nat),
{
    let mut digits: Vec<char> = Vec::new();
    let mut rest = n;
    while rest >= 10
        invariant
            decimal(n as nat) == decimal(rest as nat) + digits@.reverse(),
        decreases rest,
    {
        digits.push(digit(rest % 10));
        rest = rest / 10;
    }
    let mut out = String::new();
    push_char(&mut out, digit(rest));
    let mut i = digits.len();
    while i > 0
        invariant
            i <= digits.len(),
            out@ + digits@.take(i as int).reverse() == decimal(n as nat),
        decreases i,
    {
        i = i - 1;
        push_char(&mut out, digits[i]);
    }
    out
}

/// Index of the last occurrence of `c` in `s`, or -1 when `c` does not occur.
pub open spec fn last_index_of(s: Seq<char>, c: char) -> int
    decreases s.len(),
{
    if s.len() == 0 {
        -1
    } else if s.last() == c {
        s.len() - 1
    } else {
        last_index_of(s.drop_last(), c)
    }
}

/// The last occurrence of `c` is `c`, and nothing after it is.
pub proof fn lemma_last_index_of(s: Seq<char>, c: char)
    ensures
        -1 <= last_index_of(s, c) < s.len(),
        last_index_of(s, c) >= 0 ==> s[last_index_of(s, c)] == c,
        forall|j: int| last_index_of(s, c) < j < s.len() ==> s[j] != c,
    decreases s.len(),
{
    if s.len() > 0 && s.last() != c {
        lemma_last_index_of(s.drop_last(), c);
        assert forall|j: int| last_index_of(s, c) < j < s.len() implies s[j] != c by {
            if j < s.len() - 1 {
                assert(s[j] == s.drop_last()[j]);
            }
        }
    }
}

/// The last occurrence of `c` among the first `end` characters of `s`.
pub fn last_index_in(s: &Vec<char>, end: usize, c: char) -> (k: Option<usize>)
    requires
        end <= s.len(),
    ensures
        match k {
            Some(i) => last_index_of(s@.subrange(0, end as int), c) == i && i < end,
            None => last_index_of(s@.subrange(0, end as int), c) == -1,
        },
{
    let mut i = end;
    while i > 0
        invariant
            i <= end <= s.len(),
            last_index_of(s@.subrange(0, end as int), c) == last_index_of(s@.subrange(0, i as int), c),
        decreases i,
    {
        if s[i - 1] == c {
            return Some(i - 1);
        }
        assert(s@.subrange(0, i as int).drop_last() == s@.subrange(0, i - 1));
        i = i - 1;
    }
    None
}

/// The last occurrence of `c` among the characters `from..to` of `s`, as an
/// index into `s`.
pub fn last_index_between(s: &Vec<char>, from: usize, to: usize, c: char) -> (k: Option<usize>)
    requires
        from <= to <= s.len(),
    ensures
        match k {
            Some(i) => from <= i < to && last_index_of(s@.subrange(from as int, to as int), c) == i - from,
            None => last_index_of(s@.subrange(from as int, to as int), c) == -1,
        },
{
    let mut i = to;
    while i > from
        invariant
            from <= i <= to <= s.len(),
            last_index_of(s@.subrange(from as int, to as int), c) == last_index_of(s@.subrange(from as int, i as int), c),
        decreases i,
    {
        if s[i - 1] == c {
            return Some(i - 1);
        }
        assert(s@.subrange(from as int, i as int).drop_last() == s@.subrange(from as int, i - 1));
        i = i - 1;
    }
    None
}

/// Where `s` has an occurrence of `c` at or after `start`, the last one seen
/// from the suffix that begins at `start` is the last one of `s`, shifted.
pub proof fn lemma_last_index_of_suffix(s: Seq<char>, start: int, c: char)
    requires
        0 <= start <= s.len(),
    ensures
        last_index_of(s, c) >= start ==> last_index_of(s.subrange(start, s.len() as int), c)
            == last_index_of(s, c) - start,
        last_index_of(s, c) < start ==> last_index_of(s.subrange(start, s.len() as int), c) == -1,
        -1 <= last_index_of(s, c) < s.len(),
    decreases s.len(),
{
    if s.len() > 0 {
        lemma_last_index_of_suffix(s.drop_last(), if start < s.len() { start } else { start - 1 }, c);
        if start < s.len() {
            assert(s.subrange(start, s.len() as int).drop_last() == s.drop_last().subrange(start, s.len() - 1));
        } else {
            assert(s.subrange(start, s.len() as int).len() == 0);
        }
    }
}

/// `needle` occurs in `hay`.
pub open spec fn contains_text(hay: Seq<char>, needle: Seq<char>) -> bool {
    exists|k: int| 0 <= k && k + needle.len() <= hay.len() && #[trigger] hay.subrange(k, k + needle.len()) == needle
}

/// Whether `needle` occurs in `hay`.
pub fn text_contains(hay: &Vec<char>, needle: &Vec<char>) -> (r: bool)
    ensures
        r == contains_text(hay@, needle@),
{
    let n = hay.len();
    let p = needle.len();
    if p > n {
        return false;
    }
    let mut k: usize = 0;
    while k <= n - p
        invariant
            p <= n == hay.len(),
            p == needle.len(),
            k <= n - p + 1,
            forall|j: int| 0 <= j < k ==> #[trigger] hay@.subrange(j, j + p) != needle@,
        decreases n - p + 1 - k,
    {
        let mut i: usize = 0;
        let mut same = true;
        while i < p
            invariant
                p <= n == hay.len(),
                p == needle.len(),
                k + p <= n,
                i <= p,
                same == forall|j: int| 0 <= j < i ==> hay@[k + j] == needle@[j],
            decreases p - i,
        {
            if hay[k + i] != needle[i] {
                same = false;
            }
            i = i + 1;
        }
        if same {
            assert(hay@.subrange(k as int, k + p) =~= needle@);
            return true;
        }
        assert(!same);
        let ghost w = choose|j: int| 0 <= j < p && hay@[k + j] != needle@[j];
        assert(hay@.subrange(k as int, k + p)[w] != needle@[w]);
        k = k + 1;
    }
    assert forall|j: int| 0 <= j && j + needle@.len() <= hay@.len() implies #[trigger] hay@.subrange(j, j + needle@.len()) != needle@ by {
        assert(j < k);
    }
    false
}

/// Whether two strings are equal.
pub fn text_equals(a: &str, b: &str) -> (r: bool)
    ensures
        r == (a@ == b@),
{
    proof {
        crate::order::lemma_text_order(a@, b@, b@);
    }
    crate::order::compare_text(a, b) == 0
}

/// The bytes as a string slice where they are valid UTF-8
/// (`std::str::from_utf8`); its characters are their decoding.
#[verifier::external_body]
pub(crate) fn utf8_str(bytes: &[u8]) -> (r: Option<&str>)
    ensures
        r is Some <==> vstd::utf8::valid_utf8(bytes@),
        r matches Some(s) ==> s@ == vstd::utf8::decode_utf8(bytes@),
{
    std::str::from_utf8(bytes).ok()
}

} // verus!
