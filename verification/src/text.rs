//! Text as sequences of characters: decimal numbers, prefixes and suffixes,
//! surrounding whitespace and lines.
//!
//! Every specification here speaks of `Seq<char>`, the view of `str` and
//! `String`; the executable functions compute the same values on strings.

use vstd::prelude::*;
use vstd::string::*;

verus! {

/// The ASCII decimal digits.
pub open spec fn is_digit(c: char) -> bool {
    '0' <= c && c <= '9'
}

/// The number that the digit `c` stands for.
pub open spec fn digit_value(c: char) -> nat
    recommends
        is_digit(c),
{
    (c as nat - '0' as nat) as nat
}

/// The digit that stands for `d`, for `d` below ten.
pub open spec fn digit_char(d: nat) -> char
    recommends
        d < 10,
{
    seq!['0', '1', '2', '3', '4', '5', '6', '7', '8', '9'][d as int]
}

/// A non-empty run of decimal digits.
pub open spec fn is_number(s: Seq<char>) -> bool {
    s.len() > 0 && forall|i: int| 0 <= i < s.len() ==> is_digit(#[trigger] s[i])
}

/// The value of a run of decimal digits, most significant digit first.
pub open spec fn number_value(s: Seq<char>) -> nat
    decreases s.len(),
{
    if s.len() == 0 {
        0
    } else {
        number_value(s.drop_last()) * 10 + digit_value(s.last())
    }
}

/// The decimal notation of `n`, without leading zeros.
pub open spec fn decimal(n: nat) -> Seq<char>
    decreases n,
{
    if n < 10 {
        seq![digit_char(n)]
    } else {
        decimal(n / 10).push(digit_char(n % 10))
    }
}

/// A run of digits is worth at least as much as each of its prefixes.
pub proof fn lemma_number_value_prefix(s: Seq<char>, k: int)
    requires
        0 <= k <= s.len(),
    ensures
        number_value(s.take(k)) <= number_value(s),
    decreases s.len() - k,
{
    if k == s.len() {
        assert(s.take(k) =~= s);
    } else {
        lemma_number_value_prefix(s, k + 1);
        assert(s.take(k + 1).drop_last() =~= s.take(k));
    }
}

/// The decimal notation of a number is a run of digits worth that number.
pub proof fn lemma_decimal_is_number(n: nat)
    ensures
        is_number(decimal(n)),
        number_value(decimal(n)) == n,
    decreases n,
{
    if n < 10 {
        let s = decimal(n);
        assert(s.len() == 1);
        assert(s.drop_last() =~= Seq::<char>::empty());
        assert(number_value(s.drop_last()) == 0);
        assert(s.last() == digit_char(n));
    } else {
        lemma_decimal_is_number(n / 10);
        let s = decimal(n);
        assert(s.drop_last() =~= decimal(n / 10));
        assert(s.last() == digit_char(n % 10));
    }
}

/// The characters of `s`, in order.
pub fn chars_of(s: &str) -> (v: Vec<char>)
    ensures
        v@ == s@,
{
    let mut v: Vec<char> = Vec::new();
    for c in it: s.chars()
        invariant
            v@ == it.seq().take(it.index() as int),
    {
        v.push(c);
    }
    v
}

/// Tests whether `c` is an ASCII decimal digit.
pub fn char_is_digit(c: char) -> (r: bool)
    ensures
        r == is_digit(c),
{
    '0' <= c && c <= '9'
}

/// Reads `s` as an unsigned decimal number: a non-empty run of ASCII digits
/// and nothing else, no sign and no blanks. The number must fit `u64`.
pub fn parse_u64(s: &str) -> (r: Option<u64>)
    ensures
        r == if is_number(s@) && number_value(s@) <= u64::MAX {
            Some(number_value(s@) as u64)
        } else {
            None
        },
{
    let chars = chars_of(s);
    let n: usize = chars.len();
    if n == 0 {
        return None;
    }
    let mut acc: u64 = 0;
    let mut i: usize = 0;
    while i < n
        invariant
            0 <= i <= n,
            n == chars@.len(),
            chars@ == s@,
            forall|j: int| 0 <= j < i ==> is_digit(#[trigger] chars@[j]),
            acc == number_value(chars@.take(i as int)),
        decreases n - i,
    {
        let c: char = chars[i];
        if !char_is_digit(c) {
            return None;
        }
        let d: u64 = (c as u32 - '0' as u32) as u64;
        proof {
            assert(chars@.take(i + 1).drop_last() =~= chars@.take(i as int));
            assert(chars@.take(i + 1).last() == c);
            assert(d == digit_value(c));
            lemma_number_value_prefix(chars@, i + 1);
        }
        if acc > (u64::MAX - d) / 10 {
            return None;
        }
        acc = acc * 10 + d;
        i = i + 1;
    }
    proof {
        assert(chars@.take(n as int) =~= chars@);
    }
    Some(acc)
}

/// The one-character text of the digit `d`.
fn digit_text(d: u8) -> (r: &'static str)
    requires
        d < 10,
    ensures
        r@ == seq![digit_char(d as nat)],
{
    proof {
        reveal_strlit("0");
        reveal_strlit("1");
        reveal_strlit("2");
        reveal_strlit("3");
        reveal_strlit("4");
        reveal_strlit("5");
        reveal_strlit("6");
        reveal_strlit("7");
        reveal_strlit("8");
        reveal_strlit("9");
    }
    let r = if d == 0 {
        "0"
    } else if d == 1 {
        "1"
    } else if d == 2 {
        "2"
    } else if d == 3 {
        "3"
    } else if d == 4 {
        "4"
    } else if d == 5 {
        "5"
    } else if d == 6 {
        "6"
    } else if d == 7 {
        "7"
    } else if d == 8 {
        "8"
    } else {
        "9"
    };
    assert(r@ =~= seq![digit_char(d as nat)]);
    r
}

/// Appends the decimal notation of `n` to `out`.
pub fn push_decimal(out: &mut String, n: u128)
    ensures
        final(out)@ == old(out)@ + decimal(n as nat),
    decreases n,
{
    if n >= 10 {
        push_decimal(out, n / 10);
    }
    let d: u8 = (n % 10) as u8;
    out.append(digit_text(d));
    proof {
        if n >= 10 {
            assert(old(out)@ + decimal((n / 10) as nat) + seq![digit_char(d as nat)] =~= old(out)@
                + decimal(n as nat));
        }
    }
}

/// The characters that count as blank: Unicode's `White_Space`.
pub open spec fn is_whitespace(c: char) -> bool {
    let u = c as u32;
    ||| 0x09 <= u <= 0x0D
    ||| u == 0x20
    ||| u == 0x85
    ||| u == 0xA0
    ||| u == 0x1680
    ||| 0x2000 <= u <= 0x200A
    ||| u == 0x2028
    ||| u == 0x2029
    ||| u == 0x202F
    ||| u == 0x205F
    ||| u == 0x3000
}

/// `s` without the blanks it starts with.
pub open spec fn trim_start(s: Seq<char>) -> Seq<char>
    decreases s.len(),
{
    if s.len() > 0 && is_whitespace(s[0]) {
        trim_start(s.drop_first())
    } else {
        s
    }
}

/// `s` without the blanks it ends with.
pub open spec fn trim_end(s: Seq<char>) -> Seq<char>
    decreases s.len(),
{
    if s.len() > 0 && is_whitespace(s.last()) {
        trim_end(s.drop_last())
    } else {
        s
    }
}

/// `s` without the blanks at either end.
pub open spec fn trimmed(s: Seq<char>) -> Seq<char> {
    trim_end(trim_start(s))
}

/// How many characters stand before the first line feed of `s`; the length
/// of `s` where it has none.
pub open spec fn first_newline(s: Seq<char>) -> int
    decreases s.len(),
{
    if s.len() == 0 || s[0] == '\n' {
        0
    } else {
        1 + first_newline(s.drop_first())
    }
}

/// A line without the carriage return that stood before its line feed.
pub open spec fn strip_cr(s: Seq<char>) -> Seq<char> {
    if s.len() > 0 && s.last() == '\r' {
        s.drop_last()
    } else {
        s
    }
}

/// The lines of `s`. A line ends with a line feed, or with a carriage return
/// and a line feed; neither belongs to the line. What follows the last line
/// feed is a line too, unless it is empty, and keeps a carriage return that
/// it ends with.
pub open spec fn lines_of(s: Seq<char>) -> Seq<Seq<char>>
    decreases s.len(),
{
    if s.len() == 0 {
        Seq::empty()
    } else {
        let k = first_newline(s);
        if 0 <= k < s.len() {
            seq![strip_cr(s.take(k))] + lines_of(s.skip(k + 1))
        } else {
            seq![s]
        }
    }
}

/// `first_newline` finds the first line feed.
pub proof fn lemma_first_newline(s: Seq<char>, k: int)
    requires
        0 <= k <= s.len(),
        forall|j: int| 0 <= j < k ==> s[j] != '\n',
        k < s.len() ==> s[k] == '\n',
    ensures
        first_newline(s) == k,
    decreases s.len(),
{
    if s.len() == 0 || s[0] == '\n' {
    } else {
        let t = s.drop_first();
        assert forall|j: int| 0 <= j < k - 1 implies t[j] != '\n' by {
            assert(t[j] == s[j + 1]);
        }
        lemma_first_newline(t, k - 1);
    }
}

/// Tests whether `c` is blank.
pub fn char_is_whitespace(c: char) -> (r: bool)
    ensures
        r == is_whitespace(c),
{
    let u: u32 = c as u32;
    (0x09 <= u && u <= 0x0D) || u == 0x20 || u == 0x85 || u == 0xA0 || u == 0x1680 || (0x2000 <= u
        && u <= 0x200A) || u == 0x2028 || u == 0x2029 || u == 0x202F || u == 0x205F || u == 0x3000
}

/// Tests whether `s` begins with `prefix`.
pub fn starts_with(s: &str, prefix: &str) -> (r: bool)
    ensures
        r == prefix@.is_prefix_of(s@),
{
    let n: usize = s.unicode_len();
    let m: usize = prefix.unicode_len();
    if m > n {
        return false;
    }
    s.substring_char(0, m).eq(prefix)
}

/// Takes `suffix` off the end of `s`: what stands before it, or `None` where
/// `s` does not end with it.
pub fn strip_suffix<'a>(s: &'a str, suffix: &str) -> (r: Option<&'a str>)
    ensures
        match r {
            Some(rest) => suffix@.is_suffix_of(s@) && rest@ == s@.take(s@.len() - suffix@.len()),
            None => !suffix@.is_suffix_of(s@),
        },
{
    let n: usize = s.unicode_len();
    let m: usize = suffix.unicode_len();
    if m > n {
        return None;
    }
    if s.substring_char(n - m, n).eq(suffix) {
        Some(s.substring_char(0, n - m))
    } else {
        None
    }
}

/// `s` without the blanks at either end.
pub fn trim(s: &str) -> (r: &str)
    ensures
        r@ == trimmed(s@),
{
    let chars = chars_of(s);
    let n: usize = chars.len();
    let mut a: usize = 0;
    assert(s@.subrange(0, n as int) =~= s@);
    while a < n && char_is_whitespace(chars[a])
        invariant
            0 <= a <= n,
            n == chars@.len(),
            chars@ == s@,
            trim_start(s@) == trim_start(s@.subrange(a as int, n as int)),
        decreases n - a,
    {
        proof {
            let t = s@.subrange(a as int, n as int);
            assert(t[0] == chars@[a as int]);
            assert(t.drop_first() =~= s@.subrange(a + 1, n as int));
        }
        a = a + 1;
    }
    let ghost t = s@.subrange(a as int, n as int);
    assert(trim_start(s@) == t) by {
        if a < n {
            assert(t[0] == chars@[a as int]);
        }
    }
    let mut b: usize = n;
    while b > a && char_is_whitespace(chars[b - 1])
        invariant
            a <= b <= n,
            n == chars@.len(),
            chars@ == s@,
            trim_end(t) == trim_end(s@.subrange(a as int, b as int)),
        decreases b,
    {
        proof {
            let u = s@.subrange(a as int, b as int);
            assert(u.last() == chars@[b - 1]);
            assert(u.drop_last() =~= s@.subrange(a as int, b - 1));
        }
        b = b - 1;
    }
    proof {
        let u = s@.subrange(a as int, b as int);
        if b > a {
            assert(u.last() == chars@[b - 1]);
        }
        assert(trim_end(u) == u);
    }
    s.substring_char(a, b)
}

/// The lines of `s`, as `lines_of` gives them.
pub fn lines(s: &str) -> (r: Vec<String>)
    ensures
        r.deep_view() == lines_of(s@),
{
    let chars = chars_of(s);
    let n: usize = chars.len();
    let mut out: Vec<String> = Vec::new();
    let mut start: usize = 0;
    proof {
        assert(s@.skip(0) =~= s@);
        assert(out.deep_view() =~= Seq::<Seq<char>>::empty());
        assert(Seq::<Seq<char>>::empty() + lines_of(s@) =~= lines_of(s@));
    }
    while start < n
        invariant
            0 <= start <= n,
            n == chars@.len(),
            chars@ == s@,
            out.deep_view() + lines_of(s@.skip(start as int)) == lines_of(s@),
        decreases n - start,
    {
        let ghost t = s@.skip(start as int);
        let ghost before = out.deep_view();
        let mut k: usize = start;
        while k < n && chars[k] != '\n'
            invariant
                start <= k <= n,
                n == chars@.len(),
                forall|j: int| start <= j < k ==> chars@[j] != '\n',
            decreases n - k,
        {
            k = k + 1;
        }
        proof {
            assert forall|j: int| 0 <= j < k - start implies t[j] != '\n' by {
                assert(t[j] == chars@[start + j]);
            }
            if k < n {
                assert(t[k - start] == chars@[k as int]);
            }
            lemma_first_newline(t, k - start);
        }
        if k == n {
            let line = String::from_str(s.substring_char(start, n));
            proof {
                assert(line@ =~= t);
                assert(lines_of(s@.skip(n as int)) =~= Seq::<Seq<char>>::empty());
            }
            out.push(line);
            start = n;
            proof {
                assert(out.deep_view() =~= before.push(t));
            }
        } else {
            let mut e: usize = k;
            if e > start && chars[e - 1] == '\r' {
                e = e - 1;
            }
            let line = String::from_str(s.substring_char(start, e));
            proof {
                let head = t.take(k - start);
                assert(head =~= s@.subrange(start as int, k as int));
                if k > start {
                    assert(head.last() == chars@[k - 1]);
                }
                assert(line@ =~= strip_cr(head));
                assert(t.skip(k - start + 1) =~= s@.skip(k + 1));
            }
            out.push(line);
            start = k + 1;
            proof {
                assert(out.deep_view() =~= before.push(line@));
                assert(before.push(line@) + lines_of(s@.skip(start as int)) =~= before + lines_of(
                    t,
                ));
            }
        }
    }
    proof {
        assert(lines_of(s@.skip(n as int)) =~= Seq::<Seq<char>>::empty());
        assert(out.deep_view() + Seq::<Seq<char>>::empty() =~= out.deep_view());
    }
    out
}

} // verus!
