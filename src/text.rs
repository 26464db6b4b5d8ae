//! Unsigned decimal numbers in text.

use vstd::prelude::*;

verus! {

/// An ASCII decimal digit.
pub open spec fn is_digit(c: char) -> bool {
    '0' <= c && c <= '9'
}

pub open spec fn all_digits(s: Seq<char>) -> bool {
    forall|i: int| 0 <= i < s.len() ==> is_digit(#[trigger] s[i])
}

/// The value of a sequence of decimal digits, most significant first.
pub open spec fn digits_value(s: Seq<char>) -> int
    decreases s.len(),
{
    if s.len() == 0 {
        0
    } else {
        10 * digits_value(s.drop_last()) + (s.last() as int - '0' as int)
    }
}

/// The digit character for `d < 10`.
pub open spec fn digit_char(d: nat) -> char {
    (d + '0' as nat) as char
}

/// The shortest decimal text of `n`.
pub open spec fn decimal(n: nat) -> Seq<char>
    decreases n,
{
    if n < 10 {
        seq![digit_char(n)]
    } else {
        decimal(n / 10).push(digit_char(n % 10))
    }
}

/// The one-character text of the digit `d < 10`.
fn digit_str(d: u32) -> (r: &'static str)
    requires
        d < 10,
    ensures
        r@ == seq![digit_char(d as nat)],
{
    proof {
        reveal_strlit("0");
        reveal_strlit("1");
        reveal_strlit("2");
        reveal_strlit("3");
        reveal_strlit("4");
        reveal_strlit("5");
        reveal_strlit("6");
        reveal_strlit("7");
        reveal_strlit("8");
        reveal_strlit("9");
    }
    let r = match d {
        0 => "0",
        1 => "1",
        2 => "2",
        3 => "3",
        4 => "4",
        5 => "5",
        6 => "6",
        7 => "7",
        8 => "8",
        _ => "9",
    };
    assert(r@ =~= seq![digit_char(d as nat)]);
    r
}

/// Writes the decimal text of `n` at the end of `t`.
pub fn append_decimal(t: &mut String, n: u32)
    ensures
        final(t)@ == old(t)@ + decimal(n as nat),
    decreases n,
{
    if n >= 10 {
        append_decimal(t, n / 10);
    }
    t.append(digit_str(n % 10));
    assert(t@ =~= old(t)@ + decimal(n as nat));
}

/// The digits of an unsigned number, after an optional leading `+` that
/// is not the whole text.
pub open spec fn unsigned_digits(s: Seq<char>) -> Seq<char> {
    if s.len() > 1 && s[0] == '+' {
        s.drop_first()
    } else {
        s
    }
}

/// The `u32` that `s` denotes: an optional `+`, then one or more decimal
/// digits whose value fits in 32 bits.
pub open spec fn parse_u32(s: Seq<char>) -> Option<u32> {
    let d = unsigned_digits(s);
    if d.len() > 0 && all_digits(d) && digits_value(d) <= u32::MAX as int {
        Some(digits_value(d) as u32)
    } else {
        None
    }
}

/// An ASCII character read as a byte keeps its value.
pub proof fn lemma_ascii_byte(c: char)
    requires
        c <= '\u{7f}',
    ensures
        (c as u8) as int == c as int,
{
}

proof fn lemma_digit_char(d: nat)
    requires
        d < 10,
    ensures
        is_digit(digit_char(d)),
        digit_char(d) as int - '0' as int == d,
{
}

/// The decimal text of `n` is a non-empty run of digits worth `n`.
pub proof fn lemma_decimal(n: nat)
    ensures
        decimal(n).len() > 0,
        all_digits(decimal(n)),
        digits_value(decimal(n)) == n,
    decreases n,
{
    if n < 10 {
        lemma_digit_char(n);
        assert(decimal(n).drop_last() =~= Seq::<char>::empty());
        assert(digits_value(Seq::<char>::empty()) == 0);
    } else {
        lemma_decimal(n / 10);
        lemma_digit_char(n % 10);
        let d = decimal(n / 10);
        assert(decimal(n).drop_last() =~= d);
        assert(decimal(n).last() == digit_char(n % 10));
        assert(n == 10 * (n / 10) + n % 10);
        assert forall|i: int| 0 <= i < decimal(n).len() implies is_digit(#[trigger] decimal(n)[i]) by {
            if i < d.len() {
                assert(is_digit(d[i]));
            }
        }
    }
}

/// The decimal text of a `u32` parses back to it.
pub proof fn lemma_parse_decimal(n: u32)
    ensures
        parse_u32(decimal(n as nat)) == Some(n),
{
    lemma_decimal(n as nat);
    let d = decimal(n as nat);
    assert(is_digit(d[0]));
    assert(unsigned_digits(d) == d);
}

proof fn lemma_digits_value_nonneg(s: Seq<char>)
    requires
        all_digits(s),
    ensures
        digits_value(s) >= 0,
    decreases s.len(),
{
    if s.len() > 0 {
        lemma_digits_value_nonneg(s.drop_last());
        assert(is_digit(s[s.len() - 1]));
    }
}

/// A prefix of a run of digits is worth no more than the whole run.
proof fn lemma_digits_value_prefix(s: Seq<char>, k: int)
    requires
        all_digits(s),
        0 <= k <= s.len(),
    ensures
        digits_value(s.subrange(0, k)) <= digits_value(s),
    decreases s.len() - k,
{
    if k < s.len() {
        lemma_digits_value_prefix(s, k + 1);
        let p = s.subrange(0, k + 1);
        assert(p.drop_last() =~= s.subrange(0, k));
        assert(is_digit(s[k]));
        lemma_digits_value_nonneg(s.subrange(0, k));
    } else {
        assert(s.subrange(0, k) =~= s);
    }
}

/// A text that holds, anywhere, a character that is neither a digit nor
/// `+` is no `u32`.
pub proof fn lemma_parse_u32_stray(s: Seq<char>, i: int)
    requires
        0 <= i < s.len(),
        !is_digit(s[i]),
        s[i] != '+',
    ensures
        parse_u32(s) is None,
{
    let d = unsigned_digits(s);
    if d != s {
        assert(d[i - 1] == s[i]);
    } else {
        assert(d[i] == s[i]);
    }
}

/// The `u32` written in the characters `start..end` of an ASCII text
/// whose bytes are `b`.
pub(crate) fn parse_u32_ascii(b: &[u8], start: usize, end: usize, Ghost(s): Ghost<Seq<char>>) -> (r:
    Option<u32>)
    requires
        b@.len() == s.len(),
        forall|i: int| 0 <= i < s.len() ==> b@[i] as int == #[trigger] s[i] as int,
        start <= end <= b@.len(),
    ensures
        r == parse_u32(s.subrange(start as int, end as int)),
{
    let ghost t = s.subrange(start as int, end as int);
    let mut i: usize = start;
    if end > start {
        assert(t[0] == s[start as int]);
    }
    if end - start > 1 && b[start] == 43u8 {
        i = start + 1;
    }
    let ghost d = s.subrange(i as int, end as int);
    assert(d =~= unsigned_digits(t));
    if i == end {
        return None;
    }
    let mut acc: u64 = 0;
    let mut j: usize = i;
    while j < end
        invariant
            i <= j <= end <= b@.len(),
            b@.len() == s.len(),
            forall|k: int| 0 <= k < s.len() ==> b@[k] as int == #[trigger] s[k] as int,
            t == s.subrange(start as int, end as int),
            d == s.subrange(i as int, end as int),
            d =~= unsigned_digits(t),
            d.len() > 0,
            all_digits(d.subrange(0, j - i)),
            acc as int == digits_value(d.subrange(0, j - i)),
            acc <= u32::MAX,
        decreases end - j,
    {
        let c = b[j];
        let ghost ch = s[j as int];
        assert(d[j - i] == ch);
        if c < 48u8 || c > 57u8 {
            assert(!is_digit(d[j - i]));
            return None;
        }
        assert(is_digit(ch));
        let ghost p = d.subrange(0, j - i + 1);
        assert(p.drop_last() =~= d.subrange(0, j - i));
        assert(p.last() == ch);
        acc = acc * 10 + (c - 48u8) as u64;
        assert(acc as int == digits_value(p));
        assert(all_digits(p));
        j = j + 1;
        if acc > 4294967295u64 {
            proof {
                if all_digits(d) {
                    lemma_digits_value_prefix(d, j - i);
                }
            }
            return None;
        }
    }
    assert(d.subrange(0, j - i) =~= d);
    Some(acc as u32)
}

} // verus!
