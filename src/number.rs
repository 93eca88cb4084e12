//! Reading a signed 32-bit decimal integer, as `str::parse::<i32>` does.
use vstd::prelude::*;

verus! {

/// Whether `c` is an ASCII decimal digit.
pub open spec fn is_digit(c: char) -> bool {
    '0' <= c && c <= '9'
}

/// The value of a sequence of decimal digits, most significant first.
pub open spec fn digits_value(s: Seq<char>) -> int
    decreases s.len(),
{
    if s.len() == 0 {
        0
    } else {
        digits_value(s.drop_last()) * 10 + (s.last() as int - '0' as int)
    }
}

/// `s` without its leading sign character, if any.
pub open spec fn unsigned_part(s: Seq<char>) -> Seq<char> {
    if s.len() > 0 && (s[0] == '-' || s[0] == '+') {
        s.drop_first()
    } else {
        s
    }
}

/// The integer written by `s`: an optional `+` or `-` sign followed by one or
/// more decimal digits, nothing else.
pub open spec fn integer_of(s: Seq<char>) -> Option<int> {
    let neg = s.len() > 0 && s[0] == '-';
    let body = unsigned_part(s);
    if body.len() == 0 || !(forall|i: int| 0 <= i < body.len() ==> is_digit(body[i])) {
        None
    } else if neg {
        Some(-digits_value(body))
    } else {
        Some(digits_value(body))
    }
}

/// The `i32` written by `s`, if it is an integer in range.
pub open spec fn i32_of(s: Seq<char>) -> Option<i32> {
    match integer_of(s) {
        Some(v) => if i32::MIN <= v && v <= i32::MAX {
            Some(v as i32)
        } else {
            None
        },
        None => None,
    }
}

proof fn lemma_digits_nonneg(s: Seq<char>)
    requires
        forall|i: int| 0 <= i < s.len() ==> is_digit(s[i]),
    ensures
        digits_value(s) >= 0,
    decreases s.len(),
{
    if s.len() > 0 {
        lemma_digits_nonneg(s.drop_last());
    }
}

proof fn lemma_digits_grow(s: Seq<char>, j: int, k: int)
    requires
        0 <= j <= k <= s.len(),
        forall|i: int| 0 <= i < s.len() ==> is_digit(s[i]),
    ensures
        digits_value(s.subrange(0, j)) <= digits_value(s.subrange(0, k)),
    decreases k - j,
{
    if j < k {
        lemma_digits_grow(s, j, k - 1);
        assert(s.subrange(0, k).drop_last() =~= s.subrange(0, k - 1));
        lemma_digits_nonneg(s.subrange(0, k - 1));
    }
}

/// Reads `s` as a signed 32-bit integer; `None` where `s` is not one.
pub fn parse_i32(s: &str) -> (r: Option<i32>)
    ensures
        r == i32_of(s@),
{
    let n = s.unicode_len();
    let mut i: usize = 0;
    let mut neg = false;
    if n > 0 {
        let c = s.get_char(0);
        if c == '-' || c == '+' {
            neg = c == '-';
            i = 1;
        }
    }
    let first = i;
    let body = Ghost(s@.subrange(first as int, n as int));
    assert(body@ =~= unsigned_part(s@));
    if i == n {
        return None;
    }
    let limit: u64 = if neg { 0x8000_0000 } else { 0x7fff_ffff };
    let mut acc: u64 = 0;
    while i < n
        invariant
            first <= i <= n,
            n == s@.len(),
            body@ == s@.subrange(first as int, n as int),
            body@ == unsigned_part(s@),
            acc <= limit,
            limit == (if neg { 0x8000_0000u64 } else { 0x7fff_ffffu64 }),
            neg == (s@.len() > 0 && s@[0] == '-'),
            acc == digits_value(body@.subrange(0, i - first)),
            forall|m: int| 0 <= m < i - first ==> is_digit(body@[m]),
        decreases n - i,
    {
        let c = s.get_char(i);
        if c < '0' || c > '9' {
            assert(body@[i - first] == c);
            assert(!is_digit(body@[i - first]));
            return None;
        }
        let d = (c as u32 - '0' as u32) as u64;
        assert(body@.subrange(0, i + 1 - first).drop_last() =~= body@.subrange(0, i - first));
        acc = acc * 10 + d;
        i = i + 1;
        if acc > limit {
            proof {
                if forall|m: int| 0 <= m < body@.len() ==> is_digit(body@[m]) {
                    lemma_digits_grow(body@, i - first, body@.len() as int);
                    assert(body@.subrange(0, body@.len() as int) =~= body@);
                }
            }
            return None;
        }
    }
    assert(body@.subrange(0, n - first) =~= body@);
    if neg {
        Some((0 - acc as i64) as i32)
    } else {
        Some(acc as i32)
    }
}

} // verus!
