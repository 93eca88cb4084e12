//! Line preparation and whitespace tokenization.
use vstd::prelude::*;

verus! {

/// Unicode `White_Space` characters, the set that `char::is_whitespace` accepts.
pub open spec fn is_white(c: char) -> bool {
    let u = c as u32;
    (0x09 <= u && u <= 0x0d) || u == 0x20 || u == 0x85 || u == 0xa0 || u == 0x1680
        || (0x2000 <= u && u <= 0x200a) || u == 0x2028 || u == 0x2029 || u == 0x202f
        || u == 0x205f || u == 0x3000
}

/// The line with leading white space removed.
pub open spec fn trim_start(s: Seq<char>) -> Seq<char>
    decreases s.len(),
{
    if s.len() > 0 && is_white(s[0]) {
        trim_start(s.drop_first())
    } else {
        s
    }
}

/// The line with trailing white space removed.
pub open spec fn trim_end(s: Seq<char>) -> Seq<char>
    decreases s.len(),
{
    if s.len() > 0 && is_white(s.last()) {
        trim_end(s.drop_last())
    } else {
        s
    }
}

/// The line with white space removed at both ends.
pub open spec fn trimmed(s: Seq<char>) -> Seq<char> {
    trim_end(trim_start(s))
}

/// Tokens of `s` when the token under construction is `cur`: runs of
/// characters other than the space character, in order, empty runs dropped.
pub open spec fn tokens_from(s: Seq<char>, cur: Seq<char>) -> Seq<Seq<char>>
    decreases s.len(),
{
    if s.len() == 0 {
        if cur.len() == 0 {
            seq![]
        } else {
            seq![cur]
        }
    } else if s[0] == ' ' {
        if cur.len() == 0 {
            tokens_from(s.drop_first(), cur)
        } else {
            seq![cur] + tokens_from(s.drop_first(), Seq::empty())
        }
    } else {
        tokens_from(s.drop_first(), cur.push(s[0]))
    }
}

/// The space-separated tokens of a line.
pub open spec fn tokens(s: Seq<char>) -> Seq<Seq<char>> {
    tokens_from(s, Seq::empty())
}

/// A run of `k` space characters.
pub open spec fn spaces(k: nat) -> Seq<char> {
    Seq::new(k, |i: int| ' ')
}

/// The views of a vector of strings.
pub open spec fn views(v: Seq<String>) -> Seq<Seq<char>> {
    v.map_values(|t: String| t@)
}

/// Whether `c` is white space; the same set as `char::is_whitespace`.
pub fn is_white_char(c: char) -> (r: bool)
    ensures
        r == is_white(c),
{
    let u = c as u32;
    (0x09 <= u && u <= 0x0d) || u == 0x20 || u == 0x85 || u == 0xa0 || u == 0x1680
        || (0x2000 <= u && u <= 0x200a) || u == 0x2028 || u == 0x2029 || u == 0x202f
        || u == 0x205f || u == 0x3000
}

/// Removes white space at both ends of a line.
pub fn trim_line(line: &str) -> (r: String)
    ensures
        r@ == trimmed(line@),
{
    let n = line.unicode_len();
    let mut i: usize = 0;
    assert(line@.subrange(0, n as int) =~= line@);
    while i < n && is_white_char(line.get_char(i))
        invariant
            i <= n,
            n == line@.len(),
            trim_start(line@.subrange(i as int, n as int)) == trim_start(line@),
        decreases n - i,
    {
        assert(line@.subrange(i as int, n as int).drop_first() =~= line@.subrange(
            i + 1,
            n as int,
        ));
        i = i + 1;
    }
    assert(trim_start(line@.subrange(i as int, n as int)) == line@.subrange(i as int, n as int));
    let mut j: usize = n;
    while j > i && is_white_char(line.get_char(j - 1))
        invariant
            i <= j <= n,
            n == line@.len(),
            trim_start(line@) == line@.subrange(i as int, n as int),
            trim_end(line@.subrange(i as int, j as int)) == trimmed(line@),
        decreases j - i,
    {
        assert(line@.subrange(i as int, j as int).drop_last() =~= line@.subrange(
            i as int,
            j - 1,
        ));
        j = j - 1;
    }
    String::from_str(line.substring_char(i, j))
}

/// Splits a line into its space-separated tokens, dropping empty ones.
pub fn split_tokens(line: &str) -> (r: Vec<String>)
    ensures
        views(r@) == tokens(line@),
{
    let n = line.unicode_len();
    let mut out: Vec<String> = Vec::new();
    let mut start: usize = 0;
    let mut i: usize = 0;
    assert(line@.subrange(0, n as int) =~= line@);
    assert(views(out@) + tokens(line@) =~= tokens(line@));
    assert(line@.subrange(0, 0) =~= Seq::<char>::empty());
    while i < n
        invariant
            start <= i <= n,
            n == line@.len(),
            views(out@) + tokens_from(
                line@.subrange(i as int, n as int),
                line@.subrange(start as int, i as int),
            ) == tokens(line@),
        decreases n - i,
    {
        let rest = Ghost(line@.subrange(i as int, n as int));
        assert(rest@.drop_first() =~= line@.subrange(i + 1, n as int));
        let c = line.get_char(i);
        if c == ' ' {
            if start < i {
                let t = String::from_str(line.substring_char(start, i));
                proof {
                    let tail = tokens_from(line@.subrange(i + 1, n as int), Seq::empty());
                    assert(views(out@.push(t)) =~= views(out@).push(t@));
                    assert(views(out@).push(t@) + tail =~= views(out@) + (seq![t@] + tail));
                    assert(line@.subrange(i + 1, i + 1) =~= Seq::<char>::empty());
                }
                out.push(t);
            } else {
                assert(line@.subrange(i + 1, i + 1) =~= line@.subrange(start as int, i as int));
            }
            start = i + 1;
        } else {
            assert(line@.subrange(start as int, i as int).push(c) =~= line@.subrange(
                start as int,
                i + 1,
            ));
        }
        i = i + 1;
    }
    if start < n {
        let t = String::from_str(line.substring_char(start, n));
        proof {
            assert(views(out@.push(t)) =~= views(out@) + seq![t@]);
        }
        out.push(t);
    } else {
        assert(views(out@) + Seq::<Seq<char>>::empty() =~= views(out@));
    }
    out
}

proof fn lemma_leading_spaces(k: nat, s: Seq<char>)
    ensures
        tokens_from(spaces(k) + s, Seq::empty()) == tokens_from(s, Seq::empty()),
    decreases k,
{
    if k > 0 {
        assert((spaces(k) + s).drop_first() =~= spaces((k - 1) as nat) + s);
        lemma_leading_spaces((k - 1) as nat, s);
    } else {
        assert(spaces(k) + s =~= s);
    }
}

proof fn lemma_trailing_spaces(s: Seq<char>, m: nat, cur: Seq<char>)
    ensures
        tokens_from(s + spaces(m), cur) == tokens_from(s, cur),
    decreases s.len(), m,
{
    if s.len() == 0 {
        assert(s + spaces(m) =~= spaces(m));
        if m > 0 {
            assert(spaces(m).drop_first() =~= s + spaces((m - 1) as nat));
            lemma_trailing_spaces(s, (m - 1) as nat, cur);
            if cur.len() > 0 {
                lemma_trailing_spaces(s, (m - 1) as nat, Seq::empty());
                assert(seq![cur] + Seq::<Seq<char>>::empty() =~= seq![cur]);
            }
        }
    } else {
        assert((s + spaces(m)).drop_first() =~= s.drop_first() + spaces(m));
        assert((s + spaces(m))[0] == s[0]);
        lemma_trailing_spaces(s.drop_first(), m, cur);
        lemma_trailing_spaces(s.drop_first(), m, Seq::empty());
        lemma_trailing_spaces(s.drop_first(), m, cur.push(s[0]));
    }
}

proof fn lemma_space_run(a: Seq<char>, b: Seq<char>, k: nat, cur: Seq<char>)
    requires
        k >= 1,
    ensures
        tokens_from(a + spaces(k) + b, cur) == tokens_from(a + seq![' '] + b, cur),
    decreases a.len(),
{
    let l = a + spaces(k) + b;
    let r = a + seq![' '] + b;
    if a.len() == 0 {
        assert(l[0] == ' ');
        assert(r[0] == ' ');
        assert(l.drop_first() =~= spaces((k - 1) as nat) + b);
        assert(r.drop_first() =~= b);
        lemma_leading_spaces((k - 1) as nat, b);
        if cur.len() == 0 {
            assert(cur =~= Seq::<char>::empty());
        }
    } else {
        assert(l[0] == a[0]);
        assert(r[0] == a[0]);
        assert(l.drop_first() =~= a.drop_first() + spaces(k) + b);
        assert(r.drop_first() =~= a.drop_first() + seq![' '] + b);
        lemma_space_run(a.drop_first(), b, k, cur);
        lemma_space_run(a.drop_first(), b, k, Seq::empty());
        lemma_space_run(a.drop_first(), b, k, cur.push(a[0]));
    }
}

/// Spaces before and after a line do not change its tokens.
pub proof fn law_surrounding_spaces(s: Seq<char>, k: nat, m: nat)
    ensures
        tokens(spaces(k) + s + spaces(m)) == tokens(s),
{
    lemma_trailing_spaces(spaces(k) + s, m, Seq::empty());
    lemma_leading_spaces(k, s);
}

/// A run of one or more spaces between two parts of a line splits it as a
/// single space does.
pub proof fn law_space_runs(a: Seq<char>, b: Seq<char>, k: nat)
    requires
        k >= 1,
    ensures
        tokens(a + spaces(k) + b) == tokens(a + seq![' '] + b),
{
    lemma_space_run(a, b, k, Seq::empty());
}

/// A line has no tokens exactly when it holds nothing but spaces.
pub proof fn law_no_tokens_iff_spaces(s: Seq<char>)
    ensures
        tokens(s).len() == 0 <==> (forall|i: int| 0 <= i < s.len() ==> s[i] == ' '),
{
    lemma_no_tokens(s, Seq::empty());
}

proof fn lemma_no_tokens(s: Seq<char>, cur: Seq<char>)
    ensures
        tokens_from(s, cur).len() == 0 <==> (cur.len() == 0 && forall|i: int|
            0 <= i < s.len() ==> s[i] == ' '),
    decreases s.len(),
{
    if s.len() > 0 {
        lemma_no_tokens(s.drop_first(), Seq::empty());
        lemma_no_tokens(s.drop_first(), cur);
        lemma_no_tokens(s.drop_first(), cur.push(s[0]));
        if (forall|i: int| 0 <= i < s.drop_first().len() ==> s.drop_first()[i] == ' ') && s[0] == ' ' {
            assert forall|i: int| 0 <= i < s.len() implies s[i] == ' ' by {
                if i > 0 {
                    assert(s[i] == s.drop_first()[i - 1]);
                }
            }
        }
        if forall|i: int| 0 <= i < s.len() ==> s[i] == ' ' {
            assert(s[0] == ' ');
            assert forall|i: int| 0 <= i < s.drop_first().len() implies s.drop_first()[i] == ' ' by {
                assert(s.drop_first()[i] == s[i + 1]);
            }
        }
    }
}

} // verus!
