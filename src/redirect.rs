//! Redirection operators in an argument vector.
use vstd::prelude::*;
use crate::text::views;

verus! {

/// A redirection operator.
#[derive(Debug, Clone, Copy, PartialEq, Eq, Structural)]
pub enum RedirectOp {
    /// `>`: write to the target, creating it if absent.
    Write,
    /// `>>`: append to the target, creating it if absent.
    Append,
    /// `<`: read standard input from the target.
    Read,
    /// `<<`: recognized and stripped, with no effect.
    Heredoc,
}

/// The first redirection of a command: its operator and the token after it,
/// if the operator is not the last token.
#[derive(Debug)]
pub struct Redirection {
    pub op: RedirectOp,
    pub target: Option<String>,
}

/// The view of an optional string.
pub open spec fn opt_view(o: Option<String>) -> Option<Seq<char>> {
    match o {
        Some(s) => Some(s@),
        None => None,
    }
}

impl Redirection {
    pub open spec fn model(&self) -> (RedirectOp, Option<Seq<char>>) {
        (self.op, opt_view(self.target))
    }
}

/// The view of an optional redirection.
pub open spec fn redirection_view(r: Option<Redirection>) -> Option<(RedirectOp, Option<Seq<char>>)> {
    match r {
        Some(x) => Some(x.model()),
        None => None,
    }
}

/// The operator that a token spells, if any.
pub open spec fn op_of(t: Seq<char>) -> Option<RedirectOp> {
    if t == seq!['>'] {
        Some(RedirectOp::Write)
    } else if t == seq!['>', '>'] {
        Some(RedirectOp::Append)
    } else if t == seq!['<'] {
        Some(RedirectOp::Read)
    } else if t == seq!['<', '<'] {
        Some(RedirectOp::Heredoc)
    } else {
        None
    }
}

/// Whether a token is a redirection operator.
pub open spec fn is_op(t: Seq<char>) -> bool {
    op_of(t) is Some
}

/// The index of the first operator at or after `i`, or the length if none.
pub open spec fn first_op_from(args: Seq<Seq<char>>, i: int) -> int
    decreases args.len() - i,
{
    if i < 0 || i >= args.len() {
        args.len() as int
    } else if is_op(args[i]) {
        i
    } else {
        first_op_from(args, i + 1)
    }
}

/// The index of the first operator, or the length if none.
pub open spec fn first_op(args: Seq<Seq<char>>) -> int {
    first_op_from(args, 0)
}

/// The arguments left for the program: everything before the first operator.
pub open spec fn program_args(args: Seq<Seq<char>>) -> Seq<Seq<char>> {
    args.subrange(0, first_op(args))
}

/// The first redirection of an argument vector, if it has an operator.
pub open spec fn redirection_of(args: Seq<Seq<char>>) -> Option<(RedirectOp, Option<Seq<char>>)> {
    let k = first_op(args);
    if k < args.len() {
        Some(
            (
                op_of(args[k])->Some_0,
                if k + 1 < args.len() {
                    Some(args[k + 1])
                } else {
                    None
                },
            ),
        )
    } else {
        None
    }
}

/// Where the first operator stands: no operator comes before it.
pub proof fn lemma_first_op(args: Seq<Seq<char>>)
    ensures
        0 <= first_op(args) <= args.len(),
        first_op(args) < args.len() ==> is_op(args[first_op(args)]),
        forall|j: int| 0 <= j < first_op(args) ==> !is_op(#[trigger] args[j]),
{
    lemma_first_op_from(args, 0);
}

proof fn lemma_first_op_from(args: Seq<Seq<char>>, i: int)
    requires
        0 <= i <= args.len(),
    ensures
        i <= first_op_from(args, i) <= args.len(),
        first_op_from(args, i) < args.len() ==> is_op(args[first_op_from(args, i)]),
        forall|j: int| i <= j < first_op_from(args, i) ==> !is_op(#[trigger] args[j]),
    decreases args.len() - i,
{
    if i < args.len() && !is_op(args[i]) {
        lemma_first_op_from(args, i + 1);
    }
}

/// The operator that a token spells, if any.
pub fn redirect_op(t: &str) -> (r: Option<RedirectOp>)
    ensures
        r == op_of(t@),
{
    let n = t.unicode_len();
    if n == 0 || n > 2 {
        proof {
            assert(t@.len() != seq!['>'].len() && t@.len() != seq!['>', '>'].len());
        }
        return None;
    }
    let a = t.get_char(0);
    if n == 1 {
        if a == '>' {
            assert(t@ =~= seq!['>']);
            Some(RedirectOp::Write)
        } else if a == '<' {
            assert(t@ =~= seq!['<']);
            Some(RedirectOp::Read)
        } else {
            assert(t@ != seq!['>'] && t@ != seq!['<']);
            None
        }
    } else {
        let b = t.get_char(1);
        if a == '>' && b == '>' {
            assert(t@ =~= seq!['>', '>']);
            Some(RedirectOp::Append)
        } else if a == '<' && b == '<' {
            assert(t@ =~= seq!['<', '<']);
            Some(RedirectOp::Heredoc)
        } else {
            assert(t@[0] != seq!['>', '>'][0] || t@[1] != seq!['>', '>'][1]);
            assert(t@[0] != seq!['<', '<'][0] || t@[1] != seq!['<', '<'][1]);
            None
        }
    }
}

/// Takes the first redirection out of an argument vector: the operator and
/// everything after it are removed, and the operator with the token that
/// followed it is returned.
pub fn redirect_cmd(args: &mut Vec<String>) -> (r: Option<Redirection>)
    ensures
        views(final(args)@) == program_args(views(old(args)@)),
        redirection_view(r) == redirection_of(views(old(args)@)),
{
    let ghost all = views(args@);
    proof {
        lemma_first_op_from(all, 0);
    }
    let n = args.len();
    let mut i: usize = 0;
    while i < n
        invariant
            n == args@.len(),
            all == views(args@),
            all == views(old(args)@),
            0 <= i <= first_op(all),
            first_op(all) <= n,
            forall|j: int| 0 <= j < first_op(all) ==> !is_op(#[trigger] all[j]),
            first_op(all) < n ==> is_op(all[first_op(all)]),
        decreases n - i,
    {
        let op = redirect_op(args[i].as_str());
        match op {
            Some(o) => {
                assert(all[i as int] == args@[i as int]@);
                assert(i == first_op(all));
                let target = if i + 1 < n {
                    assert(all[i + 1] == args@[i + 1]@);
                    Some(args[i + 1].clone())
                } else {
                    None
                };
                args.truncate(i);
                assert(views(args@) =~= all.subrange(0, i as int));
                return Some(Redirection { op: o, target });
            },
            None => {
                assert(all[i as int] == args@[i as int]@);
                i = i + 1;
            },
        }
    }
    assert(all.subrange(0, n as int) =~= all);
    None
}

} // verus!
