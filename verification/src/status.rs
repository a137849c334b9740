//! Lifecycle status of one instance, and the rules for moving between
//! statuses. Statuses move strictly forward: an instance never re-enters
//! `Starting` or `Running` once it has gone past them, and a restart makes
//! a brand-new instance rather than resurrecting the old one.

use vstd::prelude::*;

use crate::text::ascii_view;
use crate::text::ascii_to_string;

verus! {

#[derive(Debug, Clone, Copy, PartialEq, Eq, Structural)]
pub enum InstanceStatus {
    Starting,
    Running,
    Quit,
}

/// Position of a status on the one-way lifecycle path.
pub open spec fn status_rank(s: InstanceStatus) -> int {
    match s {
        InstanceStatus::Starting => 0,
        InstanceStatus::Running => 1,
        InstanceStatus::Quit => 2,
    }
}

/// A transition is allowed exactly when it moves forward on the path:
/// `Starting -> Running`, `Starting -> Quit`, and `Running -> Quit`.
pub open spec fn step_allowed(from: InstanceStatus, to: InstanceStatus) -> bool {
    status_rank(from) < status_rank(to)
}

/// A refused transition, reported rather than silently overwritten.
#[derive(Debug, Clone, Copy, PartialEq, Eq, Structural)]
pub struct TransitionRefused {
    pub from: InstanceStatus,
    pub to: InstanceStatus,
}

/// Applies one status transition, rejecting any move that does not go
/// strictly forward (so `Running -> Running` and `Quit -> *` are refused).
pub fn advance_status(from: InstanceStatus, to: InstanceStatus) -> (r: Result<
    InstanceStatus,
    TransitionRefused,
>)
    ensures
        step_allowed(from, to) ==> r == Ok::<InstanceStatus, TransitionRefused>(to),
        !step_allowed(from, to) ==> r == Err::<InstanceStatus, TransitionRefused>(
            TransitionRefused { from, to },
        ),
{
    let fr = match from {
        InstanceStatus::Starting => 0u8,
        InstanceStatus::Running => 1u8,
        InstanceStatus::Quit => 2u8,
    };
    let tr = match to {
        InstanceStatus::Starting => 0u8,
        InstanceStatus::Running => 1u8,
        InstanceStatus::Quit => 2u8,
    };
    if fr < tr {
        Ok(to)
    } else {
        Err(TransitionRefused { from, to })
    }
}

/// A status history as observed on the status channel: it opens with
/// `Starting` and every consecutive pair is an allowed transition.
pub open spec fn valid_history(h: Seq<InstanceStatus>) -> bool {
    &&& h.len() > 0
    &&& h[0] == InstanceStatus::Starting
    &&& forall|i: int| 0 <= i < h.len() - 1 ==> step_allowed(#[trigger] h[i], h[i + 1])
}

proof fn lemma_rank_lower_bound(h: Seq<InstanceStatus>, i: int)
    requires
        valid_history(h),
        0 <= i < h.len(),
    ensures
        status_rank(h[i]) >= i,
    decreases i,
{
    if i > 0 {
        lemma_rank_lower_bound(h, i - 1);
    }
}

/// Every observable status history is exactly one of
/// `Starting -> Running -> Quit` or `Starting -> Quit` or a prefix of one
/// of them: statuses never repeat and never move backwards.
pub proof fn lemma_status_histories(h: Seq<InstanceStatus>)
    requires
        valid_history(h),
    ensures
        h.len() <= 3,
        forall|i: int, j: int| 0 <= i < j < h.len() ==> h[i] != h[j],
        h.len() == 3 ==> h =~= seq![
            InstanceStatus::Starting,
            InstanceStatus::Running,
            InstanceStatus::Quit,
        ],
        h.len() == 2 ==> (h =~= seq![InstanceStatus::Starting, InstanceStatus::Running] || h
            =~= seq![InstanceStatus::Starting, InstanceStatus::Quit]),
{
    assert forall|i: int| 0 <= i < h.len() implies status_rank(h[i]) >= i by {
        lemma_rank_lower_bound(h, i);
    }
    if h.len() > 3 {
        assert(status_rank(h[3]) >= 3);
        assert(false);
    }
    assert forall|i: int, j: int| 0 <= i < j < h.len() implies h[i] != h[j] by {
        lemma_rank_strict(h, i, j);
    }
    if h.len() == 3 {
        assert(status_rank(h[1]) >= 1 && status_rank(h[1]) < status_rank(h[2]) <= 2);
        assert(h[1] == InstanceStatus::Running);
        assert(status_rank(h[2]) == 2);
        assert(h[2] == InstanceStatus::Quit);
    }
}

proof fn lemma_rank_strict(h: Seq<InstanceStatus>, i: int, j: int)
    requires
        valid_history(h),
        0 <= i < j < h.len(),
    ensures
        status_rank(h[i]) < status_rank(h[j]),
    decreases j - i,
{
    if j > i + 1 {
        lemma_rank_strict(h, i, j - 1);
    }
}

/// `Quit` is terminal and `Starting` is initial: nothing moves out of
/// `Quit`, and nothing moves back into `Starting`.
pub proof fn lemma_quit_terminal(s: InstanceStatus)
    ensures
        !step_allowed(InstanceStatus::Quit, s),
        !step_allowed(s, InstanceStatus::Starting),
{
}

/// External label of a status, as stored in the registry:
/// `"starting"`, `"running"` or `"quit"`.
pub open spec fn status_seq(s: InstanceStatus) -> Seq<u8> {
    match s {
        InstanceStatus::Starting => seq![
            0x73u8,
            0x74u8,
            0x61u8,
            0x72u8,
            0x74u8,
            0x69u8,
            0x6eu8,
            0x67u8,
        ],
        InstanceStatus::Running => seq![0x72u8, 0x75u8, 0x6eu8, 0x6eu8, 0x69u8, 0x6eu8, 0x67u8],
        InstanceStatus::Quit => seq![0x71u8, 0x75u8, 0x69u8, 0x74u8],
    }
}

pub fn status_bytes(s: InstanceStatus) -> (r: Vec<u8>)
    ensures
        r@ == status_seq(s),
{
    let mut v: Vec<u8> = Vec::new();
    match s {
        InstanceStatus::Starting => {
            v.push(0x73);
            v.push(0x74);
            v.push(0x61);
            v.push(0x72);
            v.push(0x74);
            v.push(0x69);
            v.push(0x6e);
            v.push(0x67);
        },
        InstanceStatus::Running => {
            v.push(0x72);
            v.push(0x75);
            v.push(0x6e);
            v.push(0x6e);
            v.push(0x69);
            v.push(0x6e);
            v.push(0x67);
        },
        InstanceStatus::Quit => {
            v.push(0x71);
            v.push(0x75);
            v.push(0x69);
            v.push(0x74);
        },
    }
    proof {
        assert(v@ =~= status_seq(s));
    }
    v
}

pub proof fn lemma_status_seq_ascii(s: InstanceStatus)
    ensures
        forall|i: int| 0 <= i < status_seq(s).len() ==> #[trigger] status_seq(s)[i] < 0x80,
{
}

/// The label as a `String`, in place of a `Display` rendering.
pub fn status_label(s: InstanceStatus) -> (r: String)
    ensures
        r@ == ascii_view(status_seq(s)),
{
    proof {
        lemma_status_seq_ascii(s);
    }
    ascii_to_string(status_bytes(s))
}

/// Distinct statuses have distinct labels, so the stored label identifies
/// the status it was rendered from.
pub proof fn lemma_status_seq_injective(a: InstanceStatus, b: InstanceStatus)
    ensures
        status_seq(a) == status_seq(b) ==> a == b,
{
    if a != b && status_seq(a).len() == status_seq(b).len() {
        assert(status_seq(a)[0] != status_seq(b)[0]);
    }
}

/// Parses a status label back into a status: the inverse of the label
/// rendering, and `None` on every other byte string.
pub fn parse_status(s: &[u8]) -> (r: Option<InstanceStatus>)
    ensures
        match r {
            Some(st) => s@ == status_seq(st),
            None => forall|st: InstanceStatus| s@ != status_seq(st),
        },
{
    let starting = status_bytes(InstanceStatus::Starting);
    let running = status_bytes(InstanceStatus::Running);
    let quit = status_bytes(InstanceStatus::Quit);
    if s.len() == starting.len() && crate::text::starts_with_at(s, 0, &starting) {
        proof {
            assert(s@.skip(0).take(starting@.len() as int) =~= s@);
        }
        Some(InstanceStatus::Starting)
    } else if s.len() == running.len() && crate::text::starts_with_at(s, 0, &running) {
        proof {
            assert(s@.skip(0).take(running@.len() as int) =~= s@);
        }
        Some(InstanceStatus::Running)
    } else if s.len() == quit.len() && crate::text::starts_with_at(s, 0, &quit) {
        proof {
            assert(s@.skip(0).take(quit@.len() as int) =~= s@);
        }
        Some(InstanceStatus::Quit)
    } else {
        proof {
            assert forall|st: InstanceStatus| s@ != status_seq(st) by {
                if s@.len() == status_seq(st).len() {
                    assert(s@.skip(0).take(status_seq(st).len() as int) =~= s@);
                }
            }
        }
        None
    }
}

} // verus!

