//! The course of a run: where it is before and after each reply, what it does and what it says.
use vstd::prelude::*;

use crate::action;
use crate::notice;
use crate::session;
use crate::session_laws;

verus! {

/// Where a run is before each of the replies and after the last.
pub open spec fn path(
    args: Seq<Seq<char>>,
    replies: Seq<action::ReplyView>,
) -> Seq<session::SessionView> {
    Seq::new(replies.len() + 1, |k: int| session_laws::ran(args, replies.take(k)))
}

/// What is done on a path, up to its last place.
pub open spec fn did(states: Seq<session::SessionView>) -> Seq<action::ActionView> {
    states.drop_last().map_values(|s: session::SessionView| s.action())
}

/// All that is said on a path along these replies, in order.
pub open spec fn said(
    states: Seq<session::SessionView>,
    replies: Seq<action::ReplyView>,
) -> Seq<notice::NoticeView>
    decreases replies.len(),
{
    if replies.len() == 0 {
        Seq::empty()
    } else {
        said(states, replies.drop_last()) + states[replies.len() - 1].step(replies.last()).1
    }
}

/// Where a run goes from `s`.
#[verifier::opaque]
pub open spec fn after(s: session::SessionView, reply: action::ReplyView) -> session::SessionView {
    s.step(reply).0
}

/// What a run says as it goes on from `s`.
#[verifier::opaque]
pub open spec fn remarks(
    s: session::SessionView,
    reply: action::ReplyView,
) -> Seq<notice::NoticeView> {
    s.step(reply).1
}

/// The replies lead from each of the states to the one after it.
#[verifier::opaque]
pub open spec fn leads(states: Seq<session::SessionView>, replies: Seq<action::ReplyView>) -> bool {
    &&& states.len() == replies.len() + 1
    &&& forall|k: int|
        0 <= k < replies.len() ==> #[trigger] states[k + 1] == after(states[k], replies[k])
}

/// The path of a run is one that the replies lead along, from the start to where it then is.
pub proof fn lemma_path(args: Seq<Seq<char>>, replies: Seq<action::ReplyView>)
    ensures
        leads(path(args, replies), replies),
        path(args, replies)[0] == session::opened(args),
        path(args, replies).last() == session_laws::ran(args, replies),
{
    reveal(leads);
    let states = path(args, replies);
    assert(replies.take(0) =~= Seq::empty());
    assert(replies.take(replies.len() as int) =~= replies);
    assert forall|k: int| 0 <= k < replies.len() implies #[trigger] states[k + 1]
        == after(states[k], replies[k]) by {
        reveal(after);
        assert(replies.take(k + 1).drop_last() =~= replies.take(k));
        assert(replies.take(k + 1).last() == replies[k]);
    }
}

/// Each reply takes a run one step further.
pub proof fn lemma_step(states: Seq<session::SessionView>, replies: Seq<action::ReplyView>, k: int)
    requires
        leads(states, replies),
    ensures
        states.len() == replies.len() + 1,
        0 <= k < replies.len() ==> states[k + 1] == after(states[k], replies[k]),
{
    reveal(leads);
}

/// A run that is over after some of the replies is over in the same way after all of them.
pub proof fn lemma_over(states: Seq<session::SessionView>, replies: Seq<action::ReplyView>, k: int)
    requires
        leads(states, replies),
        0 <= k <= replies.len(),
        states[k] is Finished,
    ensures
        states.last() == states[k],
    decreases replies.len() - k,
{
    lemma_step(states, replies, k);
    if k < replies.len() {
        reveal(after);
        lemma_over(states, replies, k + 1);
    }
}

/// Each reply adds what the run says on it.
pub proof fn lemma_said(
    states: Seq<session::SessionView>,
    replies: Seq<action::ReplyView>,
    k: int,
)
    requires
        0 <= k < replies.len(),
    ensures
        said(states, replies.take(k + 1)) == said(states, replies.take(k)) + remarks(
            states[k],
            replies[k],
        ),
{
    reveal(remarks);
    assert(replies.take(k + 1).drop_last() =~= replies.take(k));
    assert(replies.take(k + 1).last() == replies[k]);
}

/// A run that is over says nothing more.
pub proof fn lemma_silent(
    states: Seq<session::SessionView>,
    replies: Seq<action::ReplyView>,
    k: int,
)
    requires
        leads(states, replies),
        0 <= k <= replies.len(),
        states[k] is Finished,
    ensures
        said(states, replies) == said(states, replies.take(k)),
    decreases replies.len() - k,
{
    lemma_step(states, replies, k);
    if k < replies.len() {
        lemma_said(states, replies, k);
        assert(states[k + 1] is Finished && remarks(states[k], replies[k]).len() == 0) by {
            reveal(after);
            reveal(remarks);
        }
        lemma_silent(states, replies, k + 1);
        assert(said(states, replies.take(k + 1)) =~= said(states, replies.take(k)));
    } else {
        assert(replies.take(k) =~= replies);
    }
}

} // verus!
