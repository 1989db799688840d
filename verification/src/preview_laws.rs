//! What holds of every dry run.
use vstd::prelude::*;

use crate::action;
use crate::course;
use crate::notice;
use crate::options;
use crate::plan;
use crate::session;
use crate::session_laws;
use crate::tags;

verus! {

/// The releases that a dry run finds to plan for, if the workspace and the repository are found
/// and there are any.
pub open spec fn found(
    o: options::OptionsView,
    replies: Seq<action::ReplyView>,
) -> Option<Seq<Seq<char>>> {
    if replies.len() >= 3 && replies[0] is Ok && replies[1] is Ok {
        match plan::targets(o, replies[2]) {
            Ok(bases) => if bases.len() > 0 {
                Some(bases)
            } else {
                None
            },
            Err(_) => None,
        }
    } else {
        None
    }
}

/// The plan for the release at `i`, if its reply lists tags that give a next hotfix.
pub open spec fn preview(
    o: options::OptionsView,
    bases: Seq<Seq<char>>,
    replies: Seq<action::ReplyView>,
    i: int,
) -> Option<plan::PlanView> {
    if 0 <= i < bases.len() && i + 3 < replies.len() {
        match replies[i + 3] {
            Ok(listing) => match tags::next_hotfix(tags::listed(listing), bases[i]) {
                Ok(next) => Some(plan::plan_for(bases[i], next, o)),
                Err(_) => None,
            },
            Err(_) => None,
        }
    } else {
        None
    }
}

/// The first `k` releases have a plan.
pub open spec fn all_previewed(
    o: options::OptionsView,
    bases: Seq<Seq<char>>,
    replies: Seq<action::ReplyView>,
    k: int,
) -> bool {
    forall|i: int| 0 <= i < k ==> #[trigger] preview(o, bases, replies, i) is Some
}

/// The plans for the first `k` releases, in order.
pub open spec fn previews(
    o: options::OptionsView,
    bases: Seq<Seq<char>>,
    replies: Seq<action::ReplyView>,
    k: int,
) -> Seq<plan::PlanView> {
    Seq::new(k as nat, |i: int| preview(o, bases, replies, i)->0)
}

/// A dry run ends with `k` plans: they are those of the first `k` releases, and either that is
/// all of them or the reply for the next one gives no plan.
pub open spec fn ends_with(
    o: options::OptionsView,
    bases: Seq<Seq<char>>,
    replies: Seq<action::ReplyView>,
    k: int,
) -> bool {
    &&& 0 <= k <= bases.len()
    &&& all_previewed(o, bases, replies, k)
    &&& k == bases.len() || (k + 3 < replies.len() && preview(o, bases, replies, k) is None)
}

/// What a dry run says in all that finds `n` releases and shows these plans.
pub open spec fn shown(n: nat, plans: Seq<plan::PlanView>) -> Seq<notice::NoticeView> {
    seq![notice::NoticeView::Opening(n as usize), notice::NoticeView::DryRun] + plans.map_values(
        |p: plan::PlanView| notice::NoticeView::Plan(p),
    )
}

/// The job of a dry run at the release `i`.
spec fn job_at(
    o: options::OptionsView,
    bases: Seq<Seq<char>>,
    replies: Seq<action::ReplyView>,
    i: int,
) -> session::JobView {
    session::JobView {
        options: o,
        base: bases[i],
        rest: bases.skip(i + 1),
        total: bases.len() as usize,
        plans: previews(o, bases, replies, i),
    }
}

/// The first steps of a dry run.
proof fn lemma_first_steps(o: options::OptionsView, reply: action::ReplyView)
    requires
        o.dry_run,
    ensures
        ({
            let locating = session::SessionView::Locating(session::RequestView::Hotfix(o));
            let checking = session::SessionView::CheckingRepo(o);
            &&& course::after(locating, reply) == if reply is Ok {
                checking
            } else {
                session::SessionView::Finished(false)
            }
            &&& course::after(checking, reply) == if reply is Ok {
                session::SessionView::Resolving(o)
            } else {
                session::SessionView::Finished(false)
            }
            &&& reply is Ok ==> course::remarks(locating, reply) == Seq::<
                notice::NoticeView,
            >::empty()
            &&& reply is Ok ==> course::remarks(checking, reply) == Seq::<
                notice::NoticeView,
            >::empty()
        }),
{
    reveal(course::after);
    reveal(course::remarks);
}

/// The step that finds the releases.
proof fn lemma_resolving(
    o: options::OptionsView,
    replies: Seq<action::ReplyView>,
    reply: action::ReplyView,
)
    ensures
        match plan::targets(o, reply) {
            Ok(bases) => if bases.len() > 0 {
                &&& course::after(session::SessionView::Resolving(o), reply)
                    == session::SessionView::Numbering(job_at(o, bases, replies, 0))
                &&& course::remarks(session::SessionView::Resolving(o), reply) == seq![
                    notice::NoticeView::Opening(bases.len() as usize),
                ]
            } else {
                course::after(session::SessionView::Resolving(o), reply)
                    == session::SessionView::Finished(false)
            },
            Err(_) => course::after(session::SessionView::Resolving(o), reply)
                == session::SessionView::Finished(false),
        },
{
    reveal(course::after);
    reveal(course::remarks);
    if let Ok(bases) = plan::targets(o, reply) {
        assert(previews(o, bases, replies, 0) =~= Seq::empty());
    }
}

/// A dry run comes to plan for its first release if it finds releases, and has then said how
/// many; otherwise it does not succeed.
proof fn lemma_opening(
    states: Seq<session::SessionView>,
    replies: Seq<action::ReplyView>,
    o: options::OptionsView,
)
    requires
        course::leads(states, replies),
        states[0] == session::SessionView::Locating(session::RequestView::Hotfix(o)),
        o.dry_run,
    ensures
        match found(o, replies) {
            Some(bases) => {
                &&& states[3] == session::SessionView::Numbering(job_at(o, bases, replies, 0))
                &&& course::said(states, replies.take(3)) == seq![
                    notice::NoticeView::Opening(bases.len() as usize),
                ]
            },
            None => states.last() != session::SessionView::Finished(true),
        },
{
    let n = replies.len();
    course::lemma_step(states, replies, 0);
    course::lemma_step(states, replies, 1);
    course::lemma_step(states, replies, 2);
    lemma_first_steps(o, replies[0]);
    lemma_first_steps(o, replies[1]);
    lemma_resolving(o, replies, replies[2]);
    if n >= 1 && states[1] is Finished {
        course::lemma_over(states, replies, 1);
    } else if n >= 2 && states[2] is Finished {
        course::lemma_over(states, replies, 2);
    } else if n >= 3 && states[3] is Finished {
        course::lemma_over(states, replies, 3);
    } else if n >= 3 {
        course::lemma_said(states, replies, 0);
        course::lemma_said(states, replies, 1);
        course::lemma_said(states, replies, 2);
        assert(course::said(states, replies.take(0)) =~= Seq::empty());
        assert(course::said(states, replies.take(3)) =~= course::remarks(states[2], replies[2]));
    }
}

/// One release of a dry run: with a plan the run goes on to the next release in silence, or
/// shows its plans; without one it shows the plans that it has, or fails.
proof fn lemma_numbering(
    o: options::OptionsView,
    bases: Seq<Seq<char>>,
    replies: Seq<action::ReplyView>,
    i: int,
)
    requires
        o.dry_run,
        0 <= i < bases.len(),
        i + 3 < replies.len(),
    ensures
        ({
            let s = session::SessionView::Numbering(job_at(o, bases, replies, i));
            let reply = replies[i + 3];
            let plans = previews(o, bases, replies, i);
            match preview(o, bases, replies, i) {
                Some(plan) => if i + 1 < bases.len() {
                    &&& course::after(s, reply) == session::SessionView::Numbering(
                        job_at(o, bases, replies, i + 1),
                    )
                    &&& course::remarks(s, reply) == Seq::<notice::NoticeView>::empty()
                } else {
                    &&& course::after(s, reply) == session::SessionView::Finished(true)
                    &&& course::remarks(s, reply) == shown(
                        bases.len(),
                        previews(o, bases, replies, i + 1),
                    ).skip(1)
                },
                None => if i > 0 {
                    &&& course::after(s, reply) == session::SessionView::Finished(true)
                    &&& course::remarks(s, reply) == shown(bases.len(), plans).skip(1)
                } else {
                    course::after(s, reply) == session::SessionView::Finished(false)
                },
            }
        }),
{
    reveal(course::after);
    reveal(course::remarks);
    let plans = previews(o, bases, replies, i);
    let job = job_at(o, bases, replies, i);
    lemma_shown(bases.len(), plans);
    if let Some(plan) = preview(o, bases, replies, i) {
        let more = previews(o, bases, replies, i + 1);
        assert(plans.push(plan) =~= more);
        lemma_shown(bases.len(), more);
        if i + 1 < bases.len() {
            assert(job.rest[0] == bases[i + 1]);
            assert(job.rest.skip(1) =~= bases.skip(i + 2));
        } else {
            assert(job.rest.len() == 0);
        }
    }
}

/// What a dry run shows behind the number of its releases.
proof fn lemma_shown(n: nat, plans: Seq<plan::PlanView>)
    ensures
        shown(n, plans).skip(1) == seq![notice::NoticeView::DryRun] + plans.map_values(
            |p: plan::PlanView| notice::NoticeView::Plan(p),
        ),
        seq![notice::NoticeView::Opening(n as usize)] + shown(n, plans).skip(1) == shown(n, plans),
{
    assert(shown(n, plans).skip(1) =~= seq![notice::NoticeView::DryRun] + plans.map_values(
        |p: plan::PlanView| notice::NoticeView::Plan(p),
    ));
    assert(seq![notice::NoticeView::Opening(n as usize)] + shown(n, plans).skip(1) =~= shown(
        n,
        plans,
    ));
}

/// While every release has a plan, a dry run goes from one to the next and says nothing.
proof fn lemma_previewing(
    states: Seq<session::SessionView>,
    replies: Seq<action::ReplyView>,
    o: options::OptionsView,
    bases: Seq<Seq<char>>,
    i: int,
)
    requires
        course::leads(states, replies),
        states[0] == session::SessionView::Locating(session::RequestView::Hotfix(o)),
        o.dry_run,
        found(o, replies) == Some(bases),
        0 <= i < bases.len(),
        all_previewed(o, bases, replies, i),
    ensures
        i + 3 <= replies.len(),
        states[i + 3] == session::SessionView::Numbering(job_at(o, bases, replies, i)),
        course::said(states, replies.take(i + 3)) == seq![
            notice::NoticeView::Opening(bases.len() as usize),
        ],
    decreases i,
{
    if i == 0 {
        lemma_opening(states, replies, o);
    } else {
        lemma_previewing(states, replies, o, bases, i - 1);
        assert(preview(o, bases, replies, i - 1) is Some);
        lemma_numbering(o, bases, replies, i - 1);
        course::lemma_step(states, replies, i + 2);
        course::lemma_said(states, replies, i + 2);
        assert(course::said(states, replies.take(i + 3)) =~= course::said(
            states,
            replies.take(i + 2),
        ));
    }
}

/// Where a dry run ends with `k` plans, it has succeeded and shown them, or has none.
proof fn lemma_end(
    states: Seq<session::SessionView>,
    replies: Seq<action::ReplyView>,
    o: options::OptionsView,
    bases: Seq<Seq<char>>,
    k: int,
)
    requires
        course::leads(states, replies),
        states[0] == session::SessionView::Locating(session::RequestView::Hotfix(o)),
        o.dry_run,
        found(o, replies) == Some(bases),
        ends_with(o, bases, replies, k),
    ensures
        states.last() == session::SessionView::Finished(k > 0),
        k > 0 ==> course::said(states, replies) == shown(
            bases.len(),
            previews(o, bases, replies, k),
        ),
{
    let i: int = if k == bases.len() {
        k - 1
    } else {
        k
    };
    lemma_previewing(states, replies, o, bases, i);
    if k == bases.len() {
        assert(preview(o, bases, replies, i) is Some);
    }
    lemma_numbering(o, bases, replies, i);
    lemma_shown(bases.len(), previews(o, bases, replies, k));
    course::lemma_step(states, replies, i + 3);
    course::lemma_said(states, replies, i + 3);
    course::lemma_over(states, replies, i + 4);
    course::lemma_silent(states, replies, i + 4);
}

/// How many releases have a plan before the first that has none.
proof fn lemma_scan(
    o: options::OptionsView,
    bases: Seq<Seq<char>>,
    replies: Seq<action::ReplyView>,
    i: int,
) -> (k: int)
    requires
        0 <= i <= bases.len(),
        all_previewed(o, bases, replies, i),
    ensures
        i <= k <= bases.len(),
        all_previewed(o, bases, replies, k),
        k == bases.len() || preview(o, bases, replies, k) is None,
    decreases bases.len() - i,
{
    if i < bases.len() && preview(o, bases, replies, i) is Some {
        lemma_scan(o, bases, replies, i + 1)
    } else {
        i
    }
}

/// A path of a dry run that succeeds ends with plans.
proof fn lemma_success(
    states: Seq<session::SessionView>,
    replies: Seq<action::ReplyView>,
    o: options::OptionsView,
    bases: Seq<Seq<char>>,
) -> (k: int)
    requires
        course::leads(states, replies),
        states[0] == session::SessionView::Locating(session::RequestView::Hotfix(o)),
        o.dry_run,
        found(o, replies) == Some(bases),
        states.last() == session::SessionView::Finished(true),
    ensures
        k > 0,
        ends_with(o, bases, replies, k),
{
    let k = lemma_scan(o, bases, replies, 0);
    if ends_with(o, bases, replies, k) {
        lemma_end(states, replies, o, bases, k);
    } else {
        lemma_previewing(states, replies, o, bases, k);
        course::lemma_step(states, replies, 0);
        assert(states[k + 3] == states.last());
    }
    k
}

/// A dry run ends with success exactly if it finds releases and ends with at least one plan.
/// What it has said is then how many releases there are, that nothing was changed, and each plan
/// that it ended with, in the order of the releases. So if it finds releases and every one of
/// them has a next hotfix, it succeeds and shows one plan for each.
pub proof fn law_dry_run_shows_its_plans(args: Seq<Seq<char>>, replies: Seq<action::ReplyView>)
    requires
        session::request_of(args) matches session::RequestView::Hotfix(o) && o.dry_run,
    ensures
        ({
            let o = session::request_of(args)->Hotfix_0;
            let success = session_laws::ran(args, replies) == session::SessionView::Finished(true);
            let said = course::said(course::path(args, replies), replies);
            match found(o, replies) {
                Some(bases) => {
                    let n = bases.len() as int;
                    &&& success <==> exists|k: int|
                        k > 0 && #[trigger] ends_with(o, bases, replies, k)
                    &&& forall|k: int|
                        k > 0 && #[trigger] ends_with(o, bases, replies, k) ==> said == shown(
                            bases.len(),
                            previews(o, bases, replies, k),
                        )
                    &&& all_previewed(o, bases, replies, n) ==> success && said == shown(
                        bases.len(),
                        previews(o, bases, replies, n),
                    )
                },
                None => !success,
            }
        }),
{
    let o = session::request_of(args)->Hotfix_0;
    let states = course::path(args, replies);
    course::lemma_path(args, replies);
    lemma_opening(states, replies, o);
    if let Some(bases) = found(o, replies) {
        let n = bases.len() as int;
        assert forall|k: int| k > 0 && #[trigger] ends_with(o, bases, replies, k) implies {
            &&& states.last() == session::SessionView::Finished(true)
            &&& course::said(states, replies) == shown(
                bases.len(),
                previews(o, bases, replies, k),
            )
        } by {
            lemma_end(states, replies, o, bases, k);
        }
        if states.last() == session::SessionView::Finished(true) {
            let k = lemma_success(states, replies, o, bases);
        }
        if all_previewed(o, bases, replies, n) {
            assert(ends_with(o, bases, replies, n));
        }
    }
}

} // verus!
