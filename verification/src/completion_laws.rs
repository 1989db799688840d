//! What holds of the releases that a run patches one after another.
use vstd::prelude::*;

use crate::action;
use crate::course;
use crate::execution;
use crate::execution_laws;
use crate::options;
use crate::plan;
use crate::session;
use crate::session_laws;
use crate::tags;
use crate::text;

verus! {

/// The plan for `base`, if the replies from `at` on settle one: the tags give a next hotfix, and
/// its branch does not exist yet.
pub open spec fn plan_at(
    o: options::OptionsView,
    base: Seq<char>,
    replies: Seq<action::ReplyView>,
    at: int,
) -> Option<plan::PlanView> {
    if 0 <= at && at + 2 <= replies.len() {
        match (replies[at], replies[at + 1]) {
            (Ok(listing), Ok(branches)) => match tags::next_hotfix(tags::listed(listing), base) {
                Ok(next) => match plan::planned(base, next, o, branches) {
                    Ok(plan) => Some(plan),
                    Err(_) => None,
                },
                Err(_) => None,
            },
            _ => None,
        }
    } else {
        None
    }
}

/// What a plan takes whose execution is answered by the replies from `at` on.
pub open spec fn script_at(
    o: options::OptionsView,
    plan: plan::PlanView,
    replies: Seq<action::ReplyView>,
    at: int,
) -> Seq<action::ActionView> {
    execution_laws::script(plan, o.sha, text::trim(replies[at]->Ok_0))
}

/// The replies from `at` on plan the hotfix of each of these releases and carry it out, one
/// release after another: a plan is settled, a branch is checked out, and every step of the
/// script succeeds.
pub open spec fn all_cut(
    o: options::OptionsView,
    bases: Seq<Seq<char>>,
    replies: Seq<action::ReplyView>,
    at: int,
) -> bool
    decreases bases.len(),
{
    if bases.len() == 0 {
        true
    } else {
        match plan_at(o, bases[0], replies, at) {
            Some(plan) => {
                let steps: int = script_at(o, plan, replies, at + 2).len() as int;
                &&& execution_laws::all_good(replies.skip(at + 2), steps)
                &&& text::trim(replies[at + 2]->Ok_0) != "HEAD"@
                &&& all_cut(o, bases.skip(1), replies, at + 2 + steps)
            },
            None => false,
        }
    }
}

/// What it takes to cut the hotfixes of these releases: for each in turn, the tags and the
/// branches are asked for, and then its script is worked through.
pub open spec fn work(
    o: options::OptionsView,
    bases: Seq<Seq<char>>,
    replies: Seq<action::ReplyView>,
    at: int,
) -> Seq<action::ActionView>
    decreases bases.len(),
{
    if bases.len() == 0 {
        Seq::empty()
    } else {
        match plan_at(o, bases[0], replies, at) {
            Some(plan) => {
                let script = script_at(o, plan, replies, at + 2);
                seq![
                    action::ActionView::Capture(plan::tag_query()),
                    action::ActionView::Capture(plan::branch_query(bases[0])),
                ] + script + work(o, bases.skip(1), replies, at + 2 + script.len())
            },
            None => Seq::empty(),
        }
    }
}

/// One step of a run that carries out a plan.
proof fn lemma_executing(
    job: session::JobView,
    e: execution::ExecutionView,
    reply: action::ReplyView,
)
    requires
        job.plans.len() == 0,
    ensures
        session::SessionView::Executing(job, e).action() == e.action(),
        course::after(session::SessionView::Executing(job, e), reply) == match e.after(reply) {
            execution::ProgressView::Ongoing(next) => session::SessionView::Executing(job, next),
            execution::ProgressView::Failed(_) => session::SessionView::Finished(false),
            execution::ProgressView::Complete => session::proceeded(job).0,
        },
{
    reveal(course::after);
}

/// While a plan is being carried out the run is where its execution is, until that is over.
proof fn lemma_stretch(
    states: Seq<session::SessionView>,
    replies: Seq<action::ReplyView>,
    k: int,
    job: session::JobView,
    e: execution::ExecutionView,
)
    requires
        course::leads(states, replies),
        0 <= k <= replies.len(),
        states[k] == session::SessionView::Executing(job, e),
        job.plans.len() == 0,
    ensures
        k + execution_laws::performed(e, replies.skip(k)).len() <= replies.len(),
        match execution_laws::carried(e, replies.skip(k)) {
            execution::ProgressView::Ongoing(x) => states.last()
                == session::SessionView::Executing(job, x),
            execution::ProgressView::Failed(_) => states.last()
                == session::SessionView::Finished(false),
            execution::ProgressView::Complete => states[k + execution_laws::performed(
                e,
                replies.skip(k),
            ).len()] == session::proceeded(job).0,
        },
    decreases replies.len() - k,
{
    let tail = replies.skip(k);
    course::lemma_step(states, replies, k);
    if k < replies.len() {
        lemma_executing(job, e, replies[k]);
        assert(tail[0] == replies[k]);
        assert(tail.skip(1) =~= replies.skip(k + 1));
        match e.after(replies[k]) {
            execution::ProgressView::Ongoing(next) => {
                lemma_stretch(states, replies, k + 1, job, next);
            },
            execution::ProgressView::Failed(_) => {
                course::lemma_over(states, replies, k + 1);
            },
            execution::ProgressView::Complete => {},
        }
    }
}

/// While a plan is being carried out the run does what its execution does.
proof fn lemma_stretch_actions(
    states: Seq<session::SessionView>,
    replies: Seq<action::ReplyView>,
    k: int,
    job: session::JobView,
    e: execution::ExecutionView,
    i: int,
)
    requires
        course::leads(states, replies),
        0 <= k <= replies.len(),
        states[k] == session::SessionView::Executing(job, e),
        job.plans.len() == 0,
        0 <= i < execution_laws::performed(e, replies.skip(k)).len(),
    ensures
        k + i < replies.len(),
        states[k + i].action() == execution_laws::performed(e, replies.skip(k))[i],
    decreases replies.len() - k,
{
    let tail = replies.skip(k);
    if k < replies.len() {
        course::lemma_step(states, replies, k);
        lemma_executing(job, e, replies[k]);
        assert(tail[0] == replies[k]);
        assert(tail.skip(1) =~= replies.skip(k + 1));
        if i > 0 {
            if let execution::ProgressView::Ongoing(next) = e.after(replies[k]) {
                lemma_stretch_actions(states, replies, k + 1, job, next, i - 1);
            }
        }
    }
}

/// A plan is carried out to its end exactly if its script succeeds, and then its script is what
/// is done.
proof fn lemma_carried_out(
    o: options::OptionsView,
    plan: plan::PlanView,
    replies: Seq<action::ReplyView>,
    k: int,
)
    requires
        0 <= k <= replies.len(),
    ensures
        ({
            let e = execution::begun(plan, o.sha);
            let tail = replies.skip(k);
            let script = script_at(o, plan, replies, k);
            &&& execution_laws::carried(e, tail) is Complete <==> execution_laws::all_good(
                tail,
                script.len() as int,
            ) && text::trim(replies[k]->Ok_0) != "HEAD"@
            &&& execution_laws::carried(e, tail) is Complete ==> execution_laws::performed(e, tail)
                == script
        }),
{
    let tail = replies.skip(k);
    if tail.len() > 0 {
        assert(tail[0] == replies[k]);
        execution_laws::law_completion(plan, o.sha, tail);
    }
}

/// From where the hotfix of a release is numbered, a run goes on to carry out its plan, if the
/// replies settle one, and otherwise does not succeed.
proof fn lemma_planning(
    states: Seq<session::SessionView>,
    replies: Seq<action::ReplyView>,
    at: int,
    job: session::JobView,
)
    requires
        course::leads(states, replies),
        0 <= at <= replies.len(),
        states[at] == session::SessionView::Numbering(job),
        !job.options.dry_run,
        job.plans.len() == 0,
    ensures
        match plan_at(job.options, job.base, replies, at) {
            Some(plan) => {
                &&& states[at].action()
                    == action::ActionView::Capture(plan::tag_query())
                &&& states[at + 1].action()
                    == action::ActionView::Capture(plan::branch_query(job.base))
                &&& states[at + 2]
                    == session::SessionView::Executing(
                    job,
                    execution::begun(plan, job.options.sha),
                )
            },
            None => states.last() != session::SessionView::Finished(true),
        },
{
    reveal(course::after);
    course::lemma_step(states, replies, at);
    if at < replies.len() {
        if states[at + 1] is Finished {
            course::lemma_over(states, replies, at + 1);
        } else if at + 1 < replies.len() {
            course::lemma_step(states, replies, at + 1);
            if states[at + 2] is Finished {
                course::lemma_over(states, replies, at + 2);
            }
        }
    }
}

/// From where the hotfix of a release is numbered, a run succeeds exactly if that release and
/// all after it are cut.
proof fn lemma_all_cut(
    states: Seq<session::SessionView>,
    replies: Seq<action::ReplyView>,
    at: int,
    job: session::JobView,
)
    requires
        course::leads(states, replies),
        0 <= at <= replies.len(),
        states[at] == session::SessionView::Numbering(job),
        !job.options.dry_run,
        job.plans.len() == 0,
    ensures
        states.last() == session::SessionView::Finished(true) <==> all_cut(
            job.options,
            seq![job.base] + job.rest,
            replies,
            at,
        ),
    decreases job.rest.len(),
{
    let o = job.options;
    let bases = seq![job.base] + job.rest;
    let k = at + 2;
    assert(bases[0] == job.base);
    assert(bases.skip(1) =~= job.rest);
    lemma_planning(states, replies, at, job);
    if let Some(plan) = plan_at(o, job.base, replies, at) {
        let e = execution::begun(plan, o.sha);
        lemma_stretch(states, replies, k, job, e);
        lemma_carried_out(o, plan, replies, k);
        if execution_laws::carried(e, replies.skip(k)) is Complete {
            let next_at: int = k + script_at(o, plan, replies, k).len();
            if job.rest.len() == 0 {
                course::lemma_over(states, replies, next_at);
                assert(all_cut(o, job.rest, replies, next_at));
            } else {
                let next = session::JobView { base: job.rest[0], rest: job.rest.skip(1), ..job };
                assert(seq![next.base] + next.rest =~= job.rest);
                lemma_all_cut(states, replies, next_at, next);
            }
        }
    }
}

/// From where the hotfix of a release is numbered, a run that cuts that release and all after it
/// does what that takes.
proof fn lemma_work(
    states: Seq<session::SessionView>,
    replies: Seq<action::ReplyView>,
    at: int,
    job: session::JobView,
)
    requires
        course::leads(states, replies),
        0 <= at <= replies.len(),
        states[at] == session::SessionView::Numbering(job),
        !job.options.dry_run,
        job.plans.len() == 0,
        all_cut(job.options, seq![job.base] + job.rest, replies, at),
    ensures
        ({
            let needed = work(job.options, seq![job.base] + job.rest, replies, at);
            &&& at + needed.len() <= replies.len()
            &&& course::did(states).subrange(at, at + needed.len()) == needed
            &&& states[at + needed.len()] == session::SessionView::Finished(true)
        }),
    decreases job.rest.len(),
{
    let o = job.options;
    let bases = seq![job.base] + job.rest;
    let all = course::did(states);
    let plan = plan_at(o, job.base, replies, at)->0;
    let e = execution::begun(plan, o.sha);
    let k = at + 2;
    let script = script_at(o, plan, replies, k);
    let next_at: int = k + script.len();
    let head = seq![
        action::ActionView::Capture(plan::tag_query()),
        action::ActionView::Capture(plan::branch_query(job.base)),
    ];
    let ahead = work(o, job.rest, replies, next_at);
    let end: int = next_at + ahead.len();
    assert(bases[0] == job.base);
    assert(bases.skip(1) =~= job.rest);
    course::lemma_step(states, replies, at);
    lemma_planning(states, replies, at, job);
    lemma_stretch(states, replies, k, job, e);
    lemma_carried_out(o, plan, replies, k);
    assert(work(o, bases, replies, at) == head + script + ahead);
    assert(all.subrange(at, k) =~= head);
    assert forall|i: int| 0 <= i < script.len() implies #[trigger] all.subrange(k, next_at)[i]
        == script[i] by {
        lemma_stretch_actions(states, replies, k, job, e, i);
    }
    assert(all.subrange(k, next_at) =~= script);
    if job.rest.len() > 0 {
        let next = session::JobView { base: job.rest[0], rest: job.rest.skip(1), ..job };
        assert(seq![next.base] + next.rest =~= job.rest);
        lemma_work(states, replies, next_at, next);
    }
    assert(all.subrange(next_at, end) =~= ahead);
    assert(all.subrange(at, end) =~= all.subrange(at, k) + all.subrange(k, next_at) + all.subrange(
        next_at,
        end,
    ));
}

/// What a run starts with that is to cut hotfixes: the workspace and the repository are found,
/// the working tree is looked at, the tags are fetched, and the releases are asked for.
pub open spec fn opening(o: options::OptionsView) -> Seq<action::ActionView> {
    seq![
        action::ActionView::Locate,
        action::ActionView::Capture(seq!["rev-parse"@, "--is-inside-work-tree"@]),
        action::ActionView::Capture(seq!["status"@, "--porcelain"@]),
        action::ActionView::Capture(seq!["fetch"@, "origin"@, "--tags"@]),
        action::ActionView::Capture(plan::target_query(o)),
    ]
}

/// The releases that a run finds to patch, if its checks pass and there are any.
pub open spec fn found(
    o: options::OptionsView,
    replies: Seq<action::ReplyView>,
) -> Option<Seq<Seq<char>>> {
    if session_laws::checks_passed(replies) && replies.len() >= 5 {
        match plan::targets(o, replies[4]) {
            Ok(bases) => if bases.len() > 0 {
                Some(bases)
            } else {
                None
            },
            Err(_) => None,
        }
    } else {
        None
    }
}

/// The first steps of a run that is to cut hotfixes.
proof fn lemma_first_steps(o: options::OptionsView, reply: action::ReplyView)
    requires
        !o.dry_run,
    ensures
        course::after(session::SessionView::Locating(session::RequestView::Hotfix(o)), reply) == if reply
            is Ok {
            session::SessionView::CheckingRepo(o)
        } else {
            session::SessionView::Finished(false)
        },
        course::after(session::SessionView::CheckingRepo(o), reply) == if reply is Ok {
            session::SessionView::CheckingTree(o)
        } else {
            session::SessionView::Finished(false)
        },
        course::after(session::SessionView::CheckingTree(o), reply) == if reply is Ok && text::trim(
            reply->Ok_0,
        ).len() == 0 {
            session::SessionView::Fetching(o)
        } else {
            session::SessionView::Finished(false)
        },
        course::after(session::SessionView::Fetching(o), reply) == if reply is Ok {
            session::SessionView::Resolving(o)
        } else {
            session::SessionView::Finished(false)
        },
{
    reveal(course::after);
}

/// The step that finds the releases.
proof fn lemma_resolving(o: options::OptionsView, reply: action::ReplyView)
    ensures
        match plan::targets(o, reply) {
            Ok(bases) => if bases.len() > 0 {
                course::after(session::SessionView::Resolving(o), reply) matches
                    session::SessionView::Numbering(job) && job.options == o && job.base == bases[0]
                    && job.rest == bases.skip(1) && job.plans.len() == 0
            } else {
                course::after(session::SessionView::Resolving(o), reply) == session::SessionView::Finished(
                    false,
                )
            },
            Err(_) => course::after(session::SessionView::Resolving(o), reply)
                == session::SessionView::Finished(false),
        },
{
    reveal(course::after);
}

/// A run comes to number the hotfix of its first release if it finds releases to patch, and
/// otherwise does not succeed.
proof fn lemma_opening(
    states: Seq<session::SessionView>,
    replies: Seq<action::ReplyView>,
    o: options::OptionsView,
)
    requires
        course::leads(states, replies),
        states[0] == session::SessionView::Locating(session::RequestView::Hotfix(o)),
        !o.dry_run,
    ensures
        match found(o, replies) {
            Some(bases) => {
                &&& course::did(states).take(5) == opening(o)
                &&& states[5] matches session::SessionView::Numbering(job) && job.options == o
                    && job.base == bases[0] && job.rest == bases.skip(1) && job.plans.len() == 0
            },
            None => states.last() != session::SessionView::Finished(true),
        },
{
    let n = replies.len();
    course::lemma_step(states, replies, 0);
    course::lemma_step(states, replies, 1);
    course::lemma_step(states, replies, 2);
    course::lemma_step(states, replies, 3);
    course::lemma_step(states, replies, 4);
    lemma_first_steps(o, replies[0]);
    lemma_first_steps(o, replies[1]);
    lemma_first_steps(o, replies[2]);
    lemma_first_steps(o, replies[3]);
    lemma_resolving(o, replies[4]);
    if n >= 1 && states[1] is Finished {
        course::lemma_over(states, replies, 1);
    } else if n >= 2 && states[2] is Finished {
        course::lemma_over(states, replies, 2);
    } else if n >= 3 && states[3] is Finished {
        course::lemma_over(states, replies, 3);
    } else if n >= 4 && states[4] is Finished {
        course::lemma_over(states, replies, 4);
    } else if n >= 5 && states[5] is Finished {
        course::lemma_over(states, replies, 5);
    } else if n >= 5 {
        assert(course::did(states).take(5) =~= opening(o));
    }
}

/// How a run comes to be where it carries out a plan.
proof fn lemma_into_executing(s: session::SessionView, reply: action::ReplyView)
    ensures
        course::after(s, reply) matches session::SessionView::Executing(job, e) ==> match s {
            session::SessionView::Executing(was, x) => {
                &&& was == job
                &&& x.after(reply) == execution::ProgressView::Ongoing(e)
                &&& x.plan == e.plan
                &&& x.sha == e.sha
            },
            _ => e == execution::begun(e.plan, e.sha),
        },
{
    reveal(course::after);
}

/// An execution that is under way at `n` has been since some `k`, and the replies since then are
/// what has brought it to where it is.
proof fn lemma_since(
    states: Seq<session::SessionView>,
    replies: Seq<action::ReplyView>,
    n: int,
) -> (k: int)
    requires
        course::leads(states, replies),
        !(states[0] is Executing),
        0 <= n <= replies.len(),
    ensures
        states[n] matches session::SessionView::Executing(job, e) ==> {
            let start = execution::begun(e.plan, e.sha);
            &&& 0 <= k <= n
            &&& states[k] == session::SessionView::Executing(job, start)
            &&& execution_laws::carried(start, replies.subrange(k, n))
                == execution::ProgressView::Ongoing(e)
        },
    decreases n,
{
    if n == 0 || !(states[n] is Executing) {
        0
    } else {
        let e = states[n]->Executing_1;
        let start = execution::begun(e.plan, e.sha);
        let before = lemma_since(states, replies, n - 1);
        course::lemma_step(states, replies, n - 1);
        lemma_into_executing(states[n - 1], replies[n - 1]);
        if states[n - 1] is Executing {
            let stretch = replies.subrange(before, n);
            assert(stretch.drop_last() =~= replies.subrange(before, n - 1));
            execution_laws::lemma_one_more(start, stretch);
            before
        } else {
            assert(replies.subrange(n, n) =~= Seq::empty());
            n
        }
    }
}

/// Only an execution pushes.
proof fn lemma_pushing(s: session::SessionView)
    ensures
        execution_laws::moves_remote(s.action()) ==> (s matches session::SessionView::Executing(
            _,
            e,
        ) && execution_laws::moves_remote(e.action())),
{
    execution_laws::lemma_words();
}

/// The push of a plan is due after these replies, the execution of the plan having been at `s`
/// before them: the plan says to push, and what was done since is what the script puts before
/// the push, from the first step to the tag or to the push of the branch, all with success.
pub open spec fn push_is_due(s: session::SessionView, since: Seq<action::ReplyView>) -> bool {
    match s {
        session::SessionView::Executing(_, e) => {
            let n = since.len() as int;
            &&& e == execution::begun(e.plan, e.sha)
            &&& e.plan.pushed
            &&& 7 <= n <= 8
            &&& execution_laws::all_good(since, n)
            &&& execution_laws::performed(e, since) == execution_laws::script(
                e.plan,
                e.sha,
                text::trim(since[0]->Ok_0),
            ).take(n)
        },
        _ => false,
    }
}

/// A push on a path is due since some place of it.
proof fn lemma_push(
    states: Seq<session::SessionView>,
    replies: Seq<action::ReplyView>,
) -> (k: int)
    requires
        course::leads(states, replies),
        !(states[0] is Executing),
        execution_laws::moves_remote(states.last().action()),
    ensures
        0 <= k <= replies.len(),
        push_is_due(states[k], replies.skip(k)),
{
    let n: int = replies.len() as int;
    course::lemma_step(states, replies, 0);
    lemma_pushing(states.last());
    let k = lemma_since(states, replies, n);
    let e = states[n]->Executing_1;
    assert(replies.subrange(k, n) =~= replies.skip(k));
    execution_laws::law_push_comes_after_the_tag(e.plan, e.sha, replies.skip(k));
    k
}

/// A run pushes only when it is carrying out a plan that says so, and the branch, the
/// cherry-pick, the version, the commit and the tag of that plan are done and have all
/// succeeded.
pub proof fn law_push_comes_after_the_tag(args: Seq<Seq<char>>, replies: Seq<action::ReplyView>)
    ensures
        execution_laws::moves_remote(session_laws::ran(args, replies).action()) ==> exists|k: int|
            0 <= k <= replies.len() && #[trigger] push_is_due(
                course::path(args, replies)[k],
                replies.skip(k),
            ),
{
    course::lemma_path(args, replies);
    if execution_laws::moves_remote(session_laws::ran(args, replies).action()) {
        let k = lemma_push(course::path(args, replies), replies);
    }
}

/// What is done on a path up to its success is exactly this.
pub open spec fn succeeds_by(
    states: Seq<session::SessionView>,
    needed: Seq<action::ActionView>,
) -> bool {
    let n = needed.len() as int;
    &&& n < states.len()
    &&& course::did(states).take(n) == needed
    &&& states[n] == session::SessionView::Finished(true)
}

/// A path of a run that is to cut hotfixes ends with success exactly if the releases that it
/// finds are all cut, and then it holds what that takes.
proof fn lemma_success(
    states: Seq<session::SessionView>,
    replies: Seq<action::ReplyView>,
    o: options::OptionsView,
)
    requires
        course::leads(states, replies),
        states[0] == session::SessionView::Locating(session::RequestView::Hotfix(o)),
        !o.dry_run,
    ensures
        match found(o, replies) {
            Some(bases) => {
                &&& states.last() == session::SessionView::Finished(true) <==> all_cut(
                    o,
                    bases,
                    replies,
                    5,
                )
                &&& all_cut(o, bases, replies, 5) ==> succeeds_by(
                    states,
                    opening(o) + work(o, bases, replies, 5),
                )
            },
            None => states.last() != session::SessionView::Finished(true),
        },
{
    lemma_opening(states, replies, o);
    course::lemma_step(states, replies, 0);
    if let Some(bases) = found(o, replies) {
        let job = states[5]->Numbering_0;
        assert(seq![job.base] + job.rest =~= bases);
        lemma_all_cut(states, replies, 5, job);
        if all_cut(o, bases, replies, 5) {
            let all = course::did(states);
            let needed = work(o, bases, replies, 5);
            let end: int = 5 + needed.len() as int;
            lemma_work(states, replies, 5, job);
            assert(all.take(end) =~= all.take(5) + all.subrange(5, end));
            assert((opening(o) + needed).len() == end);
        }
    }
}

/// A run that cuts hotfixes ends with success exactly if its checks pass, it finds releases to
/// patch, and for each of them, once each and in their order, a plan is settled and carried out
/// from the first step of its script to the last. What it has done up to its success is that and
/// nothing else.
pub proof fn law_success_is_complete(args: Seq<Seq<char>>, replies: Seq<action::ReplyView>)
    requires
        session::request_of(args) matches session::RequestView::Hotfix(o) && !o.dry_run,
    ensures
        ({
            let o = session::request_of(args)->Hotfix_0;
            let success = session_laws::ran(args, replies) == session::SessionView::Finished(true);
            match found(o, replies) {
                Some(bases) => {
                    &&& success <==> all_cut(o, bases, replies, 5)
                    &&& success ==> succeeds_by(
                        course::path(args, replies),
                        opening(o) + work(o, bases, replies, 5),
                    )
                },
                None => !success,
            }
        }),
{
    course::lemma_path(args, replies);
    lemma_success(course::path(args, replies), replies, session::request_of(args)->Hotfix_0);
}

} // verus!
