//! What the views of the library's types show.
use vstd::prelude::*;

use crate::action;
use crate::action::Action;
use crate::execution;
use crate::execution::{Execution, Progress};
use crate::notice;
use crate::notice::Notice;
use crate::options::HotfixOptions;
use crate::plan;
use crate::plan::HotfixPlan;
use crate::session;
use crate::session::{Job, Request, Session};
use crate::text;

verus! {

/// An optional text is there or not, and an answer is good or bad, on both sides; what it holds is
/// what is shown.
pub proof fn law_optional_texts(
    s: Option<String>,
    word: Option<&str>,
    reply: Result<String, String>,
    list: Result<Vec<String>, String>,
    planned: Result<HotfixPlan, String>,
)
    ensures
        text::maybe_text(s) == match s {
            Some(t) => Some(t@),
            None => None,
        },
        text::maybe_word(word) == match word {
            Some(t) => Some(t@),
            None => None,
        },
        action::reply_text(reply) == match reply {
            Ok(t) => Ok::<Seq<char>, Seq<char>>(t@),
            Err(t) => Err(t@),
        },
        plan::list_text(list) == match list {
            Ok(t) => Ok::<Seq<Seq<char>>, Seq<char>>(text::texts(t@)),
            Err(t) => Err(t@),
        },
        plan::plan_text(planned) == match planned {
            Ok(t) => Ok::<plan::PlanView, Seq<char>>(t@),
            Err(t) => Err(t@),
        },
{
}

/// Options and plans show every one of their fields.
pub proof fn law_options_and_plans_show_all(o: HotfixOptions, p: HotfixPlan)
    ensures
        o@.sha == o.sha@,
        o@.tag == text::maybe_text(o.tag),
        o@.last_tag == text::maybe_text(o.last_tag),
        o@.push == o.push,
        o@.register == o.register,
        o@.dry_run == o.dry_run,
        p@.base == p.base@,
        p@.release_tag == p.release_tag@,
        p@.hotfix_version == p.hotfix_version@,
        p@.hotfix_tag == p.hotfix_tag@,
        p@.branch == p.branch@,
        p@.pushed == p.pushed,
        p@.registered == p.registered,
{
}

/// An action shows its kind and its words.
pub proof fn law_actions_show_all(a: Action)
    ensures
        a@ == match a {
            Action::Locate => action::ActionView::Locate,
            Action::Capture(args) => action::ActionView::Capture(text::texts(args@)),
            Action::Run(args) => action::ActionView::Run(text::texts(args@)),
            Action::Quiet(args) => action::ActionView::Quiet(text::texts(args@)),
            Action::SetVersion(version) => action::ActionView::SetVersion(version@),
            Action::Exit(success) => action::ActionView::Exit(success),
        },
{
}

/// A notice shows its kind and all that it holds, and a list of notices shows each in turn.
pub proof fn law_notices_show_all(n: Notice, list: Seq<Notice>)
    ensures
        n@ == match n {
            Notice::Fatal(message) => notice::NoticeView::Fatal(message@),
            Notice::Failure(message) => notice::NoticeView::Failure(message@),
            Notice::Usage => notice::NoticeView::Usage,
            Notice::NoTags => notice::NoticeView::NoTags,
            Notice::Tag(tag) => notice::NoticeView::Tag(tag@),
            Notice::Opening(count) => notice::NoticeView::Opening(count),
            Notice::Cutting(base, version) => notice::NoticeView::Cutting(base@, version@),
            Notice::Conflict(sha, base) => notice::NoticeView::Conflict(sha@, base@),
            Notice::Pipeline(branch, version) => notice::NoticeView::Pipeline(branch@, version@),
            Notice::Released(version, pushed, registered) => notice::NoticeView::Released(
                version@,
                pushed,
                registered,
            ),
            Notice::DryRun => notice::NoticeView::DryRun,
            Notice::Plan(plan) => notice::NoticeView::Plan(plan@),
            Notice::Summary(count) => notice::NoticeView::Summary(count),
        },
        notice::notices(list).len() == list.len(),
        forall|i: int| 0 <= i < list.len() ==> #[trigger] notice::notices(list)[i] == list[i]@,
{
}

/// An execution shows every one of its fields, and where a step has led shows the execution or
/// the message.
pub proof fn law_executions_show_all(e: Execution, p: Progress)
    ensures
        e@.plan == e.plan@,
        e@.sha == e.sha@,
        e@.original == e.original@,
        e@.failure == e.failure@,
        e@.stage == e.stage,
        p@ == match p {
            Progress::Ongoing(next) => execution::ProgressView::Ongoing(next@),
            Progress::Complete => execution::ProgressView::Complete,
            Progress::Failed(message) => execution::ProgressView::Failed(message@),
        },
{
}

/// A run shows where it is and all that it holds there.
pub proof fn law_runs_show_all(s: Session, r: Request, job: Job, said: Vec<Notice>)
    ensures
        s@ == match s {
            Session::Locating(request) => session::SessionView::Locating(request@),
            Session::Listing => session::SessionView::Listing,
            Session::CheckingRepo(options) => session::SessionView::CheckingRepo(options@),
            Session::CheckingTree(options) => session::SessionView::CheckingTree(options@),
            Session::Fetching(options) => session::SessionView::Fetching(options@),
            Session::Resolving(options) => session::SessionView::Resolving(options@),
            Session::Numbering(job) => session::SessionView::Numbering(job@),
            Session::CheckingBranch(job, next) => session::SessionView::CheckingBranch(job@, next@),
            Session::Executing(job, e) => session::SessionView::Executing(job@, e@),
            Session::Finished(success) => session::SessionView::Finished(success),
        },
        r@ == match r {
            Request::List => session::RequestView::List,
            Request::Hotfix(options) => session::RequestView::Hotfix(options@),
            Request::Invalid(message) => session::RequestView::Invalid(message@),
        },
        job@.options == job.options@,
        job@.base == job.base@,
        job@.rest == text::texts(job.rest@),
        job@.total == job.total,
        job@.plans.len() == job.plans@.len(),
        forall|i: int| 0 <= i < job.plans@.len() ==> #[trigger] job@.plans[i] == job.plans@[i]@,
        session::step_text((s, said)) == (s@, notice::notices(said@)),
{
}

} // verus!
