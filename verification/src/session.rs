//! A whole run: from the command line over the plans to the last notice.
use vstd::prelude::*;

use crate::action;
use crate::action::Action;
use crate::execution;
use crate::execution::{execute_one, Execution, Progress};
use crate::notice;
use crate::notice::Notice;
use crate::options;
use crate::options::{parse_options, HotfixOptions};
use crate::plan;
use crate::plan::{
    branch_args, list_tags_args, plan_one, target_args, target_bases, HotfixPlan,
};
use crate::tags;
use crate::tags::{list_tags_in, next_hotfix_for_base_in};
use crate::text;
use crate::text::{owned, same, trimmed};
use crate::version;
use crate::version::HotfixVersion;

verus! {

/// What a command line asks for.
#[derive(Debug)]
pub enum Request {
    /// To list the version tags.
    List,
    /// To cut hotfixes.
    Hotfix(HotfixOptions),
    /// Nothing that can be done, and why.
    Invalid(String),
}

/// What a [`Request`] says.
pub enum RequestView {
    List,
    Hotfix(options::OptionsView),
    Invalid(Seq<char>),
}

impl View for Request {
    type V = RequestView;

    open spec fn view(&self) -> RequestView {
        match self {
            Request::List => RequestView::List,
            Request::Hotfix(options) => RequestView::Hotfix(options@),
            Request::Invalid(message) => RequestView::Invalid(message@),
        }
    }
}

/// The releases that a run is patching.
#[derive(Debug)]
pub struct Job {
    pub options: HotfixOptions,
    /// The release at hand.
    pub base: String,
    /// The releases after it.
    pub rest: Vec<String>,
    /// How many releases there were.
    pub total: usize,
    /// The plans of a dry run so far.
    pub plans: Vec<HotfixPlan>,
}

/// What a [`Job`] says.
pub struct JobView {
    pub options: options::OptionsView,
    pub base: Seq<char>,
    pub rest: Seq<Seq<char>>,
    pub total: usize,
    pub plans: Seq<plan::PlanView>,
}

/// What the plans of a list say, in order.
pub open spec fn plans_of(list: Seq<HotfixPlan>) -> Seq<plan::PlanView> {
    list.map_values(|p: HotfixPlan| p@)
}

impl View for Job {
    type V = JobView;

    open spec fn view(&self) -> JobView {
        JobView {
            options: self.options@,
            base: self.base@,
            rest: text::texts(self.rest@),
            total: self.total,
            plans: plans_of(self.plans@),
        }
    }
}

/// Where a run is.
#[derive(Debug)]
pub enum Session {
    /// The workspace is being looked for.
    Locating(Request),
    /// The tags are being read to be listed.
    Listing,
    /// Whether this is a git repository is being checked.
    CheckingRepo(HotfixOptions),
    /// Whether the working tree is clean is being checked.
    CheckingTree(HotfixOptions),
    /// The tags of `origin` are being fetched.
    Fetching(HotfixOptions),
    /// The releases to patch are being found out.
    Resolving(HotfixOptions),
    /// The tags are being read to number a hotfix.
    Numbering(Job),
    /// Whether the hotfix branch exists is being checked.
    CheckingBranch(Job, HotfixVersion),
    /// A plan is being carried out.
    Executing(Job, Execution),
    /// The run is over, with success or without.
    Finished(bool),
}

/// What a [`Session`] says.
pub enum SessionView {
    Locating(RequestView),
    Listing,
    CheckingRepo(options::OptionsView),
    CheckingTree(options::OptionsView),
    Fetching(options::OptionsView),
    Resolving(options::OptionsView),
    Numbering(JobView),
    CheckingBranch(JobView, version::VersionView),
    Executing(JobView, execution::ExecutionView),
    Finished(bool),
}

impl View for Session {
    type V = SessionView;

    open spec fn view(&self) -> SessionView {
        match self {
            Session::Locating(request) => SessionView::Locating(request@),
            Session::Listing => SessionView::Listing,
            Session::CheckingRepo(options) => SessionView::CheckingRepo(options@),
            Session::CheckingTree(options) => SessionView::CheckingTree(options@),
            Session::Fetching(options) => SessionView::Fetching(options@),
            Session::Resolving(options) => SessionView::Resolving(options@),
            Session::Numbering(job) => SessionView::Numbering(job@),
            Session::CheckingBranch(job, next) => SessionView::CheckingBranch(job@, next@),
            Session::Executing(job, e) => SessionView::Executing(job@, e@),
            Session::Finished(success) => SessionView::Finished(*success),
        }
    }
}

/// A run and what it has just said.
pub type StepView = (SessionView, Seq<notice::NoticeView>);

/// A run that ends without success, and says why.
pub open spec fn refused(message: Seq<char>) -> StepView {
    (SessionView::Finished(false), seq![notice::NoticeView::Failure(message)])
}

/// The end of a job. A dry run with any plan shows its plans and is a success, whatever came
/// after them; otherwise the job fails with the given message or is done.
pub open spec fn concluded(job: JobView, failure: Option<Seq<char>>) -> StepView {
    if job.plans.len() > 0 {
        (
            SessionView::Finished(true),
            seq![notice::NoticeView::DryRun] + job.plans.map_values(
                |p: plan::PlanView| notice::NoticeView::Plan(p),
            ),
        )
    } else {
        match failure {
            Some(message) => refused(message),
            None => (
                SessionView::Finished(true),
                seq![notice::NoticeView::Summary(job.total)],
            ),
        }
    }
}

/// On to the next release, or to the end.
pub open spec fn proceeded(job: JobView) -> StepView {
    if job.rest.len() > 0 {
        (
            SessionView::Numbering(JobView { base: job.rest[0], rest: job.rest.skip(1), ..job }),
            Seq::empty(),
        )
    } else {
        concluded(job, None)
    }
}

/// What `--list` shows, given the listing of the tags or why there is none.
pub open spec fn tag_list(reply: action::ReplyView) -> StepView {
    match reply {
        Err(message) => refused("failed to list tags: "@ + message),
        Ok(listing) => if tags::listed(listing).len() == 0 {
            (SessionView::Finished(false), seq![notice::NoticeView::NoTags])
        } else {
            (
                SessionView::Finished(true),
                tags::listed(listing).map_values(
                    |tag: Seq<char>| notice::NoticeView::Tag(tag),
                ),
            )
        },
    }
}

/// What a run asks for.
pub open spec fn request_of(args: Seq<Seq<char>>) -> RequestView {
    if args.contains("--list"@) {
        RequestView::List
    } else {
        match options::options_of(args) {
            Ok(options) => RequestView::Hotfix(options),
            Err(message) => RequestView::Invalid(message),
        }
    }
}

/// The start of a run.
pub open spec fn opened(args: Seq<Seq<char>>) -> SessionView {
    SessionView::Locating(request_of(args))
}

impl SessionView {
    /// What the run does now.
    pub open spec fn action(self) -> action::ActionView {
        match self {
            SessionView::Locating(_) => action::ActionView::Locate,
            SessionView::Listing => action::ActionView::Capture(plan::tag_query()),
            SessionView::CheckingRepo(_) => action::ActionView::Capture(
                seq!["rev-parse"@, "--is-inside-work-tree"@],
            ),
            SessionView::CheckingTree(_) => action::ActionView::Capture(
                seq!["status"@, "--porcelain"@],
            ),
            SessionView::Fetching(_) => action::ActionView::Capture(
                seq!["fetch"@, "origin"@, "--tags"@],
            ),
            SessionView::Resolving(options) => action::ActionView::Capture(
                plan::target_query(options),
            ),
            SessionView::Numbering(_) => action::ActionView::Capture(plan::tag_query()),
            SessionView::CheckingBranch(job, _) => action::ActionView::Capture(
                plan::branch_query(job.base),
            ),
            SessionView::Executing(_, e) => e.action(),
            SessionView::Finished(success) => action::ActionView::Exit(success),
        }
    }

    /// Where the run goes and what it says, given what came of its action.
    pub open spec fn step(self, reply: action::ReplyView) -> StepView {
        match self {
            SessionView::Locating(request) => match (reply, request) {
                (Err(message), _) => (
                    SessionView::Finished(false),
                    seq![notice::NoticeView::Fatal(message)],
                ),
                (Ok(_), RequestView::List) => (SessionView::Listing, Seq::empty()),
                (Ok(_), RequestView::Hotfix(options)) => (
                    SessionView::CheckingRepo(options),
                    Seq::empty(),
                ),
                (Ok(_), RequestView::Invalid(message)) => (
                    SessionView::Finished(false),
                    seq![notice::NoticeView::Failure(message), notice::NoticeView::Usage],
                ),
            },
            SessionView::Listing => tag_list(reply),
            SessionView::CheckingRepo(options) => match reply {
                Err(message) => refused(message),
                Ok(_) => if options.dry_run {
                    (SessionView::Resolving(options), Seq::empty())
                } else {
                    (SessionView::CheckingTree(options), Seq::empty())
                },
            },
            SessionView::CheckingTree(options) => match reply {
                Err(message) => refused(message),
                Ok(status) => if text::trim(status).len() > 0 {
                    refused(unclean())
                } else {
                    (SessionView::Fetching(options), Seq::empty())
                },
            },
            SessionView::Fetching(options) => match reply {
                Err(message) => refused(message),
                Ok(_) => (SessionView::Resolving(options), Seq::empty()),
            },
            SessionView::Resolving(options) => match plan::targets(options, reply) {
                Err(message) => refused(message),
                Ok(bases) => if bases.len() == 0 {
                    refused("no release tags matched the requested target"@)
                } else {
                    (
                        SessionView::Numbering(
                            JobView {
                                options,
                                base: bases[0],
                                rest: bases.skip(1),
                                total: bases.len() as usize,
                                plans: Seq::empty(),
                            },
                        ),
                        seq![notice::NoticeView::Opening(bases.len() as usize)],
                    )
                },
            },
            SessionView::Numbering(job) => match reply {
                Err(message) => concluded(job, Some(message)),
                Ok(listing) => match tags::next_hotfix(tags::listed(listing), job.base) {
                    Err(message) => concluded(job, Some(message)),
                    Ok(next) => if job.options.dry_run {
                        proceeded(
                            JobView {
                                plans: job.plans.push(plan::plan_for(job.base, next, job.options)),
                                ..job
                            },
                        )
                    } else {
                        (SessionView::CheckingBranch(job, next), Seq::empty())
                    },
                },
            },
            SessionView::CheckingBranch(job, next) => match reply {
                Err(message) => concluded(job, Some(message)),
                Ok(branches) => match plan::planned(job.base, next, job.options, branches) {
                    Err(message) => concluded(job, Some(message)),
                    Ok(plan) => (
                        SessionView::Executing(job, execution::begun(plan, job.options.sha)),
                        seq![notice::NoticeView::Cutting(job.base, plan.hotfix_version)],
                    ),
                },
            },
            SessionView::Executing(job, e) => match e.after(reply) {
                execution::ProgressView::Ongoing(next) => (
                    SessionView::Executing(job, next),
                    e.remarks(reply),
                ),
                execution::ProgressView::Complete => {
                    let (next, said) = proceeded(job);
                    (
                        next,
                        seq![
                            notice::NoticeView::Released(
                                e.plan.hotfix_version,
                                e.plan.pushed,
                                e.plan.registered,
                            ),
                        ] + said,
                    )
                },
                execution::ProgressView::Failed(message) => concluded(job, Some(message)),
            },
            SessionView::Finished(success) => (self, Seq::empty()),
        }
    }
}

/// The message for a working tree that is not clean.
pub open spec fn unclean() -> Seq<char> {
    "working tree is not clean; commit or stash changes before a hotfix (use --dry-run to preview)"@
}

/// Return an error when the working tree is not clean, given what the status query printed.
pub fn ensure_clean_worktree(status: &str) -> (r: Result<(), String>)
    ensures
        match r {
            Ok(_) => text::trim(status@).len() == 0,
            Err(message) => text::trim(status@).len() > 0 && message@ == unclean(),
        },
{
    if trimmed(status).unicode_len() == 0 {
        Ok(())
    } else {
        Err(
            "working tree is not clean; commit or stash changes before a hotfix (use --dry-run to preview)".to_owned(),
        )
    }
}

/// A run and what it has just said.
pub type Step = (Session, Vec<Notice>);

/// What a [`Step`] says.
pub open spec fn step_text(step: Step) -> StepView {
    (step.0@, notice::notices(step.1@))
}

/// A run that goes on in silence.
fn silently(session: Session) -> (r: Step)
    ensures
        step_text(r) == (session@, Seq::<notice::NoticeView>::empty()),
{
    let said: Vec<Notice> = Vec::new();
    assert(notice::notices(said@) =~= Seq::empty());
    (session, said)
}

/// A run that goes on with one notice.
fn saying(session: Session, one: Notice) -> (r: Step)
    ensures
        step_text(r) == (session@, seq![one@]),
{
    let mut said: Vec<Notice> = Vec::new();
    said.push(one);
    assert(notice::notices(said@) =~= seq![one@]);
    (session, said)
}

/// A run that ends without success, and says why.
fn refuse(message: String) -> (r: Step)
    ensures
        step_text(r) == refused(message@),
{
    saying(Session::Finished(false), Notice::Failure(message))
}

/// The end of a job.
fn conclude(job: Job, failure: Option<String>) -> (r: Step)
    ensures
        step_text(r) == concluded(job@, text::maybe_text(failure)),
{
    if job.plans.len() > 0 {
        let Job { options: _, base: _, rest: _, total: _, plans } = job;
        let ghost all = plans_of(plans@);
        let mut left = plans;
        let mut said: Vec<Notice> = Vec::new();
        said.push(Notice::DryRun);
        assert(all.skip(0) =~= all);
        assert(notice::notices(said@) =~= seq![notice::NoticeView::DryRun] + all.take(0).map_values(
            |p: plan::PlanView| notice::NoticeView::Plan(p),
        ));
        let ghost mut i: int = 0;
        while left.len() > 0
            invariant
                0 <= i <= all.len(),
                plans_of(left@) == all.skip(i),
                notice::notices(said@) == seq![notice::NoticeView::DryRun] + all.take(i).map_values(
                    |p: plan::PlanView| notice::NoticeView::Plan(p),
                ),
            decreases left@.len(),
        {
            let ghost before = said@;
            assert(plans_of(left@).len() == left@.len());
            assert(all.skip(i)[0] == all[i]);
            let one = left.remove(0);
            assert(plans_of(left@) =~= all.skip(i).skip(1));
            assert(all.skip(i).skip(1) =~= all.skip(i + 1));
            said.push(Notice::Plan(one));
            proof {
                assert(notice::notices(said@) =~= notice::notices(before).push(
                    notice::NoticeView::Plan(all[i]),
                ));
                assert(all.take(i + 1) =~= all.take(i).push(all[i]));
                assert(notice::notices(said@) =~= seq![notice::NoticeView::DryRun] + all.take(
                    i + 1,
                ).map_values(|p: plan::PlanView| notice::NoticeView::Plan(p)));
                i = i + 1;
            }
        }
        assert(plans_of(left@).len() == 0);
        assert(all.take(i) =~= all);
        (Session::Finished(true), said)
    } else {
        match failure {
            Some(message) => refuse(message),
            None => saying(Session::Finished(true), Notice::Summary(job.total)),
        }
    }
}

/// On to the next release, or to the end.
fn proceed(job: Job) -> (r: Step)
    ensures
        step_text(r) == proceeded(job@),
{
    if job.rest.len() > 0 {
        let Job { options, base: _, rest, total, plans } = job;
        let ghost all = text::texts(rest@);
        let mut left = rest;
        let base = left.remove(0);
        assert(text::texts(left@) =~= all.skip(1));
        silently(Session::Numbering(Job { options, base, rest: left, total, plans }))
    } else {
        conclude(job, None)
    }
}

/// List current release and hotfix tags, given the listing of the tags or why there is none.
pub fn run_list(reply: &Result<String, String>) -> (r: Step)
    ensures
        step_text(r) == tag_list(action::reply_text(*reply)),
{
    match reply {
        Err(message) => refuse("failed to list tags: ".to_owned().concat(message.as_str())),
        Ok(listing) => {
            let found = list_tags_in(listing.as_str());
            if found.len() == 0 {
                return saying(Session::Finished(false), Notice::NoTags);
            }
            let mut said: Vec<Notice> = Vec::new();
            for i in 0..found.len()
                invariant
                    said@.len() == i,
                    forall|j: int|
                        0 <= j < i ==> (#[trigger] said@[j])@ == notice::NoticeView::Tag(
                            found@[j]@,
                        ),
            {
                said.push(Notice::Tag(found[i].clone()));
            }
            assert(notice::notices(said@) =~= text::texts(found@).map_values(
                |tag: Seq<char>| notice::NoticeView::Tag(tag),
            ));
            (Session::Finished(true), said)
        },
    }
}

/// Whether one of the words is `--list`.
fn asks_for_list(args: &[&str]) -> (r: bool)
    ensures
        r == text::words(args@).contains("--list"@),
{
    for i in 0..args.len()
        invariant
            forall|j: int| 0 <= j < i ==> (#[trigger] args@[j])@ != "--list"@,
    {
        if same(args[i], "--list") {
            assert(text::words(args@)[i as int] == "--list"@);
            return true;
        }
    }
    assert forall|j: int| 0 <= j < args@.len() implies text::words(args@)[j] != "--list"@ by {
        assert(args@[j]@ != "--list"@);
    }
    false
}

/// Entry point for `cargo xtask hotfix ...`. This is the start of the run;
/// [`Session::advance`] takes each step.
pub fn run(args: &[&str]) -> (r: Session)
    ensures
        r@ == opened(text::words(args@)),
{
    // `--list` short-circuits argument parsing entirely.
    if asks_for_list(args) {
        return Session::Locating(Request::List);
    }
    match parse_options(args) {
        Ok(options) => Session::Locating(Request::Hotfix(options)),
        Err(message) => Session::Locating(Request::Invalid(message)),
    }
}

impl Session {
    /// What to do now.
    pub fn action(&self) -> (r: Action)
        ensures
            r@ == self@.action(),
    {
        match self {
            Session::Locating(_) => Action::Locate,
            Session::Listing => Action::Capture(list_tags_args()),
            Session::CheckingRepo(_) => {
                let args = owned(&["rev-parse", "--is-inside-work-tree"]);
                assert(text::texts(args@) =~= seq!["rev-parse"@, "--is-inside-work-tree"@]);
                Action::Capture(args)
            },
            Session::CheckingTree(_) => {
                let args = owned(&["status", "--porcelain"]);
                assert(text::texts(args@) =~= seq!["status"@, "--porcelain"@]);
                Action::Capture(args)
            },
            Session::Fetching(_) => {
                let args = owned(&["fetch", "origin", "--tags"]);
                assert(text::texts(args@) =~= seq!["fetch"@, "origin"@, "--tags"@]);
                Action::Capture(args)
            },
            Session::Resolving(options) => Action::Capture(target_args(options)),
            Session::Numbering(_) => Action::Capture(list_tags_args()),
            Session::CheckingBranch(job, _) => Action::Capture(branch_args(job.base.as_str())),
            Session::Executing(_, e) => e.action(),
            Session::Finished(success) => Action::Exit(*success),
        }
    }

    /// Where the run goes and what it says, given what came of its action.
    pub fn advance(self, reply: &Result<String, String>) -> (r: Step)
        ensures
            step_text(r) == self@.step(action::reply_text(*reply)),
    {
        match self {
            Session::Locating(request) => match (reply, request) {
                (Err(message), _) => saying(
                    Session::Finished(false),
                    Notice::Fatal(message.clone()),
                ),
                (Ok(_), Request::List) => silently(Session::Listing),
                (Ok(_), Request::Hotfix(options)) => silently(Session::CheckingRepo(options)),
                (Ok(_), Request::Invalid(message)) => {
                    let mut said: Vec<Notice> = Vec::new();
                    let ghost text = message@;
                    said.push(Notice::Failure(message));
                    said.push(Notice::Usage);
                    assert(notice::notices(said@) =~= seq![
                        notice::NoticeView::Failure(text),
                        notice::NoticeView::Usage,
                    ]);
                    (Session::Finished(false), said)
                },
            },
            Session::Listing => run_list(reply),
            Session::CheckingRepo(options) => match reply {
                Err(message) => refuse(message.clone()),
                Ok(_) => if options.dry_run {
                    silently(Session::Resolving(options))
                } else {
                    silently(Session::CheckingTree(options))
                },
            },
            Session::CheckingTree(options) => match reply {
                Err(message) => refuse(message.clone()),
                Ok(status) => match ensure_clean_worktree(status.as_str()) {
                    Err(message) => refuse(message),
                    Ok(_) => silently(Session::Fetching(options)),
                },
            },
            Session::Fetching(options) => match reply {
                Err(message) => refuse(message.clone()),
                Ok(_) => silently(Session::Resolving(options)),
            },
            Session::Resolving(options) => match target_bases(&options, reply) {
                Err(message) => refuse(message),
                Ok(bases) => {
                    if bases.len() == 0 {
                        return refuse("no release tags matched the requested target".to_owned());
                    }
                    let ghost all = text::texts(bases@);
                    let total = bases.len();
                    let mut rest = bases;
                    let base = rest.remove(0);
                    let plans: Vec<HotfixPlan> = Vec::new();
                    assert(text::texts(rest@) =~= all.skip(1));
                    assert(plans_of(plans@) =~= Seq::empty());
                    saying(
                        Session::Numbering(Job { options, base, rest, total, plans }),
                        Notice::Opening(total),
                    )
                },
            },
            Session::Numbering(job) => match reply {
                Err(message) => conclude(job, Some(message.clone())),
                Ok(listing) => match next_hotfix_for_base_in(
                    listing.as_str(),
                    job.base.as_str(),
                ) {
                    Err(message) => conclude(job, Some(message)),
                    Ok(next) => if job.options.dry_run {
                        match plan_one(job.base.as_str(), &next, &job.options, "") {
                            Err(message) => conclude(job, Some(message)),
                            Ok(plan) => {
                                let Job { options, base, rest, total, plans } = job;
                                let ghost before = plans_of(plans@);
                                let ghost added = plan@;
                                let mut more = plans;
                                more.push(plan);
                                assert(plans_of(more@) =~= before.push(added));
                                proceed(Job { options, base, rest, total, plans: more })
                            },
                        }
                    } else {
                        silently(Session::CheckingBranch(job, next))
                    },
                },
            },
            Session::CheckingBranch(job, next) => match reply {
                Err(message) => conclude(job, Some(message.clone())),
                Ok(branches) => match plan_one(
                    job.base.as_str(),
                    &next,
                    &job.options,
                    branches.as_str(),
                ) {
                    Err(message) => conclude(job, Some(message)),
                    Ok(plan) => {
                        let cutting = Notice::Cutting(
                            job.base.clone(),
                            plan.hotfix_version.clone(),
                        );
                        let started = execute_one(plan, &job.options);
                        saying(Session::Executing(job, started), cutting)
                    },
                },
            },
            Session::Executing(job, e) => {
                let released = Notice::Released(
                    e.plan.hotfix_version.clone(),
                    e.plan.pushed,
                    e.plan.registered,
                );
                let (progress, remarks) = e.advance(reply);
                match progress {
                    Progress::Ongoing(next) => (Session::Executing(job, next), remarks),
                    Progress::Complete => {
                        let (next, after) = proceed(job);
                        let ghost later = notice::notices(after@);
                        let mut said: Vec<Notice> = Vec::new();
                        said.push(released);
                        let mut more = after;
                        said.append(&mut more);
                        assert(notice::notices(said@) =~= seq![released@] + later);
                        (next, said)
                    },
                    Progress::Failed(message) => conclude(job, Some(message)),
                }
            },
            Session::Finished(success) => silently(Session::Finished(success)),
        }
    }
}

} // verus!
