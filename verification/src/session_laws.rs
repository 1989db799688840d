//! What holds of every run.
use vstd::prelude::*;

use crate::action;
use crate::execution;
use crate::execution::Stage;
use crate::execution_laws;
use crate::notice;
use crate::options;
use crate::plan;
use crate::session;
use crate::tags;
use crate::text;
use crate::text_laws;
use crate::version;

verus! {

/// Where a run is after the given replies to its actions, one after another.
pub open spec fn ran(
    args: Seq<Seq<char>>,
    replies: Seq<action::ReplyView>,
) -> session::SessionView
    decreases replies.len(),
{
    if replies.len() == 0 {
        session::opened(args)
    } else {
        ran(args, replies.drop_last()).step(replies.last()).0
    }
}

/// The action changes neither the repository nor the working tree: it asks `git` for a commit,
/// the status, a list of tags or a list of branches, or does not run `git` and sets no version.
pub open spec fn only_looks(a: action::ActionView) -> bool {
    match a {
        action::ActionView::Locate => true,
        action::ActionView::Exit(_) => true,
        action::ActionView::Capture(args) => {
            ||| args.len() > 0 && (args[0] == "rev-parse"@ || args[0] == "status"@)
            ||| args.len() > 1 && args[0] == "tag"@ && args[1] == "-l"@
            ||| args.len() > 1 && args[0] == "branch"@ && args[1] == "--list"@
        },
        _ => false,
    }
}

/// A run with these options can be here.
pub open spec fn runs_with(s: session::SessionView, o: options::OptionsView) -> bool {
    match s {
        session::SessionView::Locating(request) => request == session::RequestView::Hotfix(o),
        session::SessionView::Listing => false,
        session::SessionView::CheckingRepo(options) => options == o,
        session::SessionView::CheckingTree(options) => options == o && !o.dry_run,
        session::SessionView::Fetching(options) => options == o && !o.dry_run,
        session::SessionView::Resolving(options) => options == o,
        session::SessionView::Numbering(job) => job.options == o && (o.dry_run || job.plans.len()
            == 0),
        session::SessionView::CheckingBranch(job, _) => job.options == o && !o.dry_run
            && job.plans.len() == 0,
        session::SessionView::Executing(job, e) => {
            &&& job.options == o
            &&& !o.dry_run
            &&& job.plans.len() == 0
            &&& e.sha == o.sha
            &&& e.plan.base == job.base
            &&& e.plan.pushed == (o.push || o.register)
            &&& e.plan.registered == o.register
            &&& e.stage == Stage::PushBranch || e.stage == Stage::PushTag ==> e.plan.pushed
        },
        session::SessionView::Finished(_) => true,
    }
}

/// A run can be here, given what it was asked for.
pub open spec fn reachable(s: session::SessionView, request: session::RequestView) -> bool {
    match request {
        session::RequestView::Hotfix(o) => runs_with(s, o),
        session::RequestView::List => s == session::SessionView::Locating(request) || s
            is Listing || s is Finished,
        session::RequestView::Invalid(_) => s == session::SessionView::Locating(request) || s
            is Finished,
    }
}

/// Every run stays where its request lets it be.
proof fn lemma_reachable(args: Seq<Seq<char>>, replies: Seq<action::ReplyView>)
    ensures
        reachable(ran(args, replies), session::request_of(args)),
    decreases replies.len(),
{
    if replies.len() > 0 {
        lemma_reachable(args, replies.drop_last());
    }
}

/// A run moves the remote only if it is no dry run and one of `--push` and `--register` stands on
/// the command line, not only as the value of a `--tag`.
pub proof fn law_pushing_is_gated(args: Seq<Seq<char>>, replies: Seq<action::ReplyView>)
    ensures
        execution_laws::moves_remote(ran(args, replies).action()) ==> {
            &&& options::options_of(args) matches Ok(o)
            &&& o.push || o.register
            &&& !o.dry_run
            &&& options::stands(args, "--push"@) || options::stands(args, "--register"@)
            &&& !options::stands(args, "--dry-run"@)
        },
{
    lemma_reachable(args, replies);
    execution_laws::lemma_words();
    options::law_options_say_what_is_given(args);
}

/// A run changes the repository or the working tree only if it is to cut hotfixes and is no
/// dry run.
pub proof fn law_dry_run_only_looks(args: Seq<Seq<char>>, replies: Seq<action::ReplyView>)
    ensures
        only_looks(ran(args, replies).action()) || (session::request_of(args) matches
            session::RequestView::Hotfix(o) && !o.dry_run),
{
    lemma_reachable(args, replies);
}

/// A run with `--dry-run` on its command line, not only as the value of a `--tag`, changes
/// nothing.
pub proof fn law_dry_run_changes_nothing(args: Seq<Seq<char>>, replies: Seq<action::ReplyView>)
    requires
        options::stands(args, "--dry-run"@),
    ensures
        only_looks(ran(args, replies).action()),
{
    options::law_options_say_what_is_given(args);
    law_dry_run_only_looks(args, replies);
}

/// The run is past its checks.
pub open spec fn under_way(s: session::SessionView) -> bool {
    s is Resolving || s is Numbering || s is CheckingBranch || s is Executing
}

/// The replies of a run that has passed the checks for a real one.
pub open spec fn checks_passed(replies: Seq<action::ReplyView>) -> bool {
    &&& replies.len() >= 4
    &&& replies[0] is Ok
    &&& replies[1] is Ok
    &&& replies[2] matches Ok(status) && text::trim(status).len() == 0
    &&& replies[3] is Ok
}

proof fn lemma_checks(args: Seq<Seq<char>>, replies: Seq<action::ReplyView>)
    requires
        session::request_of(args) matches session::RequestView::Hotfix(o) && !o.dry_run,
    ensures
        ({
            let s = ran(args, replies);
            &&& s is Locating ==> replies.len() == 0
            &&& s is CheckingRepo ==> replies.len() == 1 && replies[0] is Ok
            &&& s is CheckingTree ==> replies.len() == 2 && replies[0] is Ok && replies[1] is Ok
            &&& s is Fetching ==> replies.len() == 3 && replies[0] is Ok && replies[1] is Ok && (
            replies[2] matches Ok(status) && text::trim(status).len() == 0)
            &&& under_way(s) ==> checks_passed(replies)
        }),
    decreases replies.len(),
{
    lemma_reachable(args, replies);
    if replies.len() > 0 {
        let init = replies.drop_last();
        lemma_checks(args, init);
        lemma_reachable(args, init);
        assert forall|i: int| 0 <= i < init.len() implies init[i] == replies[i] by {}
    }
}

/// Before a run changes anything it has found the workspace and the repository, has seen a
/// clean working tree, and has fetched the tags of `origin`.
pub proof fn law_checks_come_first(args: Seq<Seq<char>>, replies: Seq<action::ReplyView>)
    ensures
        !only_looks(ran(args, replies).action()) && !(ran(args, replies) is Fetching)
            ==> checks_passed(replies),
{
    lemma_reachable(args, replies);
    law_dry_run_only_looks(args, replies);
    if !only_looks(ran(args, replies).action()) {
        lemma_checks(args, replies);
    }
}

/// A run that is over stays as it is and says nothing more.
pub proof fn law_finished_is_final(success: bool, reply: action::ReplyView)
    ensures
        session::SessionView::Finished(success).step(reply) == (
            session::SessionView::Finished(success),
            Seq::<notice::NoticeView>::empty(),
        ),
{
}

/// When a plan cannot be made or fails, the run ends there without success and says why: no
/// further release is touched. This is so unless the run is a dry one, which fails only while it
/// has no plan to show.
pub proof fn law_failure_ends_the_run(
    args: Seq<Seq<char>>,
    replies: Seq<action::ReplyView>,
    reply: action::ReplyView,
)
    ensures
        ran(args, replies) matches session::SessionView::Numbering(job) ==> !job.options.dry_run
            || job.plans.len() == 0 ==> match reply {
            Err(message) => ran(args, replies).step(reply) == session::refused(message),
            Ok(listing) => tags::next_hotfix(tags::listed(listing), job.base) matches Err(message)
                ==> ran(args, replies).step(reply) == session::refused(message),
        },
        ran(args, replies) matches session::SessionView::CheckingBranch(job, next) ==> match reply {
            Err(message) => ran(args, replies).step(reply) == session::refused(message),
            Ok(branches) => plan::planned(job.base, next, job.options, branches) matches Err(
                message,
            ) ==> ran(args, replies).step(reply) == session::refused(message),
        },
        ran(args, replies) matches session::SessionView::Executing(_, e) ==> (e.after(reply) matches
            execution::ProgressView::Failed(message) ==> ran(args, replies).step(reply)
            == session::refused(message)),
{
    lemma_reachable(args, replies);
}

/// A conflict is said aloud and never resolved: the run names the commit and the release, and
/// of all that it ever does only the start and the abort are about a cherry-pick.
pub proof fn law_conflicts_are_loud(
    args: Seq<Seq<char>>,
    replies: Seq<action::ReplyView>,
    reply: action::ReplyView,
)
    ensures
        execution_laws::git_words(ran(args, replies).action()) matches Some(words) ==> words.len()
            > 0 && words[0] == "cherry-pick"@ ==> {
            ||| options::options_of(args) matches Ok(o) && words == seq![
                "cherry-pick"@,
                "-x"@,
                o.sha,
            ]
            ||| words == seq!["cherry-pick"@, "--abort"@]
        },
        ran(args, replies) matches session::SessionView::Executing(job, e) ==> (e.stage
            == Stage::Pick && reply is Err ==> ran(args, replies).step(reply).1 == seq![
            notice::NoticeView::Conflict(e.sha, job.base),
        ]),
{
    lemma_reachable(args, replies);
    if let session::SessionView::Executing(_, e) = ran(args, replies) {
        execution_laws::law_conflicts_are_not_resolved(e);
    } else {
        reveal_strlit("cherry-pick");
        reveal_strlit("rev-parse");
        reveal_strlit("status");
        reveal_strlit("tag");
        reveal_strlit("branch");
        reveal_strlit("fetch");
        assert("cherry-pick"@.len() == 11 && "rev-parse"@.len() == 9 && "status"@.len() == 6);
        assert("tag"@.len() == 3 && "branch"@.len() == 6 && "fetch"@.len() == 5);
    }
}

/// How many steps of an execution are left at most.
pub open spec fn steps_left(stage: Stage) -> nat {
    match stage {
        Stage::FindHead => 12,
        Stage::Branch => 11,
        Stage::Pick => 10,
        Stage::Bump => 9,
        Stage::Add => 8,
        Stage::Commit => 7,
        Stage::Tag => 6,
        Stage::PushBranch => 5,
        Stage::PushTag => 4,
        Stage::Return => 3,
        Stage::Abort => 2,
        Stage::Leave => 1,
        Stage::Discard => 0,
    }
}

/// What is left of a run: its phase, the releases to come, and the steps on the one at hand.
pub open spec fn left(s: session::SessionView) -> (nat, nat, nat) {
    match s {
        session::SessionView::Locating(_) => (7, 0, 0),
        session::SessionView::Listing => (6, 0, 0),
        session::SessionView::CheckingRepo(_) => (6, 0, 0),
        session::SessionView::CheckingTree(_) => (5, 0, 0),
        session::SessionView::Fetching(_) => (4, 0, 0),
        session::SessionView::Resolving(_) => (3, 0, 0),
        session::SessionView::Numbering(job) => (2, job.rest.len(), 14),
        session::SessionView::CheckingBranch(job, _) => (2, job.rest.len(), 13),
        session::SessionView::Executing(job, e) => (2, job.rest.len(), steps_left(e.stage)),
        session::SessionView::Finished(_) => (0, 0, 0),
    }
}

/// Less is left at `a` than at `b`.
pub open spec fn less_left(a: (nat, nat, nat), b: (nat, nat, nat)) -> bool {
    if a.0 != b.0 {
        a.0 < b.0
    } else if a.1 != b.1 {
        a.1 < b.1
    } else {
        a.2 < b.2
    }
}

/// Every step of a run that is not over leaves less to do, whatever came of its action: a run
/// ends.
pub proof fn law_runs_end(s: session::SessionView, reply: action::ReplyView)
    requires
        !(s is Finished),
    ensures
        less_left(left(s.step(reply).0), left(s)),
{
}

/// `--list` on a command line goes before everything else; otherwise the line is read as options,
/// and a run starts by looking for the workspace.
pub proof fn law_requests(args: Seq<Seq<char>>)
    ensures
        (exists|i: int| 0 <= i < args.len() && #[trigger] args[i] == "--list"@)
            ==> session::request_of(args) == session::RequestView::List,
        !(exists|i: int| 0 <= i < args.len() && #[trigger] args[i] == "--list"@)
            ==> session::request_of(args) == match options::options_of(args) {
            Ok(o) => session::RequestView::Hotfix(o),
            Err(message) => session::RequestView::Invalid(message),
        },
        session::opened(args) == session::SessionView::Locating(session::request_of(args)),
{
    if exists|i: int| 0 <= i < args.len() && #[trigger] args[i] == "--list"@ {
        let i = choose|i: int| 0 <= i < args.len() && #[trigger] args[i] == "--list"@;
        assert(args.contains(args[i]));
    }
}

/// What a run does at each place, in words.
pub proof fn law_actions_in_words(s: session::SessionView)
    ensures
        s.action() == match s {
            session::SessionView::Locating(_) => action::ActionView::Locate,
            session::SessionView::Listing => action::ActionView::Capture(
                seq!["tag"@, "-l"@, "v*"@],
            ),
            session::SessionView::CheckingRepo(_) => action::ActionView::Capture(
                seq!["rev-parse"@, "--is-inside-work-tree"@],
            ),
            session::SessionView::CheckingTree(_) => action::ActionView::Capture(
                seq!["status"@, "--porcelain"@],
            ),
            session::SessionView::Fetching(_) => action::ActionView::Capture(
                seq!["fetch"@, "origin"@, "--tags"@],
            ),
            session::SessionView::Resolving(o) => action::ActionView::Capture(
                match o.tag {
                    Some(base) => seq![
                        "rev-parse"@,
                        "--verify"@,
                        "--quiet"@,
                        "refs/tags/"@ + ("v"@ + base),
                    ],
                    None => seq!["tag"@, "-l"@, "v*"@],
                },
            ),
            session::SessionView::Numbering(_) => action::ActionView::Capture(
                seq!["tag"@, "-l"@, "v*"@],
            ),
            session::SessionView::CheckingBranch(job, _) => action::ActionView::Capture(
                seq![
                    "branch"@,
                    "--list"@,
                    "hotfix/"@ + job.base,
                    "remotes/origin/"@ + ("hotfix/"@ + job.base),
                ],
            ),
            session::SessionView::Executing(_, e) => e.action(),
            session::SessionView::Finished(success) => action::ActionView::Exit(success),
        },
{
}

/// The first steps of a run. Without a workspace it ends there. A list is then made; a line that
/// cannot be read is answered with the reason and the usage; and to cut hotfixes the repository
/// is checked, then outside a dry run the working tree, of which anything but white space is
/// printed if it is not clean, and then the tags are fetched.
pub proof fn law_first_steps(
    o: options::OptionsView,
    wrong: Seq<char>,
    output: Seq<char>,
    error: Seq<char>,
    request: session::RequestView,
)
    ensures
        ({
            let nothing = Seq::<notice::NoticeView>::empty();
            let failed = (
                session::SessionView::Finished(false),
                seq![notice::NoticeView::Failure(error)],
            );
            let checking = session::SessionView::CheckingRepo(o);
            let looking = session::SessionView::CheckingTree(o);
            let fetching = session::SessionView::Fetching(o);
            let dirty = exists|i: int|
                0 <= i < output.len() && !text::is_whitespace(#[trigger] output[i]);
            &&& session::SessionView::Locating(request).step(Err(error)) == (
                session::SessionView::Finished(false),
                seq![notice::NoticeView::Fatal(error)],
            )
            &&& session::SessionView::Locating(session::RequestView::List).step(Ok(output)) == (
                session::SessionView::Listing,
                nothing,
            )
            &&& session::SessionView::Locating(session::RequestView::Hotfix(o)).step(Ok(output))
                == (checking, nothing)
            &&& session::SessionView::Locating(session::RequestView::Invalid(wrong)).step(
                Ok(output),
            ) == (
                session::SessionView::Finished(false),
                seq![notice::NoticeView::Failure(wrong), notice::NoticeView::Usage],
            )
            &&& checking.step(Err(error)) == failed
            &&& checking.step(Ok(output)) == (
                if o.dry_run {
                    session::SessionView::Resolving(o)
                } else {
                    looking
                },
                nothing,
            )
            &&& looking.step(Err(error)) == failed
            &&& !dirty ==> looking.step(Ok(output)) == (fetching, nothing)
            &&& dirty ==> looking.step(Ok(output)) == (
                session::SessionView::Finished(false),
                seq![
                    notice::NoticeView::Failure(
                        "working tree is not clean; commit or stash changes before a hotfix (use --dry-run to preview)"@,
                    ),
                ],
            )
            &&& fetching.step(Err(error)) == failed
            &&& fetching.step(Ok(output)) == (session::SessionView::Resolving(o), nothing)
        }),
{
    text_laws::law_blank(output);
}

/// `--list` shows every tag of the listing in turn and succeeds; without any, or without a
/// listing, it says so and fails.
pub proof fn law_list(output: Seq<char>, error: Seq<char>)
    ensures
        session::SessionView::Listing.step(Err(error)) == (
            session::SessionView::Finished(false),
            seq![notice::NoticeView::Failure("failed to list tags: "@ + error)],
        ),
        session::SessionView::Listing.step(Ok(output)) == session::tag_list(Ok(output)),
        session::SessionView::Listing.step(Err(error)) == session::tag_list(Err(error)),
        ({
            let (next, said) = session::SessionView::Listing.step(Ok(output));
            let list = tags::listed(output);
            if list.len() == 0 {
                next == session::SessionView::Finished(false) && said == seq![
                    notice::NoticeView::NoTags,
                ]
            } else {
                next == session::SessionView::Finished(true) && said.len() == list.len() && forall|
                    i: int,
                |
                    0 <= i < list.len() ==> #[trigger] said[i] == notice::NoticeView::Tag(list[i])
            }
        }),
{
}

/// Once the targets are known, a run says how many there are and turns to the first of them; it
/// ends if there are none or they cannot be told.
pub proof fn law_resolving(o: options::OptionsView, reply: action::ReplyView)
    ensures
        ({
            let (next, said) = session::SessionView::Resolving(o).step(reply);
            match plan::targets(o, reply) {
                Err(message) => next == session::SessionView::Finished(false) && said == seq![
                    notice::NoticeView::Failure(message),
                ],
                Ok(bases) => if bases.len() == 0 {
                    next == session::SessionView::Finished(false) && said == seq![
                        notice::NoticeView::Failure(
                            "no release tags matched the requested target"@,
                        ),
                    ]
                } else {
                    &&& said == seq![notice::NoticeView::Opening(bases.len() as usize)]
                    &&& next matches session::SessionView::Numbering(job) && job.options == o
                        && job.plans.len() == 0 && job.total == bases.len() as usize && seq![
                        job.base,
                    ] + job.rest == bases
                },
            }
        }),
{
    if let Ok(bases) = plan::targets(o, reply) {
        if bases.len() > 0 {
            assert(seq![bases[0]] + bases.skip(1) =~= bases);
        }
    }
}

/// The step that numbers a hotfix, and the one that looks for its branch. In a dry run the plan
/// joins the others and the next release follows; otherwise the branch is looked for, and if the
/// plan is not refused, the run says which version it cuts and starts to carry the plan out.
pub proof fn law_planning(
    job: session::JobView,
    next: version::VersionView,
    listing: Seq<char>,
    branches: Seq<char>,
)
    ensures
        tags::next_hotfix(tags::listed(listing), job.base) matches Ok(v) ==> {
            let step = session::SessionView::Numbering(job).step(Ok(listing));
            if job.options.dry_run {
                let plans = job.plans.push(plan::plan_for(job.base, v, job.options));
                if job.rest.len() > 0 {
                    step == (
                        session::SessionView::Numbering(
                            session::JobView {
                                base: job.rest[0],
                                rest: job.rest.skip(1),
                                plans,
                                ..job
                            },
                        ),
                        Seq::<notice::NoticeView>::empty(),
                    )
                } else {
                    step.0 == session::SessionView::Finished(true) && step.1.len() == plans.len() + 1
                        && step.1[0] == notice::NoticeView::DryRun && forall|i: int|
                        0 <= i < plans.len() ==> #[trigger] step.1[i + 1]
                            == notice::NoticeView::Plan(plans[i])
                }
            } else {
                step == (
                    session::SessionView::CheckingBranch(job, v),
                    Seq::<notice::NoticeView>::empty(),
                )
            }
        },
        plan::planned(job.base, next, job.options, branches) matches Ok(plan)
            ==> session::SessionView::CheckingBranch(job, next).step(Ok(branches)) == (
            session::SessionView::Executing(job, execution::begun(plan, job.options.sha)),
            seq![notice::NoticeView::Cutting(plan.base, plan.hotfix_version)],
        ),
{
}

/// A run that carries out a plan goes on with what the execution says. When it is complete, the
/// run says what is out and turns to the next release; behind the last one it says how many there
/// were, and succeeds.
pub proof fn law_carrying_out(
    job: session::JobView,
    e: execution::ExecutionView,
    reply: action::ReplyView,
)
    requires
        job.plans.len() == 0,
    ensures
        ({
            let step = session::SessionView::Executing(job, e).step(reply);
            let out = notice::NoticeView::Released(
                e.plan.hotfix_version,
                e.plan.pushed,
                e.plan.registered,
            );
            match e.after(reply) {
                execution::ProgressView::Ongoing(next) => step == (
                    session::SessionView::Executing(job, next),
                    e.remarks(reply),
                ),
                execution::ProgressView::Failed(message) => step == (
                    session::SessionView::Finished(false),
                    seq![notice::NoticeView::Failure(message)],
                ),
                execution::ProgressView::Complete => if job.rest.len() > 0 {
                    step == (
                        session::SessionView::Numbering(
                            session::JobView {
                                base: job.rest[0],
                                rest: job.rest.skip(1),
                                ..job
                            },
                        ),
                        seq![out],
                    )
                } else {
                    step == (
                        session::SessionView::Finished(true),
                        seq![out, notice::NoticeView::Summary(job.total)],
                    )
                },
            }
        }),
{
    let out = notice::NoticeView::Released(
        e.plan.hotfix_version,
        e.plan.pushed,
        e.plan.registered,
    );
    assert(seq![out] + Seq::<notice::NoticeView>::empty() =~= seq![out]);
    assert(seq![out] + seq![notice::NoticeView::Summary(job.total)] =~= seq![
        out,
        notice::NoticeView::Summary(job.total),
    ]);
}

/// A plan that cannot be made ends the run: a dry run that has plans shows them and succeeds, and
/// any other says why and fails.
pub proof fn law_planning_fails(
    job: session::JobView,
    next: version::VersionView,
    reply: action::ReplyView,
)
    ensures
        ({
            let step = session::SessionView::Numbering(job).step(reply);
            let reason = match reply {
                Err(message) => Some(message),
                Ok(listing) => match tags::next_hotfix(tags::listed(listing), job.base) {
                    Err(message) => Some(message),
                    Ok(_) => None,
                },
            };
            reason matches Some(message) ==> if job.plans.len() > 0 {
                step.0 == session::SessionView::Finished(true) && step.1.len() == job.plans.len()
                    + 1 && step.1[0] == notice::NoticeView::DryRun && forall|i: int|
                    0 <= i < job.plans.len() ==> #[trigger] step.1[i + 1]
                        == notice::NoticeView::Plan(job.plans[i])
            } else {
                step == (
                    session::SessionView::Finished(false),
                    seq![notice::NoticeView::Failure(message)],
                )
            }
        }),
        ({
            let step = session::SessionView::CheckingBranch(job, next).step(reply);
            let reason = match reply {
                Err(message) => Some(message),
                Ok(branches) => match plan::planned(job.base, next, job.options, branches) {
                    Err(message) => Some(message),
                    Ok(_) => None,
                },
            };
            job.plans.len() == 0 ==> (reason matches Some(message) ==> step == (
                session::SessionView::Finished(false),
                seq![notice::NoticeView::Failure(message)],
            ))
        }),
{
}

} // verus!
