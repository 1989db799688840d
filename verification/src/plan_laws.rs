//! What holds of targets and plans.
use vstd::prelude::*;

use crate::action;
use crate::options;
use crate::plan;
use crate::tag_laws;
use crate::tags;
use crate::text;
use crate::text_laws;
use crate::version;

verus! {

/// Without `--tag`, every target is the version of a release tag in the listing; the targets
/// are the latest release alone, or exactly the releases newer than the given tag.
pub proof fn law_targets_are_releases(options: options::OptionsView, listing: Seq<char>)
    requires
        options.tag is None,
    ensures
        plan::targets(options, Ok(listing)) matches Ok(bases) ==> {
            &&& forall|i: int|
                0 <= i < bases.len() ==> version::release_version(#[trigger] bases[i]) is Some
                    && tags::listed(listing).contains("v"@ + bases[i])
            &&& options.last_tag is None ==> bases.len() == 1 && tags::last_release(
                tags::listed(listing),
            ) == Some("v"@ + bases[0])
            &&& options.last_tag matches Some(last) ==> (forall|i: int|
                0 <= i < bases.len() ==> tags::newer("v"@ + #[trigger] bases[i], last)) && (
            forall|tag: Seq<char>| #[trigger]
                tags::listed(listing).contains(tag) && version::is_release_tag(tag) && tags::newer(
                    tag,
                    last,
                ) ==> bases.contains(tags::bare(tag)))
        },
{
    let list = tags::listed(listing);
    if let Ok(bases) = plan::targets(options, Ok(listing)) {
        match options.last_tag {
            None => {
                tag_laws::law_latest_release(list);
                tag_laws::law_release_tag_parts(tags::last_release(list)->0);
            },
            Some(last) => {
                let found = tags::releases_since(list, Some(last));
                tag_laws::law_releases_since(list, Some(last));
                assert forall|i: int| 0 <= i < bases.len() implies version::release_version(
                    #[trigger] bases[i],
                ) is Some && list.contains("v"@ + bases[i]) && tags::newer(
                    "v"@ + bases[i],
                    last,
                ) by {
                    assert(found.contains(found[i]));
                    tag_laws::law_release_tag_parts(found[i]);
                }
                assert forall|tag: Seq<char>| #[trigger]
                    list.contains(tag) && version::is_release_tag(tag) && tags::newer(
                        tag,
                        last,
                    ) implies bases.contains(tags::bare(tag)) by {
                    assert(found.contains(tag));
                    let k = choose|k: int| 0 <= k < found.len() && found[k] == tag;
                    assert(bases[k] == tags::bare(tag));
                }
            },
        }
    }
}

/// With `--tag` the one target is the given release, if its tag exists; a last tag does not
/// matter.
pub proof fn law_tag_overrides_last_tag(
    options: options::OptionsView,
    base: Seq<char>,
    reply: action::ReplyView,
)
    requires
        options.tag == Some(base),
    ensures
        plan::targets(options, reply) is Ok <==> reply is Ok,
        plan::targets(options, reply) matches Ok(bases) ==> bases == seq![base],
{
}

/// A plan's hotfix tag is a hotfix tag and the tag of the release it patches is a release tag;
/// it is pushed exactly if pushing or registering was asked for.
pub proof fn law_plan_names_valid_tags(
    base: Seq<char>,
    next: version::VersionView,
    options: options::OptionsView,
)
    requires
        version::release_version(base) is Some,
        next.number > 0,
    ensures
        ({
            let plan = plan::plan_for(base, next, options);
            &&& version::is_hotfix_tag(plan.hotfix_tag)
            &&& version::is_release_tag(plan.release_tag)
            &&& version::hotfix_version(plan.hotfix_version) == Some(next)
            &&& plan.pushed == (options.push || options.register)
        }),
{
    version::law_version_text_parses(next);
    version::law_hotfix_tag_of_version(version::version_text(next));
    version::law_release_tag_of_version(base);
}

/// The tag that a plan is to set is not among the tags that it was numbered by, however the
/// release is spelled.
pub proof fn law_planned_tag_is_unused(
    list: Seq<Seq<char>>,
    base: Seq<char>,
    options: options::OptionsView,
)
    ensures
        tags::next_hotfix(list, base) matches Ok(next) ==> !list.contains(
            plan::plan_for(base, next, options).hotfix_tag,
        ),
{
    tag_laws::law_next_hotfix_is_unused(list, base);
}

/// Outside a dry run a plan is refused exactly if its hotfix branch exists; a dry run refuses
/// none.
pub proof fn law_duplicate_branch_is_refused(
    base: Seq<char>,
    next: version::VersionView,
    options: options::OptionsView,
    branches: Seq<char>,
)
    ensures
        plan::planned(base, next, options, branches) is Err <==> !options.dry_run
            && text::trim(branches).len() > 0,
{
}

/// A plan branches off the tag of its own release, `v` and the release as it was given, whatever
/// the options are; the tag that it sets is `v` and the version that it sets, which is the given
/// hotfix as it is written; its branch is `hotfix/` and the release; it is pushed exactly if
/// pushing or registering was asked for, and registered exactly if registering was.
pub proof fn law_plan_in_words(
    base: Seq<char>,
    next: version::VersionView,
    options: options::OptionsView,
    branches: Seq<char>,
)
    ensures
        plan::planned(base, next, options, branches) matches Ok(plan) ==> {
            &&& plan.base == base
            &&& plan.release_tag == "v"@ + plan.base
            &&& plan.hotfix_version == version::version_text(next)
            &&& plan.hotfix_tag == "v"@ + plan.hotfix_version
            &&& plan.branch == "hotfix/"@ + plan.base
            &&& plan.pushed <==> options.push || options.register
            &&& plan.registered <==> options.register
        },
        plan::planned(base, next, options, branches) matches Err(message) ==> message
            == "hotfix branch '"@ + ("hotfix/"@ + base)
            + "' already exists; resolve/merge it before cutting another hotfix on "@ + base,
        plan::planned(base, next, options, branches) is Ok ==> plan::planned(
            base,
            next,
            options,
            branches,
        ) == Ok::<plan::PlanView, Seq<char>>(plan::plan_for(base, next, options)),
{
}

/// Outside a dry run a plan is refused exactly if the query for its branch printed anything but
/// white space.
pub proof fn law_any_branch_is_refused(
    base: Seq<char>,
    next: version::VersionView,
    options: options::OptionsView,
    branches: Seq<char>,
)
    ensures
        plan::planned(base, next, options, branches) is Err <==> !options.dry_run && exists|i: int|
            0 <= i < branches.len() && !text::is_whitespace(#[trigger] branches[i]),
{
    text_laws::law_blank(branches);
}

/// What `git` is asked: for the version tags; with `--tag`, whether the tag exists that the plan
/// for that release branches off; and whether the branch exists that a plan works on, by its name
/// or by its name as one of `origin`.
pub proof fn law_queries_in_words(
    options: options::OptionsView,
    base: Seq<char>,
    next: version::VersionView,
)
    ensures
        plan::tag_query() == seq!["tag"@, "-l"@, "v*"@],
        options.tag is None ==> plan::target_query(options) == seq!["tag"@, "-l"@, "v*"@],
        options.tag == Some(base) ==> plan::target_query(options) == seq![
            "rev-parse"@,
            "--verify"@,
            "--quiet"@,
            "refs/tags/"@ + ("v"@ + base),
        ] && plan::target_query(options)[3] == "refs/tags/"@ + plan::plan_for(
            base,
            next,
            options,
        ).release_tag,
        plan::branch_query(base) == seq![
            "branch"@,
            "--list"@,
            "hotfix/"@ + base,
            "remotes/origin/"@ + ("hotfix/"@ + base),
        ],
        plan::branch_query(base)[2] == plan::plan_for(base, next, options).branch,
{
}

/// The targets in full. With `--tag`, the given release if its tag exists. Otherwise, if the tags
/// cannot be listed, none, with the reason; with a last tag, one for each release since it, in
/// the same order; and without, the latest release, if there is any.
pub proof fn law_targets_in_full(options: options::OptionsView, reply: action::ReplyView)
    ensures
        options.tag matches Some(base) ==> plan::targets(options, reply) == match reply {
            Ok(_) => Ok(seq![base]),
            Err(_) => Err("release tag "@ + ("v"@ + base) + " does not exist"@),
        },
        options.tag is None ==> match reply {
            Err(message) => plan::targets(options, reply) == Err::<Seq<Seq<char>>, Seq<char>>(
                message,
            ),
            Ok(listing) => match options.last_tag {
                Some(last) => {
                    let since = tags::releases_since(tags::listed(listing), Some(last));
                    plan::targets(options, reply) matches Ok(bases) && bases.len() == since.len()
                        && forall|i: int| 0 <= i < bases.len() ==> since[i] == "v"@ + #[trigger] bases[i]
                },
                None => match tags::last_release(tags::listed(listing)) {
                    Some(tag) => plan::targets(options, reply) matches Ok(bases) && bases.len() == 1
                        && tag == "v"@ + bases[0],
                    None => plan::targets(options, reply) == Err::<Seq<Seq<char>>, Seq<char>>(
                        "no release tags (vX.Y.Z) found"@,
                    ),
                },
            },
        },
{
    if options.tag is None {
        if let Ok(listing) = reply {
            let list = tags::listed(listing);
            match options.last_tag {
                Some(last) => {
                    let since = tags::releases_since(list, Some(last));
                    let bases = plan::targets(options, reply)->Ok_0;
                    tag_laws::law_releases_since(list, Some(last));
                    assert forall|i: int| 0 <= i < bases.len() implies since[i] == "v"@
                        + #[trigger] bases[i] by {
                        assert(since.contains(since[i]));
                        tag_laws::law_release_tag_parts(since[i]);
                    }
                },
                None => {
                    if let Some(tag) = tags::last_release(list) {
                        tag_laws::law_latest_release(list);
                        tag_laws::law_release_tag_parts(tag);
                    }
                },
            }
        }
    }
}

/// The line about a plan reads: the release, the version, the branch and the tag, whether it is
/// pushed, and whether it is registered. Colors only put codes around these four parts.
pub proof fn law_plan_line(plan: plan::PlanView, colors: (bool, bool, bool, bool))
    ensures
        ({
            let dressed = |s: Seq<char>, codes: Seq<char>, on: bool|
                if on {
                    codes + s + "\u{1b}[0m"@
                } else {
                    s
                };
            plan::plan_line(plan, colors) == dressed(plan.base, "\u{1b}[1m"@, colors.0) + " -> "@
                + dressed(plan.hotfix_version, "\u{1b}[36m"@, colors.1) + " on "@ + dressed(
                plan.branch,
                "\u{1b}[1m"@,
                colors.2,
            ) + " (tag "@ + dressed(plan.hotfix_tag, "\u{1b}[36m"@, colors.3) + (if plan.pushed {
                ", pushed to origin"@
            } else {
                ""@
            }) + (if plan.registered {
                ", pipeline register"@
            } else {
                ""@
            }) + ")"@
        }),
{
}

} // verus!
