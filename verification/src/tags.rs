//! The release and hotfix tags of a repository: listing, order and selection.
use vstd::prelude::*;

use crate::number;
use crate::number::parse_number;
use crate::text;
use crate::text::{before, pieces, trimmed, without_prefix};
use crate::version;
use crate::version::{
    is_valid_hotfix_tag, is_valid_release_tag, parse_base, HotfixVersion,
};

verus! {

/// Where a tag stands in the order of versions: by the numbers of its release, then the
/// release before its hotfixes, then by hotfix number.
#[derive(Clone, Copy, Debug, PartialEq, Eq)]
pub struct Rank {
    pub major: u64,
    pub minor: u64,
    pub patch: u64,
    pub hotfix: bool,
    pub number: u64,
}

/// `a` comes before `b`.
pub open spec fn rank_less(a: Rank, b: Rank) -> bool {
    if a.major != b.major {
        a.major < b.major
    } else if a.minor != b.minor {
        a.minor < b.minor
    } else if a.patch != b.patch {
        a.patch < b.patch
    } else if a.hotfix != b.hotfix {
        b.hotfix
    } else {
        a.number < b.number
    }
}

/// `tag` without the `v` that it may begin with.
pub open spec fn bare(tag: Seq<char>) -> Seq<char> {
    match text::strip_prefix(tag, "v"@) {
        Some(rest) => rest,
        None => tag,
    }
}

/// The number that the piece at index `i` spells; zero where there is none.
pub open spec fn piece_number(parts: Seq<Seq<char>>, i: int) -> u64 {
    if i < parts.len() {
        match number::number(parts[i]) {
            Some(n) => n,
            None => 0,
        }
    } else {
        0
    }
}

/// The rank of a tag, with or without its `v`.
pub open spec fn rank(tag: Seq<char>) -> Rank {
    match version::hotfix_version(bare(tag)) {
        Some(v) => Rank {
            major: v.base.0,
            minor: v.base.1,
            patch: v.base.2,
            hotfix: true,
            number: v.number,
        },
        None => {
            let parts = text::split(bare(tag), '.');
            Rank {
                major: piece_number(parts, 0),
                minor: piece_number(parts, 1),
                patch: piece_number(parts, 2),
                hotfix: false,
                number: 0,
            }
        },
    }
}

/// `sorted` with `tag` put in behind every tag that does not come after it.
pub open spec fn place(sorted: Seq<Seq<char>>, tag: Seq<char>) -> Seq<Seq<char>>
    decreases sorted.len(),
{
    if sorted.len() == 0 || !rank_less(rank(tag), rank(sorted.last())) {
        sorted.push(tag)
    } else {
        place(sorted.drop_last(), tag).push(sorted.last())
    }
}

/// The given tags in ascending order; tags of one rank stay as they stand.
pub open spec fn ordered(tags: Seq<Seq<char>>) -> Seq<Seq<char>>
    decreases tags.len(),
{
    if tags.len() == 0 {
        Seq::empty()
    } else {
        place(ordered(tags.drop_last()), tags.last())
    }
}

/// No tag comes before one that stands in front of it.
pub open spec fn ascending(tags: Seq<Seq<char>>) -> bool {
    forall|i: int, j: int|
        0 <= i < j < tags.len() ==> !rank_less(rank(#[trigger] tags[j]), rank(#[trigger] tags[i]))
}

/// The tags of one rank, as they stand.
pub open spec fn of_rank(tags: Seq<Seq<char>>, r: Rank) -> Seq<Seq<char>>
    decreases tags.len(),
{
    if tags.len() == 0 {
        Seq::empty()
    } else if rank(tags.last()) == r {
        of_rank(tags.drop_last(), r).push(tags.last())
    } else {
        of_rank(tags.drop_last(), r)
    }
}

/// `tag` names a release or a hotfix.
pub open spec fn is_version_tag(tag: Seq<char>) -> bool {
    version::is_release_tag(tag) || version::is_hotfix_tag(tag)
}

/// The version tags among the given lines, each without the white space around it.
pub open spec fn version_tags(lines: Seq<Seq<char>>) -> Seq<Seq<char>>
    decreases lines.len(),
{
    if lines.len() == 0 {
        Seq::empty()
    } else {
        let tag = text::trim(lines.last());
        if is_version_tag(tag) {
            version_tags(lines.drop_last()).push(tag)
        } else {
            version_tags(lines.drop_last())
        }
    }
}

/// The version tags that a listing with one tag to a line holds, in ascending order.
pub open spec fn listed(listing: Seq<char>) -> Seq<Seq<char>> {
    ordered(version_tags(text::split(listing, '\n')))
}

/// The last release tag of a list.
pub open spec fn last_release(tags: Seq<Seq<char>>) -> Option<Seq<char>>
    decreases tags.len(),
{
    if tags.len() == 0 {
        None
    } else if version::is_release_tag(tags.last()) {
        Some(tags.last())
    } else {
        last_release(tags.drop_last())
    }
}

/// `s` is a release version or a hotfix version.
pub open spec fn is_version(s: Seq<char>) -> bool {
    version::release_version(s) is Some || version::hotfix_version(s) is Some
}

/// `tag` is strictly newer than `than`: by rank where `than` is a version, with or without
/// its `v`, and otherwise in the order of a dictionary.
pub open spec fn newer(tag: Seq<char>, than: Seq<char>) -> bool {
    if is_version(bare(than)) {
        rank_less(rank(than), rank(tag))
    } else {
        text::text_less(bare(than), bare(tag))
    }
}

/// The release tags of a list that are newer than the given one, or all of them.
pub open spec fn releases_since(tags: Seq<Seq<char>>, than: Option<Seq<char>>) -> Seq<Seq<char>>
    decreases tags.len(),
{
    if tags.len() == 0 {
        Seq::empty()
    } else {
        let init = releases_since(tags.drop_last(), than);
        let tag = tags.last();
        if version::is_release_tag(tag) && (than is None || newer(tag, than->0)) {
            init.push(tag)
        } else {
            init
        }
    }
}

/// How the tags of the hotfixes on a release begin.
pub open spec fn hotfix_prefix(base: Seq<char>) -> Seq<char> {
    "v"@ + base + "-hotfix."@
}

/// The hotfix number that `tag` takes on the release `base`; zero where it takes none.
pub open spec fn taken_number(tag: Seq<char>, base: Seq<char>) -> u64 {
    match text::strip_prefix(tag, hotfix_prefix(base)) {
        Some(digits) => match number::number(digits) {
            Some(n) => n,
            None => 0,
        },
        None => 0,
    }
}

/// The highest hotfix number that a list of tags takes on the release `base`, or zero.
pub open spec fn highest(tags: Seq<Seq<char>>, base: Seq<char>) -> u64
    decreases tags.len(),
{
    if tags.len() == 0 {
        0
    } else {
        let rest = highest(tags.drop_last(), base);
        let n = taken_number(tags.last(), base);
        if n > rest {
            n
        } else {
            rest
        }
    }
}

/// The highest hotfix number that a list of tags takes on the release with the three `numbers`,
/// in the spelling `base` or in the one that its tags are written with; or zero.
pub open spec fn highest_taken(
    tags: Seq<Seq<char>>,
    base: Seq<char>,
    numbers: (u64, u64, u64),
) -> u64 {
    let given = highest(tags, base);
    let written = highest(tags, version::release_text(numbers));
    if written > given {
        written
    } else {
        given
    }
}

/// What is said of a release whose hotfix numbers are all used up.
pub open spec fn exhausted(base: Seq<char>) -> Seq<char> {
    "no hotfix number left for base version: "@ + base
}

/// The first hotfix on `base` above all that a list of tags holds, or why there is none.
pub open spec fn next_hotfix(tags: Seq<Seq<char>>, base: Seq<char>) -> Result<
    version::VersionView,
    Seq<char>,
> {
    match version::base_version(base) {
        Ok(numbers) => {
            let taken = highest_taken(tags, base, numbers);
            if taken < u64::MAX {
                Ok(version::VersionView { base: numbers, number: (taken + 1) as u64 })
            } else {
                Err(exhausted(base))
            }
        },
        Err(message) => Err(message),
    }
}

/// `tag` without the `v` that it may begin with.
pub fn without_v<'a>(tag: &'a str) -> (r: &'a str)
    ensures
        r@ == bare(tag@),
{
    match without_prefix(tag, "v") {
        Some(rest) => rest,
        None => tag,
    }
}

/// The number that the piece at index `i` spells; zero where there is none.
fn number_at(parts: &Vec<&str>, i: usize) -> (r: u64)
    ensures
        r == piece_number(text::words(parts@), i as int),
{
    if i < parts.len() {
        match parse_number(parts[i]) {
            Some(n) => n,
            None => 0,
        }
    } else {
        0
    }
}

/// The rank of a tag, with or without its `v`.
pub fn rank_of(tag: &str) -> (r: Rank)
    ensures
        r == rank(tag@),
{
    let version = without_v(tag);
    match HotfixVersion::parse(version) {
        Some(hotfix) => {
            let (major, minor, patch) = hotfix.release();
            Rank { major, minor, patch, hotfix: true, number: hotfix.number() }
        },
        None => {
            let parts = pieces(version, '.');
            Rank {
                major: number_at(&parts, 0),
                minor: number_at(&parts, 1),
                patch: number_at(&parts, 2),
                hotfix: false,
                number: 0,
            }
        },
    }
}

/// Whether `a` comes before `b`.
pub fn comes_before(a: &Rank, b: &Rank) -> (r: bool)
    ensures
        r == rank_less(*a, *b),
{
    if a.major != b.major {
        a.major < b.major
    } else if a.minor != b.minor {
        a.minor < b.minor
    } else if a.patch != b.patch {
        a.patch < b.patch
    } else if a.hotfix != b.hotfix {
        b.hotfix
    } else {
        a.number < b.number
    }
}

/// A tag is placed where every tag behind comes after it and the one in front does not.
proof fn lemma_place_is_insert(sorted: Seq<Seq<char>>, tag: Seq<char>, at: int)
    requires
        0 <= at <= sorted.len(),
        forall|k: int| at <= k < sorted.len() ==> rank_less(rank(tag), rank(#[trigger] sorted[k])),
        at > 0 ==> !rank_less(rank(tag), rank(sorted[at - 1])),
    ensures
        place(sorted, tag) == sorted.insert(at, tag),
    decreases sorted.len(),
{
    if at == sorted.len() {
        assert(place(sorted, tag) =~= sorted.insert(at, tag));
    } else {
        assert(rank_less(rank(tag), rank(sorted.last())));
        lemma_place_is_insert(sorted.drop_last(), tag, at);
        assert(place(sorted, tag) =~= sorted.insert(at, tag));
    }
}

/// What `place` keeps: the order, the tags and, for each rank, how its tags stand.
proof fn lemma_place(sorted: Seq<Seq<char>>, tag: Seq<char>)
    ensures
        ascending(sorted) ==> ascending(place(sorted, tag)),
        place(sorted, tag).to_multiset() == sorted.push(tag).to_multiset(),
        forall|r: Rank| #[trigger] of_rank(place(sorted, tag), r) == of_rank(sorted.push(tag), r),
        place(sorted, tag).len() == sorted.len() + 1,
        forall|i: int|
            0 <= i < place(sorted, tag).len() ==> #[trigger] place(sorted, tag)[i] == tag
                || sorted.contains(place(sorted, tag)[i]),
    decreases sorted.len(),
{
    broadcast use vstd::seq_lib::group_to_multiset_ensures;

    let placed = place(sorted, tag);
    if sorted.len() == 0 || !rank_less(rank(tag), rank(sorted.last())) {
        if ascending(sorted) {
            assert forall|i: int, j: int| 0 <= i < j < placed.len() implies !rank_less(
                rank(#[trigger] placed[j]),
                rank(#[trigger] placed[i]),
            ) by {
                if j == sorted.len() {
                    assert(!rank_less(rank(sorted.last()), rank(sorted[i])) || i == sorted.len() - 1);
                }
            }
        }
    } else {
        let init = sorted.drop_last();
        let last = sorted.last();
        let inner = place(init, tag);
        lemma_place(init, tag);
        assert(placed.drop_last() =~= inner);
        assert(sorted =~= init.push(last));
        assert(sorted.push(tag).drop_last() =~= sorted);
        assert(init.push(tag).drop_last() =~= init);
        assert(placed.to_multiset() =~= sorted.push(tag).to_multiset());
        assert forall|r: Rank| #[trigger] of_rank(placed, r) == of_rank(sorted.push(tag), r) by {
            assert(of_rank(inner, r) == of_rank(init.push(tag), r));
            assert(placed.last() == last && sorted.push(tag).last() == tag);
            assert(init.push(tag).last() == tag && sorted.last() == last);
            assert(rank(tag) != rank(last));
            assert(of_rank(sorted.push(tag), r) == if rank(tag) == r {
                of_rank(sorted, r).push(tag)
            } else {
                of_rank(sorted, r)
            });
        }
        assert forall|i: int| 0 <= i < placed.len() implies #[trigger] placed[i] == tag
            || sorted.contains(placed[i]) by {
            if i < inner.len() {
                assert(placed[i] == inner[i]);
                if inner[i] != tag {
                    let k = choose|k: int| 0 <= k < init.len() && init[k] == inner[i];
                    assert(sorted[k] == placed[i]);
                }
            } else {
                assert(placed[i] == sorted[sorted.len() - 1]);
            }
        }
        if ascending(sorted) {
            assert forall|i: int, j: int| 0 <= i < j < init.len() implies !rank_less(
                rank(#[trigger] init[j]),
                rank(#[trigger] init[i]),
            ) by {
                assert(init[i] == sorted[i] && init[j] == sorted[j]);
            }
            assert forall|i: int, j: int| 0 <= i < j < placed.len() implies !rank_less(
                rank(#[trigger] placed[j]),
                rank(#[trigger] placed[i]),
            ) by {
                assert(placed[i] == inner[i]);
                if j < inner.len() {
                    assert(placed[j] == inner[j]);
                } else if inner[i] != tag {
                    let k = choose|k: int| 0 <= k < init.len() && init[k] == inner[i];
                    assert(sorted[k] == placed[i]);
                    assert(!rank_less(rank(sorted[sorted.len() - 1]), rank(sorted[k])));
                }
            }
        }
    }
}

/// Ordering puts tags in ascending order, keeps every tag as often as it occurs, and
/// leaves tags of one rank as they stand.
pub proof fn law_ordered(tags: Seq<Seq<char>>)
    ensures
        ascending(ordered(tags)),
        ordered(tags).to_multiset() == tags.to_multiset(),
        forall|r: Rank| #[trigger] of_rank(ordered(tags), r) == of_rank(tags, r),
        ordered(tags).len() == tags.len(),
    decreases tags.len(),
{
    if tags.len() == 0 {
        assert(ordered(tags) =~= tags);
    } else {
        broadcast use vstd::seq_lib::group_to_multiset_ensures;

        let init = tags.drop_last();
        law_ordered(init);
        lemma_place(ordered(init), tags.last());
        assert(tags =~= init.push(tags.last()));
        assert(ordered(init).push(tags.last()).drop_last() =~= ordered(init));
        assert(ordered(tags).to_multiset() =~= tags.to_multiset());
        assert forall|r: Rank| #[trigger] of_rank(ordered(tags), r) == of_rank(tags, r) by {
            assert(of_rank(ordered(init), r) == of_rank(init, r));
        }
    }
}

/// Order release/hotfix tags by their numeric version (release first, then hotfix
/// number). Mutates `tags` in place.
pub fn sort_release_tags(tags: &mut [String])
    ensures
        text::texts(final(tags)@) == ordered(text::texts(old(tags)@)),
        ascending(text::texts(final(tags)@)),
        text::texts(final(tags)@).to_multiset() == text::texts(old(tags)@).to_multiset(),
        forall|r: Rank| #[trigger]
            of_rank(text::texts(final(tags)@), r) == of_rank(text::texts(old(tags)@), r),
{
    let ghost given = text::texts(tags@);
    let mut ranks: Vec<Rank> = Vec::new();
    let count = tags.len();
    for i in 0..count
        invariant
            count == tags@.len(),
            given.len() == count,
            ranks@.len() == i,
            text::texts(tags@).take(i as int) == ordered(given.take(i as int)),
            text::texts(tags@).skip(i as int) == given.skip(i as int),
            forall|k: int| 0 <= k < i ==> ranks@[k] == rank(#[trigger] tags@[k]@),
    {
        let ghost sorted = text::texts(tags@).take(i as int);
        let tag = tags[i].clone();
        let own = rank_of(tag.as_str());
        assert(text::texts(tags@).skip(i as int)[0] == tag@);
        assert(given.skip(i as int)[0] == given[i as int]);
        let mut at: usize = i;
        while at > 0 && comes_before(&own, &ranks[at - 1])
            invariant
                at <= i < count,
                count == tags@.len(),
                own == rank(tag@),
                sorted == text::texts(tags@).take(i as int),
                ranks@.len() == i,
                forall|k: int| 0 <= k < i ==> ranks@[k] == rank(#[trigger] tags@[k]@),
                forall|k: int| at <= k < i ==> rank_less(own, rank(#[trigger] sorted[k])),
            decreases at,
        {
            assert(sorted[at - 1] == tags@[at - 1]@);
            at = at - 1;
        }
        proof {
            if at > 0 {
                assert(sorted[at - 1] == tags@[at - 1]@);
            }
            lemma_place_is_insert(sorted, tag@, at as int);
            assert(given.take(i + 1).drop_last() =~= given.take(i as int));
        }
        ranks.insert(at, own);
        let mut k: usize = i;
        let ghost start = text::texts(tags@);
        while k > at
            invariant
                at <= k <= i < count,
                count == tags@.len(),
                start.len() == count,
                forall|j: int| 0 <= j < k ==> (#[trigger] tags@[j])@ == start[j],
                forall|j: int| k < j <= i ==> (#[trigger] tags@[j])@ == start[j - 1],
                forall|j: int| i < j < count ==> (#[trigger] tags@[j])@ == start[j],
            decreases k,
        {
            let moved = tags[k - 1].clone();
            tags[k] = moved;
            k = k - 1;
        }
        tags[at] = tag;
        assert(text::texts(tags@).take(i + 1) =~= sorted.insert(at as int, tag@));
        assert(text::texts(tags@).skip(i + 1) =~= start.skip(i as int).skip(1));
        assert(given.skip(i as int).skip(1) =~= given.skip(i + 1));
        assert forall|j: int| 0 <= j < i + 1 implies ranks@[j] == rank(#[trigger] tags@[j]@) by {
            assert(text::texts(tags@).take(i + 1)[j] == tags@[j]@);
            if j < at {
                assert(sorted[j] == start[j]);
            } else if j > at {
                assert(sorted[j - 1] == start[j - 1]);
            }
        }
    }
    proof {
        assert(text::texts(tags@).take(count as int) =~= text::texts(tags@));
        assert(given.take(count as int) =~= given);
        law_ordered(given);
    }
}

/// List every release tag (`vX.Y.Z`) and hotfix tag (`vX.Y.Z-hotfix.N`) of a listing
/// with one tag to a line, sorted ascending.
pub fn list_tags_in(listing: &str) -> (r: Vec<String>)
    ensures
        text::texts(r@) == listed(listing@),
{
    let lines = pieces(listing, '\n');
    let mut tags: Vec<String> = Vec::new();
    let ghost all = text::words(lines@);
    assert(text::texts(tags@) =~= version_tags(all.take(0)));
    for i in 0..lines.len()
        invariant
            all == text::words(lines@),
            text::texts(tags@) == version_tags(all.take(i as int)),
    {
        let tag = trimmed(lines[i]);
        assert(all.take(i + 1).drop_last() =~= all.take(i as int));
        if is_valid_release_tag(tag) || is_valid_hotfix_tag(tag) {
            let ghost kept = tags@;
            tags.push(tag.to_owned());
            assert(text::texts(tags@) =~= text::texts(kept).push(tag@));
        }
    }
    assert(all.take(lines@.len() as int) =~= all);
    sort_release_tags(&mut tags);
    tags
}

/// The last release tag of a list, e.g. `v0.0.27`. Ignores hotfix tags.
pub fn latest_release_tag(tags: &[String]) -> (r: Result<String, String>)
    ensures
        match r {
            Ok(tag) => last_release(text::texts(tags@)) == Some(tag@),
            Err(message) => last_release(text::texts(tags@)) is None && message@
                == "no release tags (vX.Y.Z) found"@,
        },
{
    let ghost all = text::texts(tags@);
    let mut i: usize = tags.len();
    assert(all.take(i as int) =~= all);
    while i > 0
        invariant
            i <= tags@.len(),
            all == text::texts(tags@),
            last_release(all) == last_release(all.take(i as int)),
        decreases i,
    {
        assert(all.take(i as int).last() == tags@[i - 1]@);
        if is_valid_release_tag(tags[i - 1].as_str()) {
            return Ok(tags[i - 1].clone());
        }
        assert(all.take(i as int).drop_last() =~= all.take(i - 1));
        i = i - 1;
    }
    Err("no release tags (vX.Y.Z) found".to_owned())
}

/// The most recent release tag of a listing.
pub fn latest_release_tag_in(listing: &str) -> (r: Result<String, String>)
    ensures
        match r {
            Ok(tag) => last_release(listed(listing@)) == Some(tag@),
            Err(message) => last_release(listed(listing@)) is None && message@
                == "no release tags (vX.Y.Z) found"@,
        },
{
    let tags = list_tags_in(listing);
    latest_release_tag(&tags)
}

/// Whether `tag` is strictly newer than `than`.
pub fn is_newer(tag: &str, than: &str) -> (r: bool)
    ensures
        r == newer(tag@, than@),
{
    let from = without_v(than);
    if parse_base(from).is_ok() || HotfixVersion::parse(from).is_some() {
        comes_before(&rank_of(than), &rank_of(tag))
    } else {
        before(from, without_v(tag))
    }
}

/// Release tags of a list strictly newer than `before`, as they stand. `before` may be
/// `None` to mean "all release tags".
pub fn release_tags_since(tags: &[String], before: Option<&str>) -> (r: Vec<String>)
    ensures
        text::texts(r@) == releases_since(text::texts(tags@), text::maybe_word(before)),
{
    let ghost all = text::texts(tags@);
    let ghost than = text::maybe_word(before);
    let mut found: Vec<String> = Vec::new();
    assert(text::texts(found@) =~= releases_since(all.take(0), than));
    for i in 0..tags.len()
        invariant
            all == text::texts(tags@),
            than == text::maybe_word(before),
            text::texts(found@) == releases_since(all.take(i as int), than),
    {
        assert(all.take(i + 1).drop_last() =~= all.take(i as int));
        let tag = tags[i].as_str();
        let wanted = match before {
            Some(from) => is_newer(tag, from),
            None => true,
        };
        if is_valid_release_tag(tag) && wanted {
            let ghost kept = found@;
            found.push(tags[i].clone());
            assert(text::texts(found@) =~= text::texts(kept).push(tag@));
        }
    }
    assert(all.take(tags@.len() as int) =~= all);
    found
}

/// Release tags of a listing strictly newer than `before` up to the latest release,
/// ascending.
pub fn release_tags_since_in(listing: &str, before: Option<&str>) -> (r: Vec<String>)
    ensures
        text::texts(r@) == releases_since(listed(listing@), text::maybe_word(before)),
{
    let tags = list_tags_in(listing);
    release_tags_since(&tags, before)
}

/// The highest hotfix number (`N`) that a list of tags takes for base `X.Y.Z`, or `0`.
pub fn existing_hotfix_max(tags: &[String], base: &str) -> (r: u64)
    ensures
        r == highest(text::texts(tags@), base@),
{
    let mut prefix = "v".to_owned();
    prefix.append(base);
    prefix.append("-hotfix.");
    let ghost all = text::texts(tags@);
    let mut max: u64 = 0;
    for i in 0..tags.len()
        invariant
            all == text::texts(tags@),
            prefix@ == hotfix_prefix(base@),
            max == highest(all.take(i as int), base@),
    {
        assert(all.take(i + 1).drop_last() =~= all.take(i as int));
        if let Some(digits) = without_prefix(tags[i].as_str(), prefix.as_str()) {
            if let Some(n) = parse_number(digits) {
                if n > max {
                    max = n;
                }
            }
        }
    }
    assert(all.take(tags@.len() as int) =~= all);
    max
}

/// The highest hotfix number (`N`) already tagged for base `X.Y.Z`, or `0`.
pub fn existing_hotfix_max_in(listing: &str, base: &str) -> (r: u64)
    ensures
        r == highest(listed(listing@), base@),
{
    let tags = list_tags_in(listing);
    existing_hotfix_max(&tags, base)
}

/// The next unused hotfix version for a base release, e.g. `0.0.27-hotfix.3`; an error if `base`
/// is not `X.Y.Z` or if its last number is taken.
pub fn next_hotfix_for_base(tags: &[String], base: &str) -> (r: Result<HotfixVersion, String>)
    ensures
        match r {
            Ok(v) => next_hotfix(text::texts(tags@), base@) == Ok::<
                version::VersionView,
                Seq<char>,
            >(v@),
            Err(message) => next_hotfix(text::texts(tags@), base@) == Err::<
                version::VersionView,
                Seq<char>,
            >(message@),
        },
{
    match parse_base(base) {
        Ok(numbers) => {
            let written = HotfixVersion::new(numbers, 1).base();
            let mut taken: u64 = existing_hotfix_max(tags, base);
            let written_max: u64 = existing_hotfix_max(tags, written.as_str());
            if written_max > taken {
                taken = written_max;
            }
            if taken < u64::MAX {
                Ok(HotfixVersion::new(numbers, taken + 1))
            } else {
                Err("no hotfix number left for base version: ".to_owned().concat(base))
            }
        },
        Err(message) => Err(message),
    }
}

/// The next unused hotfix version for a base, from a listing of the repository's tags.
pub fn next_hotfix_for_base_in(listing: &str, base: &str) -> (r: Result<HotfixVersion, String>)
    ensures
        match r {
            Ok(v) => next_hotfix(listed(listing@), base@) == Ok::<version::VersionView, Seq<char>>(
                v@,
            ),
            Err(message) => next_hotfix(listed(listing@), base@) == Err::<
                version::VersionView,
                Seq<char>,
            >(message@),
        },
{
    let tags = list_tags_in(listing);
    next_hotfix_for_base(&tags, base)
}

} // verus!
