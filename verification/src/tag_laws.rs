//! What holds of listed, selected and numbered tags.
use vstd::prelude::*;

use crate::number;
use crate::tags;
use crate::text;
use crate::text_laws;
use crate::version;

verus! {

/// Some line of `lines` is `tag` but for white space around it.
pub open spec fn on_a_line(lines: Seq<Seq<char>>, tag: Seq<char>) -> bool {
    exists|i: int| 0 <= i < lines.len() && text::trim(#[trigger] lines[i]) == tag
}

proof fn lemma_version_tags(lines: Seq<Seq<char>>, tag: Seq<char>)
    ensures
        tags::version_tags(lines).contains(tag) <==> tags::is_version_tag(tag) && on_a_line(
            lines,
            tag,
        ),
    decreases lines.len(),
{
    if lines.len() > 0 {
        let init = lines.drop_last();
        let kept = tags::version_tags(init);
        let own = text::trim(lines.last());
        lemma_version_tags(init, tag);
        assert(kept.push(own).contains(tag) <==> kept.contains(tag) || own == tag) by {
            if kept.contains(tag) {
                let i = choose|i: int| 0 <= i < kept.len() && kept[i] == tag;
                assert(kept.push(own)[i] == tag);
            }
            if own == tag {
                assert(kept.push(own)[kept.len() as int] == tag);
            }
        }
        assert(on_a_line(lines, tag) <==> on_a_line(init, tag) || own == tag) by {
            if on_a_line(init, tag) {
                let i = choose|i: int| 0 <= i < init.len() && text::trim(#[trigger] init[i]) == tag;
                assert(lines[i] == init[i]);
            }
            if own == tag {
                assert(text::trim(lines[lines.len() - 1]) == tag);
            }
            if on_a_line(lines, tag) && own != tag {
                let i = choose|i: int|
                    0 <= i < lines.len() && text::trim(#[trigger] lines[i]) == tag;
                assert(init[i] == lines[i]);
            }
        }
    }
}

/// A release tag ranks by the three numbers of its version, before all hotfixes on them.
pub proof fn law_rank_of_release_tag(tag: Seq<char>)
    requires
        version::is_release_tag(tag),
    ensures
        version::release_version(tags::bare(tag)) matches Some(base) && tags::rank(tag)
            == (tags::Rank {
            major: base.0,
            minor: base.1,
            patch: base.2,
            hotfix: false,
            number: 0,
        }),
{
    text::lemma_find_iff_contains(tags::bare(tag), "-hotfix."@);
}

/// A hotfix tag ranks by the three numbers of its release, behind that release, and by its own
/// number.
pub proof fn law_rank_of_hotfix_tag(tag: Seq<char>)
    requires
        version::is_hotfix_tag(tag),
    ensures
        version::hotfix_version(tags::bare(tag)) matches Some(v) && tags::rank(tag)
            == (tags::Rank {
            major: v.base.0,
            minor: v.base.1,
            patch: v.base.2,
            hotfix: true,
            number: v.number,
        }),
{
}

/// Ranks are in a strict total order.
pub proof fn law_ranks_are_ordered(a: tags::Rank, b: tags::Rank, c: tags::Rank)
    ensures
        !tags::rank_less(a, a),
        tags::rank_less(a, b) && tags::rank_less(b, c) ==> tags::rank_less(a, c),
        tags::rank_less(a, b) || tags::rank_less(b, a) || a == b,
{
}

/// A listing gives exactly the version tags that stand on its lines, in ascending order.
pub proof fn law_listing(listing: Seq<char>)
    ensures
        tags::ascending(tags::listed(listing)),
        forall|tag: Seq<char>| #[trigger]
            tags::listed(listing).contains(tag) <==> tags::is_version_tag(tag) && on_a_line(
                text::split(listing, '\n'),
                tag,
            ),
{
    let found = tags::version_tags(text::split(listing, '\n'));
    tags::law_ordered(found);
    assert forall|tag: Seq<char>| #[trigger]
        tags::listed(listing).contains(tag) <==> tags::is_version_tag(tag) && on_a_line(
            text::split(listing, '\n'),
            tag,
        ) by {
        lemma_version_tags(text::split(listing, '\n'), tag);
        found.to_multiset_ensures();
        tags::listed(listing).to_multiset_ensures();
        assert(found.contains(tag) <==> found.to_multiset().count(tag) > 0);
        assert(tags::listed(listing).contains(tag) <==> tags::listed(listing).to_multiset().count(
            tag,
        ) > 0);
    }
}

/// The last release of a list is one of its release tags; there is one if the list holds
/// any release tag; and no release tag of an ascending list comes after it.
pub proof fn law_latest_release(list: Seq<Seq<char>>)
    ensures
        tags::last_release(list) is Some <==> exists|i: int|
            0 <= i < list.len() && version::is_release_tag(#[trigger] list[i]),
        tags::last_release(list) matches Some(latest) ==> {
            &&& list.contains(latest)
            &&& version::is_release_tag(latest)
            &&& tags::ascending(list) ==> forall|i: int|
                0 <= i < list.len() && version::is_release_tag(#[trigger] list[i])
                    ==> !tags::rank_less(tags::rank(latest), tags::rank(list[i]))
        },
    decreases list.len(),
{
    if list.len() > 0 {
        let init = list.drop_last();
        let last = list[list.len() - 1];
        if !version::is_release_tag(last) {
            law_latest_release(init);
            if let Some(latest) = tags::last_release(init) {
                let k = choose|k: int| 0 <= k < init.len() && init[k] == latest;
                assert(list[k] == latest);
                if tags::ascending(list) {
                    assert forall|i: int, j: int| 0 <= i < j < init.len() implies !tags::rank_less(
                        tags::rank(#[trigger] init[j]),
                        tags::rank(#[trigger] init[i]),
                    ) by {
                        assert(list[i] == init[i] && list[j] == init[j]);
                    }
                    assert forall|i: int|
                        0 <= i < list.len() && version::is_release_tag(
                            #[trigger] list[i],
                        ) implies !tags::rank_less(tags::rank(latest), tags::rank(list[i])) by {
                        assert(list[i] == init[i]);
                    }
                }
            } else {
                assert forall|i: int| 0 <= i < list.len() implies !version::is_release_tag(
                    #[trigger] list[i],
                ) by {
                    if i < init.len() {
                        assert(list[i] == init[i]);
                    }
                }
            }
        } else {
            assert(list.contains(last));
        }
    }
}

/// The releases since a tag are exactly the release tags of the list that are newer than
/// it, and they stand in ascending order if the list does.
pub proof fn law_releases_since(list: Seq<Seq<char>>, than: Option<Seq<char>>)
    ensures
        forall|tag: Seq<char>| #[trigger]
            tags::releases_since(list, than).contains(tag) <==> list.contains(tag)
                && version::is_release_tag(tag) && (than is None || tags::newer(tag, than->0)),
        tags::ascending(list) ==> tags::ascending(tags::releases_since(list, than)),
    decreases list.len(),
{
    let found = tags::releases_since(list, than);
    if list.len() > 0 {
        let init = list.drop_last();
        let last = list.last();
        let kept = tags::releases_since(init, than);
        law_releases_since(init, than);
        assert forall|tag: Seq<char>| #[trigger]
            found.contains(tag) <==> list.contains(tag) && version::is_release_tag(tag) && (than
                is None || tags::newer(tag, than->0)) by {
            assert(list.contains(tag) <==> init.contains(tag) || tag == last) by {
                if init.contains(tag) {
                    let i = choose|i: int| 0 <= i < init.len() && init[i] == tag;
                    assert(list[i] == tag);
                }
                if list.contains(tag) && tag != last {
                    let i = choose|i: int| 0 <= i < list.len() && list[i] == tag;
                    assert(init[i] == tag);
                }
            }
            assert(kept.push(last).contains(tag) <==> kept.contains(tag) || tag == last) by {
                if kept.contains(tag) {
                    let i = choose|i: int| 0 <= i < kept.len() && kept[i] == tag;
                    assert(kept.push(last)[i] == tag);
                }
                assert(kept.push(last)[kept.len() as int] == last);
            }
        }
        if tags::ascending(list) {
            assert forall|i: int, j: int| 0 <= i < j < init.len() implies !tags::rank_less(
                tags::rank(#[trigger] init[j]),
                tags::rank(#[trigger] init[i]),
            ) by {
                assert(list[i] == init[i] && list[j] == init[j]);
            }
            assert forall|i: int, j: int| 0 <= i < j < found.len() implies !tags::rank_less(
                tags::rank(#[trigger] found[j]),
                tags::rank(#[trigger] found[i]),
            ) by {
                if j < kept.len() {
                    assert(found[i] == kept[i] && found[j] == kept[j]);
                } else {
                    assert(found[i] == kept[i]);
                    assert(kept.contains(kept[i]));
                    let k = choose|k: int| 0 <= k < init.len() && init[k] == kept[i];
                    assert(list[k] == found[i]);
                    assert(found[j] == list[list.len() - 1]);
                }
            }
        }
    }
}

/// A release tag without its `v` is a release version.
pub proof fn law_release_tag_parts(tag: Seq<char>)
    requires
        version::is_release_tag(tag),
    ensures
        version::release_version(tags::bare(tag)) is Some,
        tag == "v"@ + tags::bare(tag),
{
    reveal_strlit("v");
    assert(tag =~= "v"@ + tags::bare(tag));
}

/// No release of an ascending list is newer than its latest release.
pub proof fn law_nothing_since_the_latest(list: Seq<Seq<char>>)
    requires
        tags::ascending(list),
        tags::last_release(list) is Some,
    ensures
        tags::releases_since(list, tags::last_release(list)) == Seq::<Seq<char>>::empty(),
{
    let latest = tags::last_release(list)->0;
    let found = tags::releases_since(list, Some(latest));
    law_latest_release(list);
    law_release_tag_parts(latest);
    law_releases_since(list, Some(latest));
    if found.len() > 0 {
        assert(found.contains(found[0]));
        let i = choose|i: int| 0 <= i < list.len() && list[i] == found[0];
        assert(version::is_release_tag(list[i]));
    }
    assert(found =~= Seq::<Seq<char>>::empty());
}

/// Of two versions at most one is newer than the other, and none is newer than itself.
pub proof fn law_newer_is_strict(a: Seq<char>, b: Seq<char>)
    requires
        tags::is_version(tags::bare(a)),
        tags::is_version(tags::bare(b)),
    ensures
        !(tags::newer(a, b) && tags::newer(b, a)),
        !tags::newer(a, a),
{
}

/// No tag takes a higher number than the highest, and the highest is zero or taken.
pub proof fn law_highest(list: Seq<Seq<char>>, base: Seq<char>)
    ensures
        forall|i: int|
            0 <= i < list.len() ==> tags::taken_number(#[trigger] list[i], base) <= tags::highest(
                list,
                base,
            ),
        tags::highest(list, base) == 0 || exists|i: int|
            0 <= i < list.len() && tags::taken_number(#[trigger] list[i], base) == tags::highest(
                list,
                base,
            ),
    decreases list.len(),
{
    if list.len() > 0 {
        let init = list.drop_last();
        law_highest(init, base);
        assert forall|i: int| 0 <= i < list.len() implies tags::taken_number(
            #[trigger] list[i],
            base,
        ) <= tags::highest(list, base) by {
            if i < init.len() {
                assert(list[i] == init[i]);
            }
        }
        if tags::highest(list, base) != 0 {
            if tags::highest(list, base) == tags::taken_number(list.last(), base) {
                assert(list[list.len() - 1] == list.last());
            } else {
                let i = choose|i: int|
                    0 <= i < init.len() && tags::taken_number(#[trigger] init[i], base)
                        == tags::highest(init, base);
                assert(list[i] == init[i]);
            }
        }
    }
}

/// The tag of a hotfix version takes that version's number on its release.
proof fn lemma_own_tag(v: version::VersionView)
    ensures
        tags::taken_number("v"@ + version::version_text(v), version::release_text(v.base))
            == v.number,
{
    let base = version::release_text(v.base);
    let digits = number::decimal(v.number as nat);
    let prefix = tags::hotfix_prefix(base);
    let tag = "v"@ + version::version_text(v);
    assert(tag =~= prefix + digits);
    assert(tag.take(prefix.len() as int) =~= prefix);
    assert(tag.skip(prefix.len() as int) =~= digits);
    number::law_number_of_decimal(v.number);
}

/// A release has a next hotfix exactly until its last number is taken. That hotfix has a number
/// above every one that is taken on the release, and its tag is not in the list: whether the
/// release is spelled the way that its tags are written or, say, with leading zeros.
pub proof fn law_next_hotfix_is_unused(list: Seq<Seq<char>>, base: Seq<char>)
    ensures
        tags::next_hotfix(list, base) matches Ok(v) ==> {
            let written = version::release_text(v.base);
            &&& Some(v.base) == version::release_version(base)
            &&& v.number > 0
            &&& forall|i: int|
                0 <= i < list.len() ==> tags::taken_number(#[trigger] list[i], base) < v.number
                    && tags::taken_number(list[i], written) < v.number
            &&& !list.contains("v"@ + version::version_text(v))
        },
        version::release_version(base) matches Some(numbers) ==> (tags::next_hotfix(list, base)
            is Err <==> exists|i: int|
            0 <= i < list.len() && (tags::taken_number(#[trigger] list[i], base) == u64::MAX
                || tags::taken_number(list[i], version::release_text(numbers)) == u64::MAX)),
{
    law_highest(list, base);
    if let Some(numbers) = version::release_version(base) {
        law_highest(list, version::release_text(numbers));
    }
    if let Ok(v) = tags::next_hotfix(list, base) {
        let tag = "v"@ + version::version_text(v);
        lemma_own_tag(v);
        if list.contains(tag) {
            let i = choose|i: int| 0 <= i < list.len() && list[i] == tag;
            assert(tags::taken_number(list[i], version::release_text(v.base)) == v.number);
        }
    }
}

/// The tag of a hotfix takes no number on a release that is spelled otherwise than in the tag.
proof fn lemma_other_spelling(v: version::VersionView, base: Seq<char>)
    requires
        version::release_version(base) is Some,
        base != version::release_text(v.base),
    ensures
        tags::taken_number("v"@ + version::version_text(v), base) == 0,
{
    let written = version::release_text(v.base);
    let tag = "v"@ + version::version_text(v);
    let prefix = tags::hotfix_prefix(base);
    let n: int = base.len() as int;
    let m: int = written.len() as int;
    reveal_strlit("v");
    reveal_strlit("-hotfix.");
    version::law_release_text_parses(v.base);
    if text::strip_prefix(tag, prefix) is Some {
        assert(tag.take(prefix.len() as int) == prefix);
        assert(tag[m + 1] == '-');
        assert(prefix[n + 1] == '-');
        assert(tag[n + 1] == '-');
        if n < m {
            assert(written[n] == '-');
            version::lemma_release_chars(written, '-');
        } else if n > m {
            assert(prefix[m + 1] == tag[m + 1]);
            assert(base[m] == '-');
            version::lemma_release_chars(base, '-');
        } else {
            assert forall|i: int| 0 <= i < n implies base[i] == written[i] by {
                assert(prefix[1 + i] == tag[1 + i]);
            }
            assert(base =~= written);
        }
    }
}

/// Once the next hotfix of a release is tagged, the one after it is next, while there is one.
pub proof fn law_tagging_advances(list: Seq<Seq<char>>, base: Seq<char>)
    ensures
        tags::next_hotfix(list, base) matches Ok(v) ==> {
            let tagged = list.push("v"@ + version::version_text(v));
            if v.number < u64::MAX {
                tags::next_hotfix(tagged, base) == Ok::<version::VersionView, Seq<char>>(
                    version::VersionView { base: v.base, number: (v.number + 1) as u64 },
                )
            } else {
                tags::next_hotfix(tagged, base) is Err
            }
        },
{
    if let Ok(v) = tags::next_hotfix(list, base) {
        let tag = "v"@ + version::version_text(v);
        lemma_own_tag(v);
        if base != version::release_text(v.base) {
            lemma_other_spelling(v, base);
        }
        assert(list.push(tag).drop_last() =~= list);
    }
}

/// One `v` in front of a tag is not part of its version.
pub proof fn law_bare(tag: Seq<char>)
    ensures
        tags::bare(seq!['v'] + tag) == tag,
        tag.len() == 0 || tag[0] != 'v' ==> tags::bare(tag) == tag,
{
    reveal_strlit("v");
    assert("v"@ =~= seq!['v']);
    text_laws::law_strip_prefix("v"@ + tag, "v"@, tag);
    if text::strip_prefix(tag, "v"@) is Some {
        assert(tag.take(1)[0] == tag[0]);
    }
}

/// Which of two ranks comes first is decided by the major number; if that is the same, by the
/// minor number, whatever follows; if that is the same too, by the patch number; then a release
/// comes before its hotfixes; and then the hotfix numbers decide.
pub proof fn law_rank_order(a: tags::Rank, b: tags::Rank)
    ensures
        a.major < b.major ==> tags::rank_less(a, b) && !tags::rank_less(b, a),
        a.major == b.major && a.minor < b.minor ==> tags::rank_less(a, b) && !tags::rank_less(b, a),
        a.major == b.major && a.minor == b.minor && a.patch < b.patch ==> tags::rank_less(a, b)
            && !tags::rank_less(b, a),
        a.major == b.major && a.minor == b.minor && a.patch == b.patch ==> {
            &&& !a.hotfix && b.hotfix ==> tags::rank_less(a, b) && !tags::rank_less(b, a)
            &&& a.hotfix == b.hotfix ==> (tags::rank_less(a, b) <==> a.number < b.number)
        },
{
}

/// A version ranks by its numbers, with a `v` in front of it or without; a release counts as no
/// hotfix and has the number zero.
pub proof fn law_rank_of_version(s: Seq<char>)
    ensures
        version::release_version(s) matches Some(base) ==> {
            let r = tags::Rank {
                major: base.0,
                minor: base.1,
                patch: base.2,
                hotfix: false,
                number: 0,
            };
            tags::rank(s) == r && tags::rank(seq!['v'] + s) == r
        },
        version::hotfix_version(s) matches Some(v) ==> {
            let r = tags::Rank {
                major: v.base.0,
                minor: v.base.1,
                patch: v.base.2,
                hotfix: true,
                number: v.number,
            };
            tags::rank(s) == r && tags::rank(seq!['v'] + s) == r
        },
{
    reveal_strlit("v");
    assert("v"@ =~= seq!['v']);
    law_bare(s);
    if version::release_version(s) is Some {
        if s.len() > 0 && s[0] == 'v' {
            version::lemma_release_chars(s, 'v');
        }
        version::law_release_tag_of_version(s);
        version::law_tag_kinds_are_disjoint(seq!['v'] + s);
        assert(text::strip_prefix(seq!['v'] + s, "v"@) == Some(s)) by {
            text_laws::law_strip_prefix(seq!['v'] + s, "v"@, s);
        }
        law_rank_of_release_tag(seq!['v'] + s);
    } else if version::hotfix_version(s) is Some {
        version::law_parts_of_hotfix_version(s);
        let (release, digits) = choose|release: Seq<char>, digits: Seq<char>|
            s == #[trigger] (release + "-hotfix."@ + digits) && version::release_version(release)
                == Some(version::hotfix_version(s)->0.base) && number::number(digits) == Some(
                version::hotfix_version(s)->0.number,
            );
        reveal_strlit("-hotfix.");
        if s[0] == 'v' {
            if release.len() > 0 {
                assert(release[0] == 'v');
                version::lemma_release_chars(release, 'v');
            }
        }
    }
    if version::release_version(s) is Some && version::hotfix_version(s) is Some {
        version::law_hotfix_tag_of_version(s);
        version::law_release_tag_of_version(s);
        version::law_tag_kinds_are_disjoint("v"@ + s);
    }
}

/// A text that is no version ranks by the numbers that its first three pieces between dots
/// spell, each counted as zero if it is missing or spells none.
pub proof fn law_rank_of_other(s: Seq<char>)
    requires
        version::hotfix_version(tags::bare(s)) is None,
    ensures
        ({
            let parts = text::split(tags::bare(s), '.');
            let r = tags::rank(s);
            &&& !r.hotfix
            &&& r.number == 0
            &&& r.major == if parts.len() > 0 && number::number(parts[0]) is Some {
                number::number(parts[0])->0
            } else {
                0
            }
            &&& r.minor == if parts.len() > 1 && number::number(parts[1]) is Some {
                number::number(parts[1])->0
            } else {
                0
            }
            &&& r.patch == if parts.len() > 2 && number::number(parts[2]) is Some {
                number::number(parts[2])->0
            } else {
                0
            }
        }),
{
}

/// Of two versions, the one whose major, minor and patch numbers, kind and hotfix number come
/// later, compared in this turn, is newer than the other. So of two versions that differ in any
/// of these exactly one is newer.
pub proof fn law_newer_goes_by_numbers(a: Seq<char>, b: Seq<char>)
    requires
        version::release_version(tags::bare(a)) is Some || version::hotfix_version(tags::bare(a))
            is Some,
        version::release_version(tags::bare(b)) is Some || version::hotfix_version(tags::bare(b))
            is Some,
    ensures
        ({
            let x = match version::hotfix_version(tags::bare(a)) {
                Some(v) => (v.base, true, v.number),
                None => (version::release_version(tags::bare(a))->0, false, 0u64),
            };
            let y = match version::hotfix_version(tags::bare(b)) {
                Some(v) => (v.base, true, v.number),
                None => (version::release_version(tags::bare(b))->0, false, 0u64),
            };
            &&& tags::newer(a, b) <==> {
                ||| x.0.0 > y.0.0
                ||| x.0.0 == y.0.0 && x.0.1 > y.0.1
                ||| x.0.0 == y.0.0 && x.0.1 == y.0.1 && x.0.2 > y.0.2
                ||| x.0 == y.0 && x.1 && !y.1
                ||| x.0 == y.0 && x.1 == y.1 && x.2 > y.2
            }
            &&& x != y ==> tags::newer(a, b) != tags::newer(b, a)
            &&& x == y ==> !tags::newer(a, b)
        }),
{
    lemma_bare_rank(a);
    lemma_bare_rank(b);
    law_rank_of_version(tags::bare(a));
    law_rank_of_version(tags::bare(b));
}

/// A version has the same rank with and without its `v`.
proof fn lemma_bare_rank(s: Seq<char>)
    requires
        version::release_version(tags::bare(s)) is Some || version::hotfix_version(tags::bare(s))
            is Some,
    ensures
        tags::rank(s) == tags::rank(tags::bare(s)),
{
    reveal_strlit("v");
    assert("v"@ =~= seq!['v']);
    law_rank_of_version(tags::bare(s));
    if let Some(rest) = text::strip_prefix(s, "v"@) {
        text_laws::law_strip_prefix(s, "v"@, rest);
        assert(s == seq!['v'] + tags::bare(s));
    }
}

/// What is newer than a text that is no version comes after it as text, both without their `v`;
/// and whatever is compared with a version is compared by rank.
pub proof fn law_newer_than(tag: Seq<char>, than: Seq<char>)
    ensures
        version::release_version(tags::bare(than)) is None && version::hotfix_version(
            tags::bare(than),
        ) is None ==> (tags::newer(tag, than) <==> text::text_less(
            tags::bare(than),
            tags::bare(tag),
        )),
        version::release_version(tags::bare(than)) is Some || version::hotfix_version(
            tags::bare(than),
        ) is Some ==> (tags::newer(tag, than) <==> tags::rank_less(
            tags::rank(than),
            tags::rank(tag),
        )),
{
}

proof fn lemma_of_rank(list: Seq<Seq<char>>, r: tags::Rank, same: spec_fn(Seq<char>) -> bool)
    requires
        forall|t: Seq<char>| #[trigger] same(t) == (tags::rank(t) == r),
    ensures
        tags::of_rank(list, r) == list.filter(same),
    decreases list.len(),
{
    reveal(Seq::filter);
    if list.len() > 0 {
        lemma_of_rank(list.drop_last(), r, same);
    } else {
        assert(list =~= Seq::empty());
    }
}

/// Ordering keeps every tag as often as it stands in the list, puts none in front of one that
/// comes before it, and leaves the tags of one rank in the order in which they stand.
pub proof fn law_ordering(list: Seq<Seq<char>>, r: tags::Rank)
    ensures
        tags::ordered(list).to_multiset() == list.to_multiset(),
        forall|i: int, j: int|
            0 <= i < j < tags::ordered(list).len() ==> !tags::rank_less(
                tags::rank(#[trigger] tags::ordered(list)[j]),
                tags::rank(#[trigger] tags::ordered(list)[i]),
            ),
        ({
            let same = |t: Seq<char>| tags::rank(t) == r;
            tags::ordered(list).filter(same) == list.filter(same)
        }),
{
    tags::law_ordered(list);
    let same = |t: Seq<char>| tags::rank(t) == r;
    lemma_of_rank(list, r, same);
    lemma_of_rank(tags::ordered(list), r, same);
    assert(tags::of_rank(tags::ordered(list), r) == tags::of_rank(list, r));
}

proof fn lemma_version_tags_kept(
    lines: Seq<Seq<char>>,
    bare: spec_fn(Seq<char>) -> Seq<char>,
    kept: spec_fn(Seq<char>) -> bool,
)
    requires
        forall|l: Seq<char>| #[trigger] bare(l) == text::trim(l),
        forall|t: Seq<char>| #[trigger]
            kept(t) == (version::is_release_tag(t) || version::is_hotfix_tag(t)),
    ensures
        tags::version_tags(lines) == lines.map_values(bare).filter(kept),
    decreases lines.len(),
{
    reveal(Seq::filter);
    let all = lines.map_values(bare);
    if lines.len() > 0 {
        lemma_version_tags_kept(lines.drop_last(), bare, kept);
        assert(all.drop_last() =~= lines.drop_last().map_values(bare));
        assert(all.last() == bare(lines.last()));
    } else {
        assert(all =~= Seq::empty());
    }
}

/// A listing gives the lines without the white space around them, of these the release tags and
/// the hotfix tags, each as often as it stands there, in ascending order.
pub proof fn law_listing_in_full(listing: Seq<char>)
    ensures
        ({
            let bare = |l: Seq<char>| text::trim(l);
            let kept = |t: Seq<char>| version::is_release_tag(t) || version::is_hotfix_tag(t);
            tags::listed(listing) == tags::ordered(
                text::split(listing, '\n').map_values(bare).filter(kept),
            )
        }),
{
    let bare = |l: Seq<char>| text::trim(l);
    let kept = |t: Seq<char>| version::is_release_tag(t) || version::is_hotfix_tag(t);
    lemma_version_tags_kept(text::split(listing, '\n'), bare, kept);
}

proof fn lemma_releases_kept(
    list: Seq<Seq<char>>,
    than: Option<Seq<char>>,
    kept: spec_fn(Seq<char>) -> bool,
)
    requires
        forall|t: Seq<char>| #[trigger]
            kept(t) == (version::is_release_tag(t) && (than matches Some(b) ==> tags::newer(t, b))),
    ensures
        tags::releases_since(list, than) == list.filter(kept),
    decreases list.len(),
{
    reveal(Seq::filter);
    if list.len() > 0 {
        lemma_releases_kept(list.drop_last(), than, kept);
    } else {
        assert(list =~= Seq::empty());
    }
}

/// The releases since a tag are those release tags of the list that are newer than it, each as
/// often as it stands there and in the order of the list; without a tag, all release tags.
pub proof fn law_releases_since_in_full(list: Seq<Seq<char>>, than: Seq<char>)
    ensures
        ({
            let newer = |t: Seq<char>| version::is_release_tag(t) && tags::newer(t, than);
            tags::releases_since(list, Some(than)) == list.filter(newer)
        }),
        ({
            let release = |t: Seq<char>| version::is_release_tag(t);
            tags::releases_since(list, None) == list.filter(release)
        }),
{
    lemma_releases_kept(
        list,
        Some(than),
        |t: Seq<char>| version::is_release_tag(t) && tags::newer(t, than),
    );
    lemma_releases_kept(list, None, |t: Seq<char>| version::is_release_tag(t));
}

/// The last release of a list is the release tag behind which no release tag stands.
pub proof fn law_last_release(list: Seq<Seq<char>>, k: int)
    requires
        0 <= k < list.len(),
        version::is_release_tag(list[k]),
        forall|j: int| k < j < list.len() ==> !version::is_release_tag(#[trigger] list[j]),
    ensures
        tags::last_release(list) == Some(list[k]),
    decreases list.len(),
{
    if k < list.len() - 1 {
        assert(!version::is_release_tag(list[list.len() - 1]));
        let init = list.drop_last();
        assert forall|j: int| k < j < init.len() implies !version::is_release_tag(
            #[trigger] init[j],
        ) by {
            assert(init[j] == list[j]);
        }
        law_last_release(init, k);
    }
}

/// No release of a listing has higher numbers than the latest.
pub proof fn law_latest_has_the_highest_numbers(listing: Seq<char>, tag: Seq<char>)
    requires
        version::is_release_tag(tag),
        tags::listed(listing).contains(tag),
    ensures
        tags::last_release(tags::listed(listing)) matches Some(latest) && {
            let x = version::release_version(tags::bare(latest))->0;
            let y = version::release_version(tags::bare(tag))->0;
            &&& x.0 >= y.0
            &&& x.0 == y.0 ==> x.1 >= y.1
            &&& x.0 == y.0 && x.1 == y.1 ==> x.2 >= y.2
        },
{
    let list = tags::listed(listing);
    let i = choose|i: int| 0 <= i < list.len() && list[i] == tag;
    law_listing(listing);
    law_latest_release(list);
    assert(version::is_release_tag(list[i]));
    let latest = tags::last_release(list)->0;
    law_rank_of_release_tag(latest);
    law_rank_of_release_tag(tag);
    law_rank_order(tags::rank(latest), tags::rank(tag));
}

/// A tag takes a number on a release exactly if it is `v`, the release, `-hotfix.` and that
/// number as it may be spelled.
pub proof fn law_taken_number(tag: Seq<char>, base: Seq<char>, n: u64)
    requires
        n > 0,
    ensures
        tags::taken_number(tag, base) == n <==> exists|digits: Seq<char>|
            tag == #[trigger] ("v"@ + base + "-hotfix."@ + digits) && number::number(digits)
                == Some(n),
{
    let prefix = "v"@ + base + "-hotfix."@;
    if let Some(digits) = text::strip_prefix(tag, prefix) {
        text_laws::law_strip_prefix(tag, prefix, digits);
    }
    if exists|digits: Seq<char>|
        tag == #[trigger] ("v"@ + base + "-hotfix."@ + digits) && number::number(digits) == Some(
            n,
        ) {
        let digits = choose|digits: Seq<char>|
            tag == #[trigger] ("v"@ + base + "-hotfix."@ + digits) && number::number(digits)
                == Some(n);
        text_laws::law_strip_prefix(tag, prefix, digits);
    }
}

/// The next hotfix has the number right behind the highest that is taken on its release, in the
/// spelling given or in the one that tags are written with: one if none is taken, and else one
/// more than a number that some tag takes, which no tag reaches. If the highest number there is
/// has been taken, there is none.
pub proof fn law_next_hotfix_counts_on(list: Seq<Seq<char>>, base: Seq<char>)
    ensures
        version::release_version(base) matches Some(numbers) ==> {
            let written = version::release_text(numbers);
            match tags::next_hotfix(list, base) {
                Ok(v) => {
                    &&& v.base == numbers
                    &&& v.number == 1 || exists|i: int|
                        0 <= i < list.len() && (tags::taken_number(#[trigger] list[i], base)
                            == v.number - 1 || tags::taken_number(list[i], written) == v.number - 1)
                    &&& forall|i: int|
                        0 <= i < list.len() ==> tags::taken_number(#[trigger] list[i], base)
                            < v.number && tags::taken_number(list[i], written) < v.number
                    &&& (forall|i: int|
                        0 <= i < list.len() ==> tags::taken_number(#[trigger] list[i], base) == 0
                            && tags::taken_number(list[i], written) == 0) <==> v.number == 1
                },
                Err(message) => {
                    &&& message == "no hotfix number left for base version: "@ + base
                    &&& exists|i: int|
                        0 <= i < list.len() && (tags::taken_number(#[trigger] list[i], base)
                            == u64::MAX || tags::taken_number(list[i], written) == u64::MAX)
                },
            }
        },
        version::release_version(base) is None ==> tags::next_hotfix(list, base) is Err
            && tags::next_hotfix(list, base)->Err_0 == version::base_version(base)->Err_0,
{
    law_next_hotfix_is_unused(list, base);
    law_highest(list, base);
    if let Some(numbers) = version::release_version(base) {
        law_highest(list, version::release_text(numbers));
    }
}

/// No tag of a hotfix on a release has a number above the highest that is taken on it.
pub proof fn law_no_tag_is_above_the_highest(
    list: Seq<Seq<char>>,
    base: Seq<char>,
    i: int,
    digits: Seq<char>,
)
    requires
        0 <= i < list.len(),
        list[i] == "v"@ + base + "-hotfix."@ + digits,
        number::number(digits) is Some,
    ensures
        number::number(digits)->0 <= tags::highest(list, base),
{
    law_highest(list, base);
    if number::number(digits)->0 > 0 {
        law_taken_number(list[i], base, number::number(digits)->0);
        assert(list[i] == ("v"@ + base + "-hotfix."@ + digits));
    }
}

} // verus!
