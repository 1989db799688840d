//! What holds of every spelled and every written version.
use vstd::prelude::*;

use crate::number;
use crate::text;
use crate::text_laws;
use crate::version;

verus! {

/// A number holds no dot.
proof fn lemma_no_dot(s: Seq<char>, n: u64)
    requires
        number::number(s) == Some(n),
    ensures
        !s.contains('.'),
{
    if s.contains('.') {
        version::lemma_number_chars(s, '.');
    }
}

/// A text spells a release version exactly if it is three numbers with a dot between any two,
/// and those are the numbers that it is read as.
pub proof fn law_release_version(s: Seq<char>, base: (u64, u64, u64))
    ensures
        version::release_version(s) == Some(base) <==> exists|
            x: Seq<char>,
            y: Seq<char>,
            z: Seq<char>,
        |
            s == #[trigger] (x + "."@ + y + "."@ + z) && number::number(x) == Some(base.0)
                && number::number(y) == Some(base.1) && number::number(z) == Some(base.2),
{
    reveal_strlit(".");
    let dot = seq!['.'];
    assert("."@ =~= dot);
    let parts = text::split(s, '.');
    if version::release_version(s) == Some(base) {
        text::law_pieces_make_the_whole(s, '.');
        let two = parts.drop_last();
        let one = two.drop_last();
        assert(one.len() == 1 && one[0] == parts[0]);
        assert(text::join(one, dot) == parts[0]);
        assert(text::join(two, dot) == parts[0] + dot + parts[1]);
        assert(s == parts[0] + "."@ + parts[1] + "."@ + parts[2]);
    }
    if exists|x: Seq<char>, y: Seq<char>, z: Seq<char>|
        s == #[trigger] (x + "."@ + y + "."@ + z) && number::number(x) == Some(base.0)
            && number::number(y) == Some(base.1) && number::number(z) == Some(base.2) {
        let (x, y, z) = choose|x: Seq<char>, y: Seq<char>, z: Seq<char>|
            s == #[trigger] (x + "."@ + y + "."@ + z) && number::number(x) == Some(base.0)
                && number::number(y) == Some(base.1) && number::number(z) == Some(base.2);
        lemma_no_dot(x, base.0);
        lemma_no_dot(y, base.1);
        lemma_no_dot(z, base.2);
        text::lemma_split_whole(x, '.');
        text::lemma_split_whole(y, '.');
        text::lemma_split_whole(z, '.');
        text::lemma_split_joint(y, '.', z);
        text::lemma_split_joint(x, '.', y.push('.') + z);
        assert(s =~= x.push('.') + (y.push('.') + z));
        assert(parts =~= seq![x, y, z]);
    }
}

/// A text spells a hotfix version exactly if it is a release version, `-hotfix.` and a number
/// from one on, and those are what it is read as.
pub proof fn law_hotfix_version(s: Seq<char>, v: version::VersionView)
    ensures
        version::hotfix_version(s) == Some(v) <==> v.number > 0 && exists|
            release: Seq<char>,
            digits: Seq<char>,
        |
            s == #[trigger] (release + "-hotfix."@ + digits) && version::release_version(release)
                == Some(v.base) && number::number(digits) == Some(v.number),
{
    if version::hotfix_version(s) == Some(v) {
        version::law_parts_of_hotfix_version(s);
    }
    if v.number > 0 && exists|release: Seq<char>, digits: Seq<char>|
        s == #[trigger] (release + "-hotfix."@ + digits) && version::release_version(release)
            == Some(v.base) && number::number(digits) == Some(v.number) {
        let (release, digits) = choose|release: Seq<char>, digits: Seq<char>|
            s == #[trigger] (release + "-hotfix."@ + digits) && version::release_version(release)
                == Some(v.base) && number::number(digits) == Some(v.number);
        version::law_hotfix_version_of_parts(release, digits);
    }
}

/// A release is written as its three numbers with a dot between any two, and a hotfix as its
/// release, `-hotfix.` and its number, each number the shortest way.
pub proof fn law_written_versions(v: version::VersionView)
    ensures
        version::release_text(v.base) == number::decimal(v.base.0 as nat) + "."@ + number::decimal(
            v.base.1 as nat,
        ) + "."@ + number::decimal(v.base.2 as nat),
        version::version_text(v) == version::release_text(v.base) + "-hotfix."@ + number::decimal(
            v.number as nat,
        ),
{
}

/// Two hotfixes that are written alike are the same: the same release and the same number.
pub proof fn law_writing_tells_versions_apart(a: version::VersionView, b: version::VersionView)
    requires
        a.number > 0,
        b.number > 0,
        version::version_text(a) == version::version_text(b),
    ensures
        a == b,
{
    version::law_version_text_parses(a);
    version::law_version_text_parses(b);
}

/// A tag is a release tag exactly if it is `v` and a release version, and a hotfix tag exactly if
/// it is `v` and a hotfix version.
pub proof fn law_version_tags(tag: Seq<char>)
    ensures
        version::is_release_tag(tag) <==> exists|version: Seq<char>|
            tag == #[trigger] ("v"@ + version) && version::release_version(version) is Some,
        version::is_hotfix_tag(tag) <==> exists|version: Seq<char>|
            tag == #[trigger] ("v"@ + version) && version::hotfix_version(version) is Some,
{
    let bare = text::strip_prefix(tag, "v"@);
    if let Some(version) = bare {
        text_laws::law_strip_prefix(tag, "v"@, version);
        assert(tag == "v"@ + version);
    }
    if exists|version: Seq<char>|
        tag == #[trigger] ("v"@ + version) && version::release_version(version) is Some {
        let version = choose|version: Seq<char>|
            tag == #[trigger] ("v"@ + version) && version::release_version(version) is Some;
        version::law_release_tag_of_version(version);
    }
    if exists|version: Seq<char>|
        tag == #[trigger] ("v"@ + version) && version::hotfix_version(version) is Some {
        let version = choose|version: Seq<char>|
            tag == #[trigger] ("v"@ + version) && version::hotfix_version(version) is Some;
        version::law_hotfix_tag_of_version(version);
    }
}

/// A base is accepted exactly if it is a release version, with its numbers. The message of a
/// refusal tells a text of other than three pieces between dots from one with a piece that is no
/// number.
pub proof fn law_base_version(base: Seq<char>)
    ensures
        match version::base_version(base) {
            Ok(numbers) => version::release_version(base) == Some(numbers),
            Err(message) => version::release_version(base) is None && message == if text::split(
                base,
                '.',
            ).len() == 3 {
                "invalid base version: "@ + base
            } else {
                "not a base version: "@ + base
            },
        },
{
}

} // verus!
