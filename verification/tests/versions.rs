//! Versions, tags and their order.
use hotfix::number::{parse_number, show_number};
use hotfix::tags::{comes_before, is_newer, rank_of};
use hotfix::text::{before, chars_of, joined, part_at, pieces, same, trimmed, without_prefix};
use hotfix::{
    existing_hotfix_max, existing_hotfix_max_in, is_valid_hotfix_tag, is_valid_release_tag,
    latest_release_tag, latest_release_tag_in, list_tags_in, next_hotfix_for_base,
    next_hotfix_for_base_in, parse_base, release_tags_since, release_tags_since_in,
    sort_release_tags, HotfixVersion,
};

/// What `git tag -l` prints for the given tags.
fn listing(tags: &[&str]) -> String {
    let mut text = String::new();
    for tag in tags {
        text.push_str(tag);
        text.push('\n');
    }
    text
}

fn strings(list: &[&str]) -> Vec<String> {
    list.iter().map(|s| s.to_string()).collect()
}

#[test]
fn parses_hotfix_version() {
    let hv = HotfixVersion::parse("0.0.27-hotfix.1").unwrap();
    assert_eq!(hv.base(), "0.0.27");
    assert_eq!(hv.to_string(), "0.0.27-hotfix.1");
}

#[test]
fn rejects_invalid_hotfix_versions() {
    assert!(HotfixVersion::parse("0.0.27").is_none());
    assert!(HotfixVersion::parse("0.0.27-hotfix.0").is_none());
    assert!(HotfixVersion::parse("0.0.27-hotfix").is_none());
    assert!(HotfixVersion::parse("0.0.27-hotfix.1.5").is_none());
    assert!(HotfixVersion::parse("hotfix.1").is_none());
    assert!(HotfixVersion::parse("").is_none());
}

#[test]
fn validates_tag_shapes() {
    assert!(is_valid_release_tag("v0.0.27"));
    assert!(!is_valid_release_tag("v0.0.27-hotfix.1"));
    assert!(!is_valid_release_tag("vfoo"));
    assert!(is_valid_hotfix_tag("v0.0.27-hotfix.1"));
    assert!(!is_valid_hotfix_tag("v0.0.27"));
    assert!(!is_valid_hotfix_tag("v0.0.27-hotfix.0"));
}

#[test]
fn next_hotfix_increments_per_base() {
    let tags = strings(&["v0.0.26", "v0.0.27", "v0.0.27-hotfix.1"]);
    assert_eq!(
        next_hotfix_for_base(&tags, "0.0.99").unwrap().to_string(),
        "0.0.99-hotfix.1"
    );
    assert_eq!(
        next_hotfix_for_base(&tags, "1.2.3").unwrap().to_string(),
        "1.2.3-hotfix.1"
    );
}

#[test]
fn lists_and_orders_release_and_hotfix_tags() {
    let printed = listing(&[
        "v0.0.25",
        "v0.0.26",
        "v0.0.27",
        "v0.0.27-hotfix.1",
        "v0.0.27-hotfix.2",
        "v0.0.28",
    ]);
    let tags = list_tags_in(&printed);
    // Release tags first, hotfix tags interleaved by base, ascending.
    assert_eq!(
        tags,
        vec![
            "v0.0.25".to_string(),
            "v0.0.26".to_string(),
            "v0.0.27".to_string(),
            "v0.0.27-hotfix.1".to_string(),
            "v0.0.27-hotfix.2".to_string(),
            "v0.0.28".to_string(),
        ]
    );
}

#[test]
fn latest_release_ignores_hotfix_tags() {
    let printed = listing(&["v0.0.26", "v0.0.27", "v0.0.27-hotfix.1"]);
    assert_eq!(
        latest_release_tag_in(&printed).unwrap(),
        "v0.0.27".to_string()
    );
}

#[test]
fn release_tags_since_excludes_hotfix_and_older() {
    let printed = listing(&[
        "v0.0.25",
        "v0.0.26",
        "v0.0.27",
        "v0.0.27-hotfix.1",
        "v0.0.28",
    ]);
    let since = release_tags_since_in(&printed, Some("0.0.26"));
    assert_eq!(since, vec!["v0.0.27".to_string(), "v0.0.28".to_string()]);
}

#[test]
fn existing_hotfix_max_and_next_increment() {
    let printed = listing(&["v0.0.27", "v0.0.27-hotfix.1", "v0.0.27-hotfix.2"]);
    assert_eq!(existing_hotfix_max_in(&printed, "0.0.27"), 2);
    let next = next_hotfix_for_base_in(&printed, "0.0.27").unwrap();
    assert_eq!(next.to_string(), "0.0.27-hotfix.3");
}

#[test]
fn next_hotfix_for_untagged_base_starts_at_one() {
    let printed = listing(&["v0.0.27", "v0.0.27-hotfix.2"]);
    // Even with a gap (only .2 exists, no .1), we take max+1.
    assert_eq!(
        next_hotfix_for_base_in(&printed, "0.0.27")
            .unwrap()
            .to_string(),
        "0.0.27-hotfix.3"
    );

    let other = listing(&["v0.0.99"]);
    assert_eq!(
        next_hotfix_for_base_in(&other, "0.0.99")
            .unwrap()
            .to_string(),
        "0.0.99-hotfix.1"
    );
}

#[test]
fn numbers_are_spelled_with_digits_and_at_most_one_plus() {
    assert_eq!(parse_number("0"), Some(0));
    assert_eq!(parse_number("007"), Some(7));
    assert_eq!(parse_number("+7"), Some(7));
    assert_eq!(parse_number("18446744073709551615"), Some(u64::MAX));
    assert_eq!(parse_number("00018446744073709551615"), Some(u64::MAX));
    assert_eq!(parse_number("18446744073709551616"), None);
    assert_eq!(parse_number("99999999999999999999999"), None);
    for wrong in ["", "+", "-1", "++1", "1+", " 1", "1 ", "a", "1a", "\u{661}"] {
        assert_eq!(parse_number(wrong), None);
        assert!(wrong.parse::<u64>().is_err());
    }
}

#[test]
fn numbers_are_read_back_as_written() {
    for n in [0, 1, 9, 10, 27, 99, 100, 12345, u64::MAX] {
        assert_eq!(show_number(n), n.to_string());
        assert_eq!(parse_number(&show_number(n)), Some(n));
    }
}

#[test]
fn versions_are_read_back_as_written() {
    let v = HotfixVersion::new((1, 20, 300), 4000);
    assert_eq!(v.to_string(), "1.20.300-hotfix.4000");
    assert_eq!(HotfixVersion::parse(&v.to_string()), Some(v));
    let last = HotfixVersion::new((0, 0, 0), u64::MAX);
    assert_eq!(last.to_string(), "0.0.0-hotfix.18446744073709551615");
    assert_eq!(HotfixVersion::parse(&last.to_string()), Some(last));
}

#[test]
fn next_version_counts_on() {
    let v = HotfixVersion::parse("0.0.27-hotfix.9").unwrap();
    assert_eq!(v.number(), 9);
    assert_eq!(v.release(), (0, 0, 27));
    assert_eq!(v.next().to_string(), "0.0.27-hotfix.10");
    assert_eq!(v.to_string(), "0.0.27-hotfix.9");
}

#[test]
fn versions_may_be_spelled_loosely() {
    let v = HotfixVersion::parse("+1.02.3-hotfix.+04").unwrap();
    assert_eq!(v.to_string(), "1.2.3-hotfix.4");
    assert!(HotfixVersion::parse("1.2.3.4-hotfix.1").is_none());
    assert!(HotfixVersion::parse("1.2-hotfix.1").is_none());
    assert!(HotfixVersion::parse("1..3-hotfix.1").is_none());
    assert!(HotfixVersion::parse("1.2.3-hotfix.1-hotfix.2").is_none());
    assert!(HotfixVersion::parse("v1.2.3-hotfix.1").is_none());
}

#[test]
fn tags_need_exactly_one_v() {
    assert!(!is_valid_release_tag("0.0.27"));
    assert!(!is_valid_release_tag("vv0.0.27"));
    assert!(!is_valid_release_tag("v0.0"));
    assert!(!is_valid_release_tag("v0.0.27.1"));
    assert!(!is_valid_release_tag("v"));
    assert!(!is_valid_release_tag(""));
    assert!(is_valid_release_tag("v+1.2.3"));
    assert!(!is_valid_hotfix_tag("0.0.27-hotfix.1"));
    assert!(!is_valid_hotfix_tag("V0.0.27-hotfix.1"));
}

#[test]
fn no_tag_is_both_release_and_hotfix() {
    for tag in ["v0.0.27", "v0.0.27-hotfix.1", "vfoo", "", "v1.2.3-hotfix.0"] {
        assert!(!(is_valid_release_tag(tag) && is_valid_hotfix_tag(tag)));
    }
}

#[test]
fn base_versions_are_three_numbers() {
    assert_eq!(parse_base("0.0.27"), Ok((0, 0, 27)));
    assert_eq!(
        parse_base("0.27"),
        Err("not a base version: 0.27".to_string())
    );
    assert_eq!(parse_base(""), Err("not a base version: ".to_string()));
    assert_eq!(
        parse_base("1.2.3.4"),
        Err("not a base version: 1.2.3.4".to_string())
    );
    assert_eq!(
        parse_base("v0.0.27"),
        Err("invalid base version: v0.0.27".to_string())
    );
    assert_eq!(
        parse_base("1..3"),
        Err("invalid base version: 1..3".to_string())
    );
}

#[test]
fn order_is_numeric_and_puts_a_release_before_its_hotfixes() {
    let mut tags = strings(&[
        "v0.0.10",
        "v0.0.9-hotfix.10",
        "v1.0.0",
        "v0.0.9-hotfix.9",
        "v0.10.0",
        "v0.0.9",
        "v0.9.0",
    ]);
    sort_release_tags(&mut tags);
    assert_eq!(
        tags,
        strings(&[
            "v0.0.9",
            "v0.0.9-hotfix.9",
            "v0.0.9-hotfix.10",
            "v0.0.10",
            "v0.9.0",
            "v0.10.0",
            "v1.0.0",
        ])
    );
}

#[test]
fn order_keeps_tags_of_one_rank_as_they_stand() {
    let mut tags = strings(&["v2.0.0", "v01.0.0", "v1.0.0", "v+1.0.0", "v0.0.1"]);
    sort_release_tags(&mut tags);
    assert_eq!(
        tags,
        strings(&["v0.0.1", "v01.0.0", "v1.0.0", "v+1.0.0", "v2.0.0"])
    );
    let mut none: Vec<String> = Vec::new();
    sort_release_tags(&mut none);
    assert!(none.is_empty());
}

#[test]
fn ranks_of_other_texts_count_missing_parts_as_zero() {
    let mut tags = strings(&["v0.0.1", "junk", "v7", "3.x.2"]);
    sort_release_tags(&mut tags);
    assert_eq!(tags, strings(&["junk", "v0.0.1", "3.x.2", "v7"]));
    assert_eq!(rank_of("3.x.2"), rank_of("v3.0.2"));
    assert!(comes_before(&rank_of("v1.2.3"), &rank_of("v1.2.3-hotfix.1")));
    assert!(!comes_before(&rank_of("v1.2.3"), &rank_of("v1.2.3")));
}

#[test]
fn listings_are_trimmed_and_filtered() {
    let printed = "  v0.0.2 \r\n\nvnext\nv0.0.1\t\nv0.0.1\nv0.0.1-hotfix.0\n\u{a0}v0.0.1-hotfix.3";
    assert_eq!(
        list_tags_in(printed),
        strings(&["v0.0.1", "v0.0.1", "v0.0.1-hotfix.3", "v0.0.2"])
    );
    assert!(list_tags_in("").is_empty());
    assert!(list_tags_in("main\nfoo\n").is_empty());
}

#[test]
fn latest_release_is_the_newest_or_missing() {
    assert_eq!(
        latest_release_tag_in("v0.0.10\nv0.0.9\nv0.0.10-hotfix.1\n"),
        Ok("v0.0.10".to_string())
    );
    assert_eq!(
        latest_release_tag_in("v0.0.10-hotfix.1\n"),
        Err("no release tags (vX.Y.Z) found".to_string())
    );
    assert_eq!(
        latest_release_tag(&strings(&["v2.0.0", "v1.0.0"])),
        Ok("v1.0.0".to_string())
    );
}

#[test]
fn newer_goes_by_version_number() {
    let printed = "v0.0.9\nv0.0.10\nv0.0.100\nv0.1.0\n";
    assert_eq!(
        release_tags_since_in(printed, Some("v0.0.9")),
        strings(&["v0.0.10", "v0.0.100", "v0.1.0"])
    );
    assert_eq!(
        release_tags_since_in(printed, Some("0.0.10-hotfix.4")),
        strings(&["v0.0.100", "v0.1.0"])
    );
    assert_eq!(release_tags_since_in(printed, None).len(), 4);
    assert!(is_newer("v0.0.10", "v0.0.9"));
    assert!(!is_newer("v0.0.9", "v0.0.10"));
    assert!(!is_newer("v0.0.9", "0.0.9"));
}

#[test]
fn newer_than_no_version_goes_by_text() {
    let printed = "v0.0.9\nv0.0.10\n";
    assert!(release_tags_since_in(printed, Some("main")).is_empty());
    assert_eq!(
        release_tags_since_in(printed, Some("0.0")),
        strings(&["v0.0.9", "v0.0.10"])
    );
    assert_eq!(
        release_tags_since_in(printed, Some("v0.0.2x")),
        strings(&["v0.0.9"])
    );
}

#[test]
fn nothing_is_newer_than_the_latest() {
    let tags = list_tags_in("v0.0.9\nv0.0.10\nv0.0.10-hotfix.1\n");
    let latest = latest_release_tag(&tags).unwrap();
    assert!(release_tags_since(&tags, Some(&latest)).is_empty());
}

#[test]
fn next_hotfix_is_unused_and_tagging_advances() {
    let mut tags = strings(&["v0.0.27", "v0.0.27-hotfix.2", "v0.0.2-hotfix.9", "v0.0.27-hotfix.+4"]);
    assert_eq!(existing_hotfix_max(&tags, "0.0.27"), 4);
    let next = next_hotfix_for_base(&tags, "0.0.27").unwrap();
    assert_eq!(next.to_string(), "0.0.27-hotfix.5");
    let tag = format!("v{}", next.to_string());
    assert!(!tags.contains(&tag));
    tags.push(tag);
    assert_eq!(
        next_hotfix_for_base(&tags, "0.0.27").unwrap().to_string(),
        "0.0.27-hotfix.6"
    );
}

#[test]
fn next_hotfix_is_unused_however_the_base_is_spelled() {
    let mut tags = strings(&["v0.0.27", "v0.0.27-hotfix.1"]);
    assert_eq!(existing_hotfix_max(&tags, "0.0.027"), 0);
    let next = next_hotfix_for_base(&tags, "0.0.027").unwrap();
    assert_eq!(next.to_string(), "0.0.27-hotfix.2");
    tags.push("v0.0.27-hotfix.2".to_string());
    assert_eq!(
        next_hotfix_for_base(&tags, "0.0.027").unwrap().to_string(),
        "0.0.27-hotfix.3"
    );
    tags.push("v0.0.027-hotfix.8".to_string());
    assert_eq!(
        next_hotfix_for_base(&tags, "0.0.027").unwrap().to_string(),
        "0.0.27-hotfix.9"
    );
    assert_eq!(
        next_hotfix_for_base(&tags, "0.0.27").unwrap().to_string(),
        "0.0.27-hotfix.3"
    );
}

#[test]
fn next_hotfix_behind_the_last_number_is_an_error() {
    let tags = strings(&["v0.0.27-hotfix.18446744073709551614"]);
    let last = next_hotfix_for_base(&tags, "0.0.27").unwrap();
    assert_eq!(last.number(), u64::MAX);
    let full = strings(&["v0.0.27-hotfix.18446744073709551615"]);
    assert_eq!(
        next_hotfix_for_base(&full, "0.0.27"),
        Err("no hotfix number left for base version: 0.0.27".to_string())
    );
    assert_eq!(
        next_hotfix_for_base(&full, "0.0.027"),
        Err("no hotfix number left for base version: 0.0.027".to_string())
    );
    assert_eq!(
        next_hotfix_for_base(&full, "0.0.28").unwrap().to_string(),
        "0.0.28-hotfix.1"
    );
}

#[test]
fn next_hotfix_of_no_release_is_an_error() {
    assert_eq!(
        next_hotfix_for_base_in("v0.0.27\n", "v0.0.27"),
        Err("invalid base version: v0.0.27".to_string())
    );
    assert_eq!(
        next_hotfix_for_base_in("v0.0.27\n", "27"),
        Err("not a base version: 27".to_string())
    );
    assert_eq!(existing_hotfix_max_in("", "0.0.27"), 0);
}

#[test]
fn texts_are_split_and_joined() {
    assert_eq!(pieces("a.b..c", '.'), vec!["a", "b", "", "c"]);
    assert_eq!(pieces("", '.'), vec![""]);
    assert_eq!(pieces(".", '.'), vec!["", ""]);
    assert_eq!(joined(&strings(&["a", "b", "", "c"]), "."), "a.b..c");
    assert_eq!(joined(&[], "."), "");
    assert_eq!(part_at("a--b--c", "--"), Some(("a", "b--c")));
    assert_eq!(part_at("a-b", "--"), None);
    assert_eq!(without_prefix("v1", "v"), Some("1"));
    assert_eq!(without_prefix("1", "v"), None);
    assert_eq!(chars_of("é→"), vec!['é', '→']);
}

#[test]
fn texts_are_trimmed_and_compared() {
    for s in ["", " ", "a", " a b ", "\u{2003}x\u{3000}", "\u{200b}x", "\r\n\ty\u{b}\u{c}\u{85}"] {
        assert_eq!(trimmed(s), s.trim());
    }
    let texts = ["", "a", "ab", "b", "0.0.10", "0.0.9", "é", "→", "\u{10000}"];
    for a in texts {
        for b in texts {
            assert_eq!(before(a, b), a < b);
            assert_eq!(same(a, b), a == b);
        }
    }
}
