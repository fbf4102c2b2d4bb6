use qlipq::tag_filter::{all_tags, item_visible};

fn tags(v: &[&str]) -> Option<Vec<String>> {
    Some(v.iter().map(|s| s.to_string()).collect())
}

#[test]
fn offered_tags_are_sorted_distinct_and_skip_dismissed() {
    let lists = vec![tags(&["zeta", "best", "dismissed"]), None, tags(&["best", "Alpha", "beta"]), tags(&[])];
    assert_eq!(all_tags(&lists), vec!["Alpha", "best", "beta", "zeta"]);
    assert!(all_tags(&vec![]).is_empty());
    assert!(all_tags(&vec![tags(&["dismissed"])]).is_empty());
}

#[test]
fn filter_shows_tagged_or_undismissed_clips() {
    let offered: Vec<String> = vec!["best".to_string()];
    assert!(item_visible(&tags(&["best", "dismissed"]), Some("best"), &offered));
    assert!(!item_visible(&tags(&["other"]), Some("best"), &offered));
    assert!(!item_visible(&None, Some("best"), &offered));
    assert!(item_visible(&tags(&["other"]), Some("gone"), &offered));
    assert!(!item_visible(&tags(&["dismissed"]), Some("gone"), &offered));
    assert!(item_visible(&None, None, &offered));
    assert!(!item_visible(&tags(&["x", "dismissed"]), None, &offered));
}
