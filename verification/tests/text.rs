use chat_loop::text::{chars_of, find_first, longest_overlap, matches_at};

fn cs(s: &str) -> Vec<char> {
    s.chars().collect()
}

#[test]
fn chars_of_gives_the_characters_in_order() {
    assert_eq!(chars_of(""), Vec::<char>::new());
    assert_eq!(chars_of("a\u{df}\u{2192}z"), vec!['a', '\u{df}', '\u{2192}', 'z']);
}

#[test]
fn matches_at_each_position() {
    let text = cs("abcabc");
    let pat = cs("bc");
    assert!(!matches_at(&text, &pat, 0));
    assert!(matches_at(&text, &pat, 1));
    assert!(!matches_at(&text, &pat, 2));
    assert!(matches_at(&text, &pat, 4));
    assert!(!matches_at(&text, &pat, 5));
    assert!(!matches_at(&text, &pat, 6));
    assert!(!matches_at(&text, &pat, usize::MAX));
}

#[test]
fn empty_marker_matches_up_to_the_end() {
    let text = cs("ab");
    assert!(matches_at(&text, &[], 0));
    assert!(matches_at(&text, &[], 2));
    assert!(!matches_at(&text, &[], 3));
    assert_eq!(find_first(&text, &[]), Some(0));
    assert_eq!(find_first(&[], &[]), Some(0));
}

#[test]
fn find_first_returns_the_first_of_several() {
    assert_eq!(find_first(&cs("xx### Human:yy### Human:"), &cs("### Human:")), Some(2));
    assert_eq!(find_first(&cs("aaab"), &cs("aab")), Some(1));
    assert_eq!(find_first(&cs("abc"), &cs("abc")), Some(0));
}

#[test]
fn find_first_of_absent_marker() {
    assert_eq!(find_first(&cs("### Huma"), &cs("### Human:")), None);
    assert_eq!(find_first(&cs(""), &cs("a")), None);
    assert_eq!(find_first(&cs("abab"), &cs("ba ")), None);
}

#[test]
fn longest_overlap_is_a_proper_prefix() {
    assert_eq!(longest_overlap(&cs("hello ##"), &cs("### Human:")), 2);
    assert_eq!(longest_overlap(&cs("hello ###"), &cs("### Human:")), 3);
    assert_eq!(longest_overlap(&cs("hello"), &cs("### Human:")), 0);
    assert_eq!(longest_overlap(&cs("abc"), &cs("abc")), 0);
    assert_eq!(longest_overlap(&cs("aaa"), &cs("aaa")), 2);
    assert_eq!(longest_overlap(&cs("a"), &cs("aaaa")), 1);
    assert_eq!(longest_overlap(&cs("abc"), &[]), 0);
    assert_eq!(longest_overlap(&[], &cs("abc")), 0);
}
