use game_library::table::{
    all_distinct, all_pairs_distinct, count_rows, holds_text, page_bounds,
};
use game_library::text::{characters, replace_all};
use game_library::time::{Timestamp, SESSION_SECONDS};

#[test]
fn instants_are_ordered_by_seconds_then_nanoseconds() {
    let a = Timestamp::new(5, 900);
    let b = Timestamp::new(6, 0);
    let c = Timestamp::new(6, 1);
    assert!(a.is_before(&b));
    assert!(b.is_before(&c));
    assert!(a.is_before(&c));
    assert!(!b.is_before(&a));
    assert!(!a.is_before(&a));
    assert!(c.is_after(&a));
    assert!(!a.is_after(&c));
    assert!(Timestamp::new(-1, 999_999_999).is_before(&Timestamp::new(0, 0)));
}

#[test]
fn a_session_lasts_twenty_four_hours() {
    assert_eq!(SESSION_SECONDS, 24 * 60 * 60);
    assert_eq!(Timestamp::new(10, 7).session_expiry(), Timestamp::new(86_410, 7));
    assert_eq!(
        Timestamp::new(i64::MAX - 86_400, 0).session_expiry(),
        Timestamp::new(i64::MAX, 0)
    );
}

#[test]
fn characters_of_a_text() {
    assert_eq!(characters("a\u{e9}z"), vec!['a', '\u{e9}', 'z']);
    assert!(characters("").is_empty());
}

#[test]
fn replace_all_agrees_with_the_standard_library() {
    let cases = [
        ("//x/t_thumb/y.jpg", "t_thumb", "t_cover_big"),
        ("aaaa", "aa", "b"),
        ("aaa", "aa", "b"),
        ("abcabc", "abc", ""),
        ("abc", "abcd", "x"),
        ("", "a", "b"),
        ("ababab", "ab", "ab"),
        ("xaxbx", "x", "xx"),
        ("\u{e9}\u{e9}a", "\u{e9}", "e"),
        ("mississippi", "ss", "SS"),
        ("mississippi", "issi", "-"),
    ];
    for (text, pattern, substitute) in cases {
        assert_eq!(replace_all(text, pattern, substitute), text.replace(pattern, substitute));
    }
}

#[test]
fn an_empty_pattern_occurs_nowhere() {
    assert_eq!(replace_all("abc", "", "x"), "abc");
    assert_eq!(replace_all("", "", "x"), "");
}

#[test]
fn replace_all_examples() {
    assert_eq!(replace_all("aaa", "aa", "b"), "ba");
    assert_eq!(replace_all("t_thumb", "t_thumb", "t_cover_big"), "t_cover_big");
    assert_eq!(replace_all("no match", "t_thumb", "t_cover_big"), "no match");
}

#[test]
fn page_bounds_follow_the_offset() {
    assert_eq!(page_bounds(25, 1, 10), (0, 10));
    assert_eq!(page_bounds(25, 2, 10), (10, 20));
    assert_eq!(page_bounds(25, 3, 10), (20, 25));
    assert_eq!(page_bounds(25, 4, 10), (25, 25));
    assert_eq!(page_bounds(25, 0, 10), (0, 10));
    assert_eq!(page_bounds(25, -1, 10), (0, 10));
    assert_eq!(page_bounds(25, 1, 0), (0, 0));
    assert_eq!(page_bounds(25, 5, 0), (0, 0));
    assert_eq!(page_bounds(25, 1, -1), (0, 25));
    assert_eq!(page_bounds(25, 0, -1), (1, 25));
    assert_eq!(page_bounds(25, -30, -1), (25, 25));
    assert_eq!(page_bounds(0, 1, 10), (0, 0));
    assert_eq!(page_bounds(25, i64::MAX, i64::MAX), (25, 25));
    assert_eq!(page_bounds(25, i64::MIN, i64::MAX), (0, 25));
    assert_eq!(page_bounds(25, i64::MIN, i64::MIN), (25, 25));
}

#[test]
fn counts_stop_at_the_largest_number() {
    assert_eq!(count_rows(0), 0);
    assert_eq!(count_rows(25), 25);
    assert_eq!(count_rows(usize::MAX), if usize::MAX as u128 > i64::MAX as u128 {
        i64::MAX
    } else {
        usize::MAX as i64
    });
}

#[test]
fn distinct_texts_and_pairs() {
    let s = |v: &[&str]| v.iter().map(|t| t.to_string()).collect::<Vec<String>>();
    assert!(all_distinct(&s(&[])));
    assert!(all_distinct(&s(&["a", "b", "c"])));
    assert!(!all_distinct(&s(&["a", "b", "a"])));
    assert!(!all_distinct(&s(&["a", "a"])));
    let p = |v: &[(&str, &str)]| {
        v.iter().map(|(a, b)| (a.to_string(), b.to_string())).collect::<Vec<(String, String)>>()
    };
    assert!(all_pairs_distinct(&p(&[("u1", "g1"), ("u1", "g2"), ("u2", "g1")])));
    assert!(!all_pairs_distinct(&p(&[("u1", "g1"), ("u2", "g1"), ("u1", "g1")])));
    assert!(all_pairs_distinct(&p(&[])));
    assert!(holds_text(&s(&["a", "b"]), &"b".to_string()));
    assert!(!holds_text(&s(&["a", "b"]), &"c".to_string()));
    assert!(!holds_text(&s(&[]), &"".to_string()));
}
