use zaminos::task::Scheduler;
use zaminos::text::{
    char_len, digit, is_white_space, join_words, push_decimal, push_decimal2, push_signed_decimal, push_str,
    split_words, starts_with, string_of,
};

#[test]
fn decimal_numbers() {
    let mut s = String::new();
    push_decimal(&mut s, 0);
    assert_eq!(s, "0");
    let mut s = String::from("n=");
    push_decimal(&mut s, 1234);
    assert_eq!(s, "n=1234");
    let mut s = String::new();
    push_decimal(&mut s, u64::MAX);
    assert_eq!(s, "18446744073709551615");
}

#[test]
fn two_digit_decimals() {
    let mut s = String::new();
    push_decimal2(&mut s, 5);
    assert_eq!(s, "05");
    let mut s = String::new();
    push_decimal2(&mut s, 0);
    assert_eq!(s, "00");
    let mut s = String::new();
    push_decimal2(&mut s, 42);
    assert_eq!(s, "42");
    let mut s = String::new();
    push_decimal2(&mut s, 123);
    assert_eq!(s, "123");
}

#[test]
fn signed_decimals() {
    for n in [0i32, 7, -42, i32::MAX, i32::MIN] {
        let mut s = String::new();
        push_signed_decimal(&mut s, n);
        assert_eq!(s, n.to_string());
    }
}

#[test]
fn digits_and_strings() {
    assert_eq!(digit(0), '0');
    assert_eq!(digit(9), '9');
    let mut s = string_of("ab");
    push_str(&mut s, "cé");
    assert_eq!(s, "abcé");
    assert_eq!(char_len(&s), 4);
}

#[test]
fn words_split_at_spaces() {
    assert_eq!(split_words("  echo  hi there "), vec!["echo", "hi", "there"]);
    assert_eq!(split_words("one"), vec!["one"]);
    assert!(split_words("").is_empty());
    assert!(split_words("   ").is_empty());
}

#[test]
fn words_join_with_single_spaces() {
    let ws = split_words("echo  a   b");
    assert_eq!(join_words(&ws, 1), "a b");
    assert_eq!(join_words(&ws, 0), "echo a b");
    assert_eq!(join_words(&ws, 3), "");
}

#[test]
fn prefixes() {
    assert!(starts_with("$ help", "$ "));
    assert!(starts_with("abc", ""));
    assert!(starts_with("abc", "abc"));
    assert!(!starts_with("ab", "abc"));
    assert!(!starts_with("help", "$ "));
}

#[test]
fn scheduler_runs_round_robin() {
    let mut s = Scheduler::new();
    assert_eq!(s.len(), 0);
    assert_eq!(s.front_iteration(), None);
    s.spawn("a", 0);
    s.spawn("b", 1);
    assert_eq!(s.len(), 2);

    let t = s.next_task().unwrap();
    assert_eq!((t.name.as_str(), t.iteration, t.body), ("a", 1, 0));
    assert_eq!(s.len(), 1);
    assert_eq!(s.finish(t, true), None);
    assert_eq!(s.len(), 2);

    let t = s.next_task().unwrap();
    assert_eq!((t.name.as_str(), t.iteration, t.body), ("b", 1, 1));
    assert_eq!(s.finish(t, false), Some(String::from("b")));
    assert_eq!(s.len(), 1);

    assert_eq!(s.front_iteration(), Some(1));
    let t = s.next_task().unwrap();
    assert_eq!((t.name.as_str(), t.iteration), ("a", 2));
    assert_eq!(s.finish(t, false), Some(String::from("a")));
    assert!(s.next_task().is_none());
    assert_eq!(s.len(), 0);
}

#[test]
fn scheduler_alternates_live_tasks() {
    let mut s = Scheduler::new();
    s.spawn("x", 10);
    s.spawn("y", 11);
    s.spawn("z", 12);
    let mut order = Vec::new();
    for _ in 0..6 {
        let t = s.next_task().unwrap();
        order.push(t.body);
        s.finish(t, true);
    }
    assert_eq!(order, vec![10, 11, 12, 10, 11, 12]);
}

#[test]
fn words_split_at_any_white_space() {
    assert_eq!(split_words("\tclear"), vec!["clear"]);
    assert_eq!(split_words("echo\ta \n b\u{3000}c"), vec!["echo", "a", "b", "c"]);
    assert_eq!(split_words("foo\tbar"), vec!["foo", "bar"]);
    let ws = split_words("echo\t x\r\ny");
    assert_eq!(join_words(&ws, 1), "x y");
    assert!(split_words(" \t\u{a0}\u{2028} ").is_empty());
}

#[test]
fn white_space_matches_std() {
    for c in ['\t', '\n', '\u{b}', '\u{c}', '\r', ' ', '\u{85}', '\u{a0}', '\u{1680}', '\u{2000}', '\u{200a}', '\u{2028}', '\u{2029}', '\u{202f}', '\u{205f}', '\u{3000}'] {
        assert!(is_white_space(c), "{:?}", c);
    }
    for n in 0u32..0x3100 {
        if let Some(c) = char::from_u32(n) {
            assert_eq!(is_white_space(c), c.is_whitespace(), "{:?}", c);
        }
    }
}

#[test]
fn each_body_runs_with_one_two_three() {
    let mut s = Scheduler::new();
    s.spawn("a", 0);
    s.spawn("b", 1);
    s.spawn("c", 2);
    let mut seen: Vec<Vec<u32>> = vec![Vec::new(); 3];
    let mut step = 0;
    while let Some(t) = s.next_task() {
        seen[t.body].push(t.iteration);
        // b ends after its second run, c after its third
        let alive = match t.body {
            1 => t.iteration < 2,
            2 => t.iteration < 3,
            _ => step < 9,
        };
        s.finish(t, alive);
        step += 1;
    }
    assert_eq!(seen[1], vec![1, 2]);
    assert_eq!(seen[2], vec![1, 2, 3]);
    let k = seen[0].len() as u32;
    assert_eq!(seen[0], (1..=k).collect::<Vec<u32>>());
}
