use rust_snake::score::{format_score, is_whitespace, labeled_score, parse_high_score, ScoreBoard};
use rust_snake::snake::{grow_tail, GROWTH};

#[test]
fn eating_adds_ten_and_tracks_record() {
    let mut board = ScoreBoard::new(15);
    assert!(!board.eat());
    assert_eq!((board.score, board.high_score), (10, 15));
    assert!(board.eat());
    assert_eq!((board.score, board.high_score), (20, 20));
    assert!(board.eat());
    assert_eq!((board.score, board.high_score), (30, 30));
}

#[test]
fn equal_score_is_no_record() {
    let mut board = ScoreBoard::new(10);
    assert!(!board.eat());
    assert_eq!(board.high_score, 10);
}

#[test]
fn parse_plain_and_trimmed() {
    assert_eq!(parse_high_score("120"), 120);
    assert_eq!(parse_high_score("  42\n"), 42);
    assert_eq!(parse_high_score("\u{3000}7\u{a0}"), 7);
    assert_eq!(parse_high_score("+5"), 5);
    assert_eq!(parse_high_score("007"), 7);
    assert_eq!(parse_high_score("4294967295"), 4294967295);
}

#[test]
fn parse_failures_give_zero() {
    assert_eq!(parse_high_score(""), 0);
    assert_eq!(parse_high_score("   "), 0);
    assert_eq!(parse_high_score("+"), 0);
    assert_eq!(parse_high_score("-3"), 0);
    assert_eq!(parse_high_score("1 2"), 0);
    assert_eq!(parse_high_score("12a"), 0);
    assert_eq!(parse_high_score("4294967296"), 0);
    assert_eq!(parse_high_score("99999999999999999999x"), 0);
}

#[test]
fn parse_matches_std() {
    for text in ["0", " 10 ", "+0", "++1", "1_0", "\t99\r\n", "\u{2003}8", "18446744073709551616"] {
        let expected: u32 = text.trim().parse().unwrap_or(0);
        assert_eq!(parse_high_score(text), expected);
    }
}

#[test]
fn format_is_decimal() {
    assert_eq!(format_score(0), "0");
    assert_eq!(format_score(7), "7");
    assert_eq!(format_score(10), "10");
    assert_eq!(format_score(4294967295), "4294967295");
    assert_eq!(labeled_score("SCORE ", 120), "SCORE 120");
    assert_eq!(labeled_score("", 5), "5");
}

#[test]
fn saved_score_reads_back() {
    for n in [0u32, 1, 9, 10, 99, 100, 12345, 4294967295] {
        assert_eq!(parse_high_score(&format_score(n)), n);
        assert_eq!(format_score(n), n.to_string());
    }
}

#[test]
fn white_space_as_unicode() {
    for c in ['\t', '\n', '\u{b}', '\u{c}', '\r', ' ', '\u{85}', '\u{a0}', '\u{2000}', '\u{200a}', '\u{3000}'] {
        assert!(is_whitespace(c));
        assert!(c.is_whitespace());
    }
    for c in ['a', '0', '\u{200b}', '\u{1f}', '_'] {
        assert!(!is_whitespace(c));
        assert_eq!(c.is_whitespace(), false);
    }
}

#[test]
fn growing_copies_the_tail() {
    let mut body = vec![(1, 1), (2, 2), (3, 4)];
    grow_tail(&mut body);
    assert_eq!(body.len(), 3 + GROWTH);
    assert_eq!(&body[..3], &[(1, 1), (2, 2), (3, 4)]);
    assert!(body[3..].iter().all(|&p| p == (3, 4)));
}

#[test]
fn growing_a_single_segment() {
    let mut body = vec![9u8];
    grow_tail(&mut body);
    assert_eq!(body, vec![9u8; 6]);
}
