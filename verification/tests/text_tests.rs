use vacancies::text::{parse_u16, parse_usize, render_usize, same_text, split_by, trim, IntErrorKind};

fn std_kind(e: &std::num::ParseIntError) -> IntErrorKind {
    match e.kind() {
        std::num::IntErrorKind::Empty => IntErrorKind::Empty,
        std::num::IntErrorKind::InvalidDigit => IntErrorKind::InvalidDigit,
        std::num::IntErrorKind::PosOverflow => IntErrorKind::PosOverflow,
        other => panic!("unexpected kind {:?}", other),
    }
}

#[test]
fn trim_removes_surrounding_whitespace() {
    assert_eq!(trim("  school \n"), "school");
    assert_eq!(trim("\t\r\n"), "");
    assert_eq!(trim(""), "");
    assert_eq!(trim("a b"), "a b");
    assert_eq!(trim("\u{3000}x\u{a0}"), "x");
}

#[test]
fn trim_agrees_with_std() {
    let samples = ["", " ", "x", " x ", "\u{2028}y\u{85}", "a\u{200b}", "\u{200b}", " \u{1680}z\u{205f}w\u{3000}"];
    for s in samples.iter() {
        assert_eq!(trim(s), s.trim());
    }
}

#[test]
fn split_keeps_empty_pieces() {
    assert_eq!(split_by("a,b,,c", ','), vec!["a", "b", "", "c"]);
    assert_eq!(split_by("", ','), vec![""]);
    assert_eq!(split_by(",", ','), vec!["", ""]);
    assert_eq!(split_by("doll,100,3+,30", ','), vec!["doll", "100", "3+", "30"]);
}

#[test]
fn split_agrees_with_std() {
    let samples = ["", "a", "a\nb", "\n\n", "x\ny\n", "päd\n\u{1f600}\n"];
    for s in samples.iter() {
        let mine = split_by(s, '\n');
        let theirs: Vec<&str> = s.split('\n').collect();
        assert_eq!(mine, theirs);
    }
}

#[test]
fn parse_usize_accepts_digits_and_plus() {
    assert_eq!(parse_usize("149200"), Ok(149200));
    assert_eq!(parse_usize("+7"), Ok(7));
    assert_eq!(parse_usize("007"), Ok(7));
    assert_eq!(parse_usize(""), Err(IntErrorKind::Empty));
    assert_eq!(parse_usize("+"), Err(IntErrorKind::InvalidDigit));
    assert_eq!(parse_usize("-1"), Err(IntErrorKind::InvalidDigit));
    assert_eq!(parse_usize(" 1"), Err(IntErrorKind::InvalidDigit));
    assert_eq!(parse_usize("99999999999999999999999"), Err(IntErrorKind::PosOverflow));
}

#[test]
fn parse_u16_bounds() {
    assert_eq!(parse_u16("65535"), Ok(65535));
    assert_eq!(parse_u16("65536"), Err(IntErrorKind::PosOverflow));
    assert_eq!(parse_u16("12"), Ok(12));
    assert_eq!(parse_u16("1x"), Err(IntErrorKind::InvalidDigit));
}

#[test]
fn parse_agrees_with_std() {
    let samples = [
        "", "+", "-", "0", "+0", "-0", "12", "1 2", "65535", "65536", "70000x", "x70000",
        "18446744073709551615", "18446744073709551616", "184467440737095516150", "99999999999999999999x",
        "٣", "+-1", "++1", "１",
    ];
    for s in samples.iter() {
        match (parse_usize(s), s.parse::<usize>()) {
            (Ok(a), Ok(b)) => assert_eq!(a, b, "{:?}", s),
            (Err(a), Err(b)) => assert_eq!(a, std_kind(&b), "{:?}", s),
            (a, b) => panic!("{:?}: {:?} vs {:?}", s, a, b),
        }
        match (parse_u16(s), s.parse::<u16>()) {
            (Ok(a), Ok(b)) => assert_eq!(a, b, "{:?}", s),
            (Err(a), Err(b)) => assert_eq!(a, std_kind(&b), "{:?}", s),
            (a, b) => panic!("{:?}: {:?} vs {:?}", s, a, b),
        }
    }
}

#[test]
fn error_messages_match_std() {
    for s in ["", "x", "99999999999999999999999"].iter() {
        let theirs = s.parse::<usize>().unwrap_err();
        let mine = parse_usize(s).unwrap_err();
        assert_eq!(mine.message(), theirs.to_string());
    }
}

#[test]
fn render_writes_decimal() {
    assert_eq!(render_usize(0), "0");
    assert_eq!(render_usize(7), "7");
    assert_eq!(render_usize(10), "10");
    assert_eq!(render_usize(149200), "149200");
    assert_eq!(render_usize(usize::MAX), usize::MAX.to_string());
}

#[test]
fn parse_of_render_gives_number_back() {
    for n in [0usize, 1, 9, 10, 99, 100, 12345, 149200, usize::MAX].iter() {
        assert_eq!(parse_usize(&render_usize(*n)), Ok(*n));
    }
    for n in [0u16, 1, 65535].iter() {
        assert_eq!(parse_u16(&render_usize(*n as usize)), Ok(*n));
    }
}

#[test]
fn same_text_compares_characters() {
    assert!(same_text("school", "school"));
    assert!(!same_text("school", "School"));
    assert!(!same_text("", " "));
    assert!(same_text("", ""));
}
