use apipe::APipeError;
use apipe::Command;
use apipe::CommandPipe;
use apipe::SegFault;

#[test]
fn test_try_from() {
    let pipe = CommandPipe::try_from(r#"echo "This is a test." | grep -Eo \w\w\sa[^.]*"#)
        .expect("the pipe description is valid");

    assert_eq!(pipe.stage_count(), 2);

    assert_eq!(pipe.stage(0).program(), "echo");
    assert_eq!(pipe.stage(0).arguments(), &["This is a test."]);

    assert_eq!(pipe.stage(1).program(), "grep");
    assert_eq!(pipe.stage(1).arguments(), &["-Eo", r"\w\w\sa[^.]*"]);
}

#[test]
fn test_parse_single_segment() {
    let cmd = Command::parse_str(r#"echo "This is a test.""#).unwrap();

    assert_eq!(cmd.program(), "echo");
    assert_eq!(cmd.arguments(), &["This is a test."]);
}

#[test]
fn test_parse_keeps_escapes() {
    let cmd = Command::parse_str(r"grep -Eo \w\w\sa[^.]*").unwrap();

    assert_eq!(cmd.program(), "grep");
    assert_eq!(cmd.arguments(), &["-Eo", r"\w\w\sa[^.]*"]);
}

#[test]
fn test_parse_quoted_empty_argument() {
    let cmd = Command::parse_str(r#"printf """#).unwrap();

    assert_eq!(cmd.program(), "printf");
    assert_eq!(cmd.arguments(), &[""]);
}

#[test]
fn test_parse_unterminated_quote() {
    let err = Command::parse_str(r#"echo "oops"#).unwrap_err();

    match err {
        APipeError::Parse(fault) => {
            assert_eq!(fault.kind, SegFault::UnterminatedQuote);
            assert_eq!(fault.segment, r#"echo "oops"#);
        }
        other => panic!("expected a parse error, got {:?}", other),
    }
}

#[test]
fn test_parse_trailing_escape() {
    let err = Command::parse_str("echo oops\\").unwrap_err();

    match err {
        APipeError::Parse(fault) => {
            assert_eq!(fault.kind, SegFault::TrailingEscape);
            assert_eq!(fault.segment, "echo oops\\");
        }
        other => panic!("expected a parse error, got {:?}", other),
    }
}

#[test]
fn test_parse_empty_text() {
    let err = CommandPipe::try_from("").unwrap_err();

    match err {
        APipeError::Parse(fault) => {
            assert_eq!(fault.kind, SegFault::EmptySegment);
            assert_eq!(fault.segment, "");
        }
        other => panic!("expected a parse error, got {:?}", other),
    }
}

#[test]
fn test_parse_empty_segment() {
    let err = CommandPipe::try_from("a||b").unwrap_err();

    match err {
        APipeError::Parse(fault) => {
            assert_eq!(fault.kind, SegFault::EmptySegment);
            assert_eq!(fault.segment, "");
        }
        other => panic!("expected a parse error, got {:?}", other),
    }
}

#[test]
fn test_parse_whitespace_only_segment() {
    let err = CommandPipe::try_from("a |   | b").unwrap_err();

    match err {
        APipeError::Parse(fault) => {
            assert_eq!(fault.kind, SegFault::EmptySegment);
            assert_eq!(fault.segment, "   ");
        }
        other => panic!("expected a parse error, got {:?}", other),
    }
}

#[test]
fn test_scenario_parse() {
    let pipe = CommandPipe::try_from(r#"print "This is a test." | filter-matching-pattern"#)
        .expect("the pipe description is valid");

    assert_eq!(pipe.stage_count(), 2);
    assert_eq!(pipe.stage(0).program(), "print");
    assert_eq!(pipe.stage(0).arguments(), &["This is a test."]);
    assert_eq!(pipe.stage(1).program(), "filter-matching-pattern");
    assert_eq!(pipe.stage(1).arguments(), &Vec::<String>::new());
}
