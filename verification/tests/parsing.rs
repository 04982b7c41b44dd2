use add_ed::cmd::expressions::parse_expressions;
use add_ed::cmd::flags::parse_flags;
use add_ed::cmd::path::{parse_path, Path};
use add_ed::cmd::selection::{parse_index, parse_selection, Ind, Sel};
use add_ed::cmd::undo_index::{parse_history_index, HistoryInd};
use add_ed::error::EdError;

#[test]
fn parse_index_literals_and_specials() {
    assert_eq!(parse_index("3p"), Ok((1, Some(Ind::Literal(3)))));
    assert_eq!(parse_index("p"), Ok((0, None)));
    assert_eq!(parse_index(""), Ok((0, None)));
    assert_eq!(parse_index("."), Ok((1, Some(Ind::Selection))));
    assert_eq!(parse_index("$d"), Ok((1, Some(Ind::BufferLen))));
    assert_eq!(parse_index("'ap"), Ok((2, Some(Ind::Tag('a')))));
    assert_eq!(parse_index("/ab/d"), Ok((4, Some(Ind::Pattern("ab")))));
    assert_eq!(parse_index("?ab?d"), Ok((4, Some(Ind::RevPattern("ab")))));
    assert_eq!(parse_index("/ab"), Ok((3, Some(Ind::Pattern("ab")))));
}

#[test]
fn parse_index_offsets() {
    assert_eq!(parse_index(".+2p"), Ok((3, Some(Ind::Add(Box::new(Ind::Selection), 2)))));
    assert_eq!(parse_index("$-"), Ok((2, Some(Ind::Sub(Box::new(Ind::BufferLen), 1)))));
    assert_eq!(parse_index("+"), Ok((1, Some(Ind::Add(Box::new(Ind::Selection), 1)))));
    assert_eq!(parse_index("5-2"), Ok((3, Some(Ind::Sub(Box::new(Ind::Literal(5)), 2)))));
    assert_eq!(
        parse_index("'x+1-3"),
        Ok((6, Some(Ind::Sub(Box::new(Ind::Add(Box::new(Ind::Tag('x')), 1)), 3))))
    );
}

#[test]
fn parse_index_errors() {
    assert_eq!(parse_index("'"), Err(EdError::IndexUnfinished("'".to_string())));
    assert_eq!(
        parse_index("3."),
        Err(EdError::IndexSpecialAfterStart { prior_index: "3".to_string(), special_index: '.' })
    );
    assert_eq!(
        parse_index(".3"),
        Err(EdError::IndicesUnrelated { prior_index: ".".to_string(), unrelated_index: "3".to_string() })
    );
    assert_eq!(
        parse_index("'a'b"),
        Err(EdError::IndicesUnrelated { prior_index: "'a".to_string(), unrelated_index: "'b".to_string() })
    );
    assert_eq!(
        parse_index("99999999999999999999999p"),
        Err(EdError::IndexNotInt("99999999999999999999999".to_string()))
    );
    assert_eq!(
        parse_index(".+99999999999999999999999"),
        Err(EdError::OffsetNotInt("99999999999999999999999".to_string()))
    );
}

#[test]
fn parse_selection_forms() {
    assert_eq!(parse_selection(",p"), Ok((1, Some(Sel::Pair(Ind::Literal(1), Ind::BufferLen)))));
    assert_eq!(parse_selection(";"), Ok((1, Some(Sel::Pair(Ind::Selection, Ind::BufferLen)))));
    assert_eq!(parse_selection("2,3d"), Ok((3, Some(Sel::Pair(Ind::Literal(2), Ind::Literal(3))))));
    assert_eq!(parse_selection("5"), Ok((1, Some(Sel::Lone(Ind::Literal(5))))));
    assert_eq!(parse_selection("p"), Ok((0, None)));
    assert_eq!(parse_selection("'a,"), Ok((3, Some(Sel::Pair(Ind::Tag('a'), Ind::BufferLen)))));
    assert_eq!(parse_selection("1,'"), Err(EdError::IndexUnfinished("'".to_string())));
}

#[test]
fn parse_history_index_forms() {
    assert_eq!(parse_history_index(""), Ok((0, None)));
    assert_eq!(parse_history_index("."), Ok((1, Some(HistoryInd::Current))));
    assert_eq!(parse_history_index("$"), Ok((1, Some(HistoryInd::Last))));
    assert_eq!(parse_history_index("*3"), Ok((2, Some(HistoryInd::Absolute(3)))));
    assert_eq!(parse_history_index("2"), Ok((1, Some(HistoryInd::Sub(Box::new(HistoryInd::Current), 2)))));
    assert_eq!(parse_history_index("+2"), Ok((2, Some(HistoryInd::Add(Box::new(HistoryInd::Current), 2)))));
    assert_eq!(parse_history_index("$-"), Ok((2, Some(HistoryInd::Sub(Box::new(HistoryInd::Last), 1)))));
    assert_eq!(
        parse_history_index("3*"),
        Err(EdError::HistoryIndexSpecialAfterStart { prior_index: "3".to_string(), special_index: '*' })
    );
    assert_eq!(
        parse_history_index("99999999999999999999999"),
        Err(EdError::HistoryIndexNotInt("99999999999999999999999".to_string()))
    );
}

#[test]
fn parse_expressions_splits_on_first_char() {
    assert_eq!(parse_expressions(""), Ok(Vec::<String>::new()));
    assert_eq!(
        parse_expressions("/a/b/"),
        Ok(vec!["a".to_string(), "b".to_string(), "".to_string()])
    );
    assert_eq!(parse_expressions("/a\\/b/c"), Ok(vec!["a/b".to_string(), "c".to_string()]));
    assert_eq!(parse_expressions("|x|y"), Ok(vec!["x".to_string(), "y".to_string()]));
    assert_eq!(parse_expressions("/a\\\\/b"), Ok(vec!["a\\\\".to_string(), "b".to_string()]));
    assert_eq!(parse_expressions("/a\\/"), Ok(vec!["a/".to_string()]));
    assert_eq!(
        parse_expressions("/a\\"),
        Err(EdError::ArgumentListEscapedEnd("/a\\".to_string()))
    );
}

#[test]
fn parse_flags_reports_each_flag() {
    assert_eq!(parse_flags("pl", "pnl"), Ok(vec![true, false, true]));
    assert_eq!(parse_flags("", "pnl"), Ok(vec![false, false, false]));
    assert_eq!(parse_flags("pp", "pnl"), Err(EdError::FlagDuplicate('p')));
    assert_eq!(parse_flags("x", "pnl"), Err(EdError::FlagUndefined('x')));
    assert_eq!(parse_flags("a", ""), Err(EdError::FlagUndefined('a')));
}

#[test]
fn parse_path_files_and_commands() {
    assert_eq!(parse_path(""), None);
    assert_eq!(parse_path("   "), None);
    assert_eq!(parse_path(" file.txt"), Some(Path::File("file.txt")));
    assert_eq!(parse_path("!ls -l"), Some(Path::Command("ls -l")));
}

#[test]
fn parsers_return_byte_offsets() {
    assert_eq!(parse_index("'éé"), Ok((3, Some(Ind::Tag('é')))));
    assert_eq!(parse_index("/é/p"), Ok((4, Some(Ind::Pattern("é")))));
    assert_eq!(parse_selection("/ä/,'€p"), Ok((9, Some(Sel::Pair(Ind::Pattern("ä"), Ind::Tag('€'))))));
    assert_eq!(parse_history_index("$-é"), Ok((2, Some(HistoryInd::Sub(Box::new(HistoryInd::Last), 1)))));
}
