use markdown_query::query::{matchop, parse_user_query, CompileError, MatchOp, Query, XapianTag};

fn term(field: Option<XapianTag>, text: &str) -> Query {
    Query::Term { field, text: text.to_string() }
}

fn binary(op: MatchOp, left: Query, right: Query) -> Query {
    Query::Binary { op, left: Box::new(left), right: Box::new(right) }
}

#[test]
fn xapian_utils_test1() {
    let (op, len) = matchop(r#"AND\n"#).expect("Failed to match Op");
    assert_eq!(op, MatchOp::And);
    assert_eq!(len, 3);
}

#[test]
fn unrecognized_tag() {
    assert!(XapianTag::parse(r#"foo:bar"#).is_none())
}

#[test]
fn one_word_tag() {
    let (tag, value, rest) = XapianTag::parse(r#"author:bar "#).expect("Failed to parse input");
    assert_eq!("A", tag.to_xapian());
    assert_eq!("bar", value);
    assert_eq!(" ", rest);
}

#[test]
fn two_word_tag() {
    let (tag, value, rest) =
        XapianTag::parse(r#"author:bar other"#).expect("Failed to parse input");
    assert_eq!("A", tag.to_xapian());
    assert_eq!("bar", value);
    assert_eq!(" other", rest);
}

#[test]
fn tag_with_quoted_value_keeps_quotes() {
    let (tag, value, rest) = XapianTag::parse(r#"tag:"foo bar" x"#).unwrap();
    assert_eq!(tag, XapianTag::Tag);
    assert_eq!(value, "\"foo bar\"");
    assert_eq!(rest, " x");
}

#[test]
fn matchop_prefers_longer_keywords() {
    assert_eq!(matchop("and maybe x"), Some((MatchOp::AndMaybe, 9)));
    assert_eq!(matchop("And Not x"), Some((MatchOp::AndNot, 7)));
    assert_eq!(matchop("xor"), Some((MatchOp::Xor, 3)));
    assert_eq!(matchop(">5"), Some((MatchOp::ValueGe, 1)));
    assert_eq!(matchop("foo"), None);
}

#[test]
fn field_prefixes() {
    assert_eq!(XapianTag::Author.to_xapian(), "A");
    assert_eq!(XapianTag::Date.to_xapian(), "D");
    assert_eq!(XapianTag::Filename.to_xapian(), "F");
    assert_eq!(XapianTag::Fullpath.to_xapian(), "F");
    assert_eq!(XapianTag::Title.to_xapian(), "S");
    assert_eq!(XapianTag::Subtitle.to_xapian(), "XS");
    assert_eq!(XapianTag::Tag.to_xapian(), "K");
}

#[test]
fn single_bare_word_is_one_term() {
    assert_eq!(parse_user_query("foo"), Ok(term(None, "foo")));
    assert_eq!(parse_user_query("  hello  "), Ok(term(None, "hello")));
}

#[test]
fn single_field_word_is_one_field_term() {
    assert_eq!(parse_user_query("title:foo"), Ok(term(Some(XapianTag::Title), "foo")));
    assert_eq!(parse_user_query("Author:bob"), Ok(term(Some(XapianTag::Author), "bob")));
}

#[test]
fn one_operator_any_case() {
    let expected = binary(MatchOp::And, term(None, "foo"), term(None, "bar"));
    assert_eq!(parse_user_query("foo AND bar"), Ok(expected));
    let expected = binary(MatchOp::And, term(None, "foo"), term(None, "bar"));
    assert_eq!(parse_user_query("foo and bar"), Ok(expected));
    let expected = binary(MatchOp::And, term(None, "foo"), term(None, "bar"));
    assert_eq!(parse_user_query("foo And bar"), Ok(expected));
    let expected = binary(MatchOp::Xor, term(None, "a"), term(None, "b"));
    assert_eq!(parse_user_query("a XOR b"), Ok(expected));
}

#[test]
fn and_not_is_not_split_at_and() {
    let expected = binary(MatchOp::AndNot, term(None, "foo"), term(None, "bar"));
    assert_eq!(parse_user_query("foo AND NOT bar"), Ok(expected));
}

#[test]
fn and_maybe_is_one_operator() {
    let expected = binary(MatchOp::AndMaybe, term(None, "foo"), term(None, "bar"));
    assert_eq!(parse_user_query("foo and maybe bar"), Ok(expected));
}

#[test]
fn quoted_phrase_with_field_is_one_node() {
    let expected = Query::Phrase {
        field: Some(XapianTag::Title),
        words: vec!["foo".to_string(), "bar".to_string()],
    };
    assert_eq!(parse_user_query("title:\"foo bar\""), Ok(expected));
}

#[test]
fn single_quoted_phrase() {
    let expected = Query::Phrase { field: None, words: vec!["baz".to_string(), "bar".to_string()] };
    assert_eq!(parse_user_query("'baz   bar'"), Ok(expected));
}

#[test]
fn unknown_prefix_is_literal() {
    assert_eq!(parse_user_query("foo:bar"), Ok(term(None, "foo:bar")));
}

#[test]
fn bag_of_words_is_left_nested_or() {
    let expected = binary(
        MatchOp::Or,
        binary(MatchOp::Or, term(Some(XapianTag::Title), "foo"), term(None, "baz")),
        Query::Phrase { field: Some(XapianTag::Author), words: vec!["bob".to_string(), "alice".to_string()] },
    );
    assert_eq!(parse_user_query("title:foo baz author:\"bob alice\""), Ok(expected));
}

#[test]
fn operators_fold_left_in_text_order() {
    let expected = binary(
        MatchOp::And,
        binary(MatchOp::Or, term(None, "a"), term(None, "b")),
        term(None, "c"),
    );
    assert_eq!(parse_user_query("a OR b AND c"), Ok(expected));
}

#[test]
fn too_many_operators() {
    let mut q = String::new();
    for _ in 0..51 {
        q.push_str("x AND ");
    }
    q.push_str("y");
    assert_eq!(parse_user_query(&q), Err(CompileError::QueryTooComplex));
}

#[test]
fn fifty_operators_are_accepted() {
    let mut q = String::new();
    for _ in 0..50 {
        q.push_str("x AND ");
    }
    q.push_str("y");
    assert!(parse_user_query(&q).is_ok());
}

#[test]
fn empty_query() {
    assert_eq!(parse_user_query(""), Err(CompileError::EmptyQuery));
    assert_eq!(parse_user_query(" \t\n"), Err(CompileError::EmptyQuery));
    assert_eq!(parse_user_query("AND foo"), Err(CompileError::EmptyQuery));
}

#[test]
fn trailing_operator_is_dropped() {
    assert_eq!(parse_user_query("foo AND "), Ok(term(None, "foo")));
}

#[test]
fn unterminated_quote() {
    assert_eq!(parse_user_query("\"foo bar"), Err(CompileError::UnterminatedQuote));
    assert_eq!(parse_user_query("title:'foo"), Err(CompileError::UnterminatedQuote));
}

#[test]
fn keywords_inside_words_are_not_operators() {
    assert_eq!(parse_user_query("color"), Ok(term(None, "color")));
    assert_eq!(parse_user_query("author:bob"), Ok(term(Some(XapianTag::Author), "bob")));
    let expected = binary(MatchOp::Or, term(None, "android"), term(None, "band"));
    assert_eq!(parse_user_query("android band"), Ok(expected));
}

#[test]
fn field_query_with_operator() {
    let expected = binary(
        MatchOp::AndNot,
        binary(
            MatchOp::Or,
            binary(MatchOp::Or, term(Some(XapianTag::Title), "foo"), Query::Phrase {
                field: None,
                words: vec!["baz".to_string(), "bar".to_string()],
            }),
            Query::Phrase { field: Some(XapianTag::Author), words: vec!["bob".to_string(), "alice".to_string()] },
        ),
        term(Some(XapianTag::Tag), "draft"),
    );
    assert_eq!(parse_user_query("title:foo \"baz bar\" author:\"bob alice\" AND NOT tag:draft"), Ok(expected));
}

#[test]
fn tag_no_trailing_whitespace() {
    assert_eq!(
        XapianTag::parse(r#"author:bar"#),
        Some((XapianTag::Author, "bar".to_string(), "".to_string()))
    );
}

#[test]
fn unicode_whitespace_is_blank() {
    assert_eq!(parse_user_query("\u{a0}"), Err(CompileError::EmptyQuery));
    assert_eq!(parse_user_query("\u{c}\u{3000} \u{2028}"), Err(CompileError::EmptyQuery));
    assert_eq!(parse_user_query("\u{3000}foo\u{a0}"), Ok(term(None, "foo")));
    let expected = binary(MatchOp::Or, term(None, "a"), term(None, "b"));
    assert_eq!(parse_user_query("a\u{2003}b"), Ok(expected));
}

#[test]
fn field_word_in_any_case() {
    assert_eq!(parse_user_query("TiTlE:foo"), Ok(term(Some(XapianTag::Title), "foo")));
    assert_eq!(parse_user_query("fullpath:x_1"), Ok(term(Some(XapianTag::Fullpath), "x_1")));
}

#[test]
fn word_operator_word_for_each_keyword() {
    let cases = [
        ("AND MAYBE", MatchOp::AndMaybe),
        ("synonym", MatchOp::Synonym),
        ("And Not", MatchOp::AndNot),
        ("FILTER", MatchOp::Filter),
        ("phrase", MatchOp::Phrase),
        ("Scaled", MatchOp::ScaleWeight),
        ("RANGE", MatchOp::ValueRange),
        ("elite", MatchOp::EliteSet),
        ("NEAR", MatchOp::Near),
        ("and", MatchOp::And),
        ("XoR", MatchOp::Xor),
        ("or", MatchOp::Or),
        (">", MatchOp::ValueGe),
        ("<", MatchOp::ValueLe),
    ];
    for (k, op) in cases {
        let q = format!("foo {} bar", k);
        assert_eq!(parse_user_query(&q), Ok(binary(op, term(None, "foo"), term(None, "bar"))), "{}", q);
    }
}

#[test]
fn and_chain_guard_boundary() {
    let at = |n: usize| format!("a{}", " AND a".repeat(n));
    assert_eq!(parse_user_query(&at(51)), Err(CompileError::QueryTooComplex));
    let mut expected = term(None, "a");
    for _ in 0..50 {
        expected = binary(MatchOp::And, expected, term(None, "a"));
    }
    assert_eq!(parse_user_query(&at(50)), Ok(expected));
}
