use markdown_query::wiki::{PageError, PageStep, Parser, ParserState, XmlEvent};

fn start(n: &str) -> XmlEvent {
    XmlEvent::Start(n.to_string())
}

fn text(t: &str) -> XmlEvent {
    XmlEvent::Text(t.to_string())
}

#[test]
fn reads_one_page() {
    let mut p = Parser::new();
    assert_eq!(p.process(start("mediawiki")), Ok(PageStep::Continue));
    assert_eq!(p.state, ParserState::Between);
    assert_eq!(p.process(start("page")), Ok(PageStep::Continue));
    assert_eq!(p.state, ParserState::ReadingPage);
    p.process(start("title")).unwrap();
    assert_eq!(p.state, ParserState::ReadingTitle);
    p.process(text("Rust")).unwrap();
    p.process(start("timestamp")).unwrap();
    p.process(text("2021-06-22T12:48:16Z")).unwrap();
    p.process(start("username")).unwrap();
    p.process(text("alice")).unwrap();
    p.process(start("revision")).unwrap();
    assert_eq!(p.state, ParserState::ReadingPage);
    p.process(start("text")).unwrap();
    p.process(text("body text")).unwrap();
    assert_eq!(p.process(XmlEvent::End("page".to_string())), Ok(PageStep::Publish));
    assert_eq!(p.state, ParserState::Between);
    assert_eq!(p.xqdoc.title, "Rust");
    assert_eq!(p.xqdoc.date, "2021-06-22T12:48:16Z");
    assert_eq!(p.xqdoc.author, "alice");
    assert_eq!(p.xqdoc.body, "body text");
    assert_eq!(p.xqdoc.tags, vec!["wikipedia".to_string()]);
}

#[test]
fn a_new_page_starts_fresh() {
    let mut p = Parser::new();
    p.process(start("page")).unwrap();
    p.process(start("title")).unwrap();
    p.process(text("One")).unwrap();
    p.process(XmlEvent::End("page".to_string())).unwrap();
    p.process(start("page")).unwrap();
    assert_eq!(p.xqdoc.title, "");
    assert_eq!(p.xqdoc.tags, vec!["wikipedia".to_string()]);
}

#[test]
fn field_without_text_is_an_error() {
    let mut p = Parser::new();
    p.process(start("page")).unwrap();
    p.process(start("title")).unwrap();
    assert_eq!(p.process(XmlEvent::Other), Err(PageError::BadTitle));
    assert_eq!(p.state, ParserState::ReadingTitle);
    let mut q = Parser::new();
    q.process(start("page")).unwrap();
    q.process(start("text")).unwrap();
    assert_eq!(q.process(start("x")), Err(PageError::BadBody));
}
