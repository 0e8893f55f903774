//! Importing a Wikipedia dump: the states of a reader that turns the XML
//! events of `<page>` records into export documents.

use vstd::prelude::*;
use crate::document::XqDocument;
use crate::text::same_text;

verus! {

/// Where the reader is within the dump.
#[derive(Clone, Copy, Debug, PartialEq, Eq, Structural)]
pub enum ParserState {
    Between,
    ReadingPage,
    ReadingTitle,
    ReadingTimestamp,
    ReadingUsername,
    ReadingText,
}

/// An XML event, with element names and unescaped text.
#[derive(Debug)]
pub enum XmlEvent {
    Start(String),
    End(String),
    Text(String),
    Other,
}

/// What the caller does after an event.
#[derive(Clone, Copy, Debug, PartialEq, Eq, Structural)]
pub enum PageStep {
    Continue,
    /// A page is complete: index `xqdoc`.
    Publish,
}

/// An element that should hold text held something else.
#[derive(Clone, Copy, Debug, PartialEq, Eq, Structural)]
pub enum PageError {
    BadTitle,
    BadDate,
    BadAuthor,
    BadBody,
}

/// The reader: its state and the page being read.
#[derive(Debug)]
pub struct Parser {
    pub state: ParserState,
    pub xqdoc: XqDocument,
}

/// The state that a start tag leads to inside a page.
pub open spec fn state_for_start(name: Seq<char>) -> ParserState {
    if name == "title"@ {
        ParserState::ReadingTitle
    } else if name == "username"@ {
        ParserState::ReadingUsername
    } else if name == "timestamp"@ {
        ParserState::ReadingTimestamp
    } else if name == "text"@ {
        ParserState::ReadingText
    } else {
        ParserState::ReadingPage
    }
}

/// A fresh page: empty but for the tag `wikipedia`.
pub open spec fn is_fresh_page(d: XqDocument) -> bool {
    &&& d.id@.len() == 0 && d.author@.len() == 0 && d.date@.len() == 0
    &&& d.title@.len() == 0 && d.subtitle@.len() == 0 && d.body@.len() == 0
    &&& d.tags@.len() == 1 && d.tags@[0]@ == "wikipedia"@
}

fn fresh_page() -> (r: XqDocument)
    ensures
        is_fresh_page(r),
{
    let mut d = XqDocument::new();
    d.tags.push("wikipedia".to_owned());
    d
}

impl Parser {
    pub fn new() -> (r: Parser)
        ensures
            r.state == ParserState::Between,
            is_fresh_page(r.xqdoc),
    {
        Parser { state: ParserState::Between, xqdoc: fresh_page() }
    }

    /// Takes one XML event. Between pages only `<page>` matters: it starts
    /// a fresh page. Inside a page, `</page>` publishes it, and the start
    /// of `title`, `username`, `timestamp` or `text` makes the next event
    /// the text of that field, which must then be text.
    pub fn process(&mut self, ev: XmlEvent) -> (r: Result<PageStep, PageError>)
        ensures
            match old(self).state {
                ParserState::Between => r == Ok::<PageStep, PageError>(PageStep::Continue) && (
                    if ev matches XmlEvent::Start(n) && n@ == "page"@ {
                        final(self).state == ParserState::ReadingPage && is_fresh_page(final(self).xqdoc)
                    } else {
                        *final(self) == *old(self)
                    }),
                ParserState::ReadingPage => match ev {
                    XmlEvent::End(n) => if n@ == "page"@ {
                        r == Ok::<PageStep, PageError>(PageStep::Publish) && final(self).state == ParserState::Between
                            && final(self).xqdoc == old(self).xqdoc
                    } else {
                        r == Ok::<PageStep, PageError>(PageStep::Continue) && *final(self) == *old(self)
                    },
                    XmlEvent::Start(n) => r == Ok::<PageStep, PageError>(PageStep::Continue)
                        && final(self).state == state_for_start(n@) && final(self).xqdoc == old(self).xqdoc,
                    _ => r == Ok::<PageStep, PageError>(PageStep::Continue) && *final(self) == *old(self),
                },
                ParserState::ReadingTitle => match ev {
                    XmlEvent::Text(t) => r == Ok::<PageStep, PageError>(PageStep::Continue)
                        && final(self).state == ParserState::ReadingPage
                        && final(self).xqdoc == (XqDocument { title: t, ..old(self).xqdoc }),
                    _ => r == Err::<PageStep, PageError>(PageError::BadTitle) && *final(self) == *old(self),
                },
                ParserState::ReadingTimestamp => match ev {
                    XmlEvent::Text(t) => r == Ok::<PageStep, PageError>(PageStep::Continue)
                        && final(self).state == ParserState::ReadingPage
                        && final(self).xqdoc == (XqDocument { date: t, ..old(self).xqdoc }),
                    _ => r == Err::<PageStep, PageError>(PageError::BadDate) && *final(self) == *old(self),
                },
                ParserState::ReadingUsername => match ev {
                    XmlEvent::Text(t) => r == Ok::<PageStep, PageError>(PageStep::Continue)
                        && final(self).state == ParserState::ReadingPage
                        && final(self).xqdoc == (XqDocument { author: t, ..old(self).xqdoc }),
                    _ => r == Err::<PageStep, PageError>(PageError::BadAuthor) && *final(self) == *old(self),
                },
                ParserState::ReadingText => match ev {
                    XmlEvent::Text(t) => r == Ok::<PageStep, PageError>(PageStep::Continue)
                        && final(self).state == ParserState::ReadingPage
                        && final(self).xqdoc == (XqDocument { body: t, ..old(self).xqdoc }),
                    _ => r == Err::<PageStep, PageError>(PageError::BadBody) && *final(self) == *old(self),
                },
            },
    {
        match self.state {
            ParserState::Between => {
                if let XmlEvent::Start(n) = &ev {
                    if same_text(n.as_str(), "page") {
                        self.xqdoc = fresh_page();
                        self.state = ParserState::ReadingPage;
                    }
                }
                Ok(PageStep::Continue)
            },
            ParserState::ReadingPage => match ev {
                XmlEvent::End(n) => {
                    if same_text(n.as_str(), "page") {
                        self.state = ParserState::Between;
                        Ok(PageStep::Publish)
                    } else {
                        Ok(PageStep::Continue)
                    }
                },
                XmlEvent::Start(n) => {
                    self.state = if same_text(n.as_str(), "title") {
                        ParserState::ReadingTitle
                    } else if same_text(n.as_str(), "username") {
                        ParserState::ReadingUsername
                    } else if same_text(n.as_str(), "timestamp") {
                        ParserState::ReadingTimestamp
                    } else if same_text(n.as_str(), "text") {
                        ParserState::ReadingText
                    } else {
                        ParserState::ReadingPage
                    };
                    Ok(PageStep::Continue)
                },
                _ => Ok(PageStep::Continue),
            },
            ParserState::ReadingTitle => match ev {
                XmlEvent::Text(t) => {
                    self.xqdoc.title = t;
                    self.state = ParserState::ReadingPage;
                    Ok(PageStep::Continue)
                },
                _ => Err(PageError::BadTitle),
            },
            ParserState::ReadingTimestamp => match ev {
                XmlEvent::Text(t) => {
                    self.xqdoc.date = t;
                    self.state = ParserState::ReadingPage;
                    Ok(PageStep::Continue)
                },
                _ => Err(PageError::BadDate),
            },
            ParserState::ReadingUsername => match ev {
                XmlEvent::Text(t) => {
                    self.xqdoc.author = t;
                    self.state = ParserState::ReadingPage;
                    Ok(PageStep::Continue)
                },
                _ => Err(PageError::BadAuthor),
            },
            ParserState::ReadingText => match ev {
                XmlEvent::Text(t) => {
                    self.xqdoc.body = t;
                    self.state = ParserState::ReadingPage;
                    Ok(PageStep::Continue)
                },
                _ => Err(PageError::BadBody),
            },
        }
    }
}

} // verus!
