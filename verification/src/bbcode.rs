//! Chat markup: bold, italic, underline and links in bracket notation.

use vstd::prelude::*;
use vstd::string::*;

verus! {

/// A piece of text together with the markup that wraps it.
pub enum BbCode<'a> {
    Bold(&'a str),
    Italic(&'a str),
    Underline(&'a str),
    Link(&'a str, &'a str),
}

/// `open` + `text` + `close`.
pub open spec fn wrapped(open: Seq<char>, text: Seq<char>, close: Seq<char>) -> Seq<char> {
    open + text + close
}

impl<'a> BbCode<'a> {
    /// The marked-up text as it is sent to the chat.
    pub open spec fn rendered(self) -> Seq<char> {
        match self {
            BbCode::Bold(text) => wrapped("[B]"@, text@, "[/B]"@),
            BbCode::Italic(text) => wrapped("[I]"@, text@, "[/I]"@),
            BbCode::Underline(text) => wrapped("[U]"@, text@, "[/U]"@),
            BbCode::Link(text, url) => wrapped("[URL="@ + url@ + "]"@, text@, "[/URL]"@),
        }
    }

    /// Renders the markup.
    pub fn to_string(&self) -> (out: String)
        ensures
            out@ == self.rendered(),
    {
        match self {
            BbCode::Bold(text) => {
                let mut out = String::from_str("[B]");
                out.append(text);
                out.append("[/B]");
                out
            },
            BbCode::Italic(text) => {
                let mut out = String::from_str("[I]");
                out.append(text);
                out.append("[/I]");
                out
            },
            BbCode::Underline(text) => {
                let mut out = String::from_str("[U]");
                out.append(text);
                out.append("[/U]");
                out
            },
            BbCode::Link(text, url) => {
                let mut out = String::from_str("[URL=");
                out.append(url);
                out.append("]");
                out.append(text);
                out.append("[/URL]");
                out
            },
        }
    }
}

pub fn bold<'a>(text: &'a str) -> (code: BbCode<'a>)
    ensures
        code == BbCode::Bold(text),
{
    BbCode::Bold(text)
}

pub fn italic<'a>(text: &'a str) -> (code: BbCode<'a>)
    ensures
        code == BbCode::Italic(text),
{
    BbCode::Italic(text)
}

pub fn underline<'a>(text: &'a str) -> (code: BbCode<'a>)
    ensures
        code == BbCode::Underline(text),
{
    BbCode::Underline(text)
}

pub fn link<'a>(text: &'a str, url: &'a str) -> (code: BbCode<'a>)
    ensures
        code == BbCode::Link(text, url),
{
    BbCode::Link(text, url)
}

} // verus!
