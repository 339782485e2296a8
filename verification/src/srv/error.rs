//! The errors that the server shows to a guest.

use vstd::prelude::*;

verus! {

/// An error page: the status code and what the page says.
#[derive(Debug)]
pub struct Error {
    pub code: u16,
    pub msg: String,
}

/// An error page as a mathematical value.
pub struct ErrorView {
    pub code: u16,
    pub msg: Seq<char>,
}

impl View for Error {
    type V = ErrorView;

    open spec fn view(&self) -> ErrorView {
        ErrorView { code: self.code, msg: self.msg@ }
    }
}

/// The string as a text of its own.
fn text(s: &str) -> (r: String)
    ensures
        r@ == s@,
{
    s.to_owned()
}

impl Error {
    /// The page that refuses access.
    pub open spec fn e401_view() -> ErrorView {
        ErrorView { code: 401, msg: "You don't have access to that!"@ }
    }

    /// The page for a failure inside the server.
    pub open spec fn e500_view(msg: Seq<char>) -> ErrorView {
        ErrorView { code: 500, msg }
    }

    /// The request could not be read.
    pub fn e400() -> (r: Error)
        ensures
            r@ == (ErrorView { code: 400, msg: "Something went wrong..."@ }),
    {
        Error { code: 400, msg: text("Something went wrong...") }
    }

    /// The guest may not see or change what was asked for.
    pub fn e401() -> (r: Error)
        ensures
            r@ == Error::e401_view(),
    {
        Error { code: 401, msg: text("You don't have access to that!") }
    }

    /// There is no such page.
    pub fn e404() -> (r: Error)
        ensures
            r@ == (ErrorView { code: 404, msg: "Page not found :("@ }),
    {
        Error { code: 404, msg: text("Page not found :(") }
    }

    /// Something failed inside the server; the page says what.
    pub fn e500(msg: &str) -> (r: Error)
        ensures
            r@ == Error::e500_view(msg@),
    {
        Error { code: 500, msg: text(msg) }
    }
}

} // verus!
