//! The errors of the library.

use vstd::prelude::*;

verus! {

pub enum Error {
    Provider(String),
    Channel(String),
    Config(String),
    Skill(String),
    Tool(String),
}

pub enum ErrorView {
    Provider(Seq<char>),
    Channel(Seq<char>),
    Config(Seq<char>),
    Skill(Seq<char>),
    Tool(Seq<char>),
}

impl View for Error {
    type V = ErrorView;

    open spec fn view(&self) -> ErrorView {
        match *self {
            Error::Provider(m) => ErrorView::Provider(m@),
            Error::Channel(m) => ErrorView::Channel(m@),
            Error::Config(m) => ErrorView::Config(m@),
            Error::Skill(m) => ErrorView::Skill(m@),
            Error::Tool(m) => ErrorView::Tool(m@),
        }
    }
}

impl Error {
    /// What went wrong.
    pub fn message(&self) -> (r: &str)
        ensures
            r@ == (match self@ {
                ErrorView::Provider(text) => text,
                ErrorView::Channel(text) => text,
                ErrorView::Config(text) => text,
                ErrorView::Skill(text) => text,
                ErrorView::Tool(text) => text,
            }),
    {
        match self {
            Error::Provider(text) => text.as_str(),
            Error::Channel(text) => text.as_str(),
            Error::Config(text) => text.as_str(),
            Error::Skill(text) => text.as_str(),
            Error::Tool(text) => text.as_str(),
        }
    }
}

} // verus!
