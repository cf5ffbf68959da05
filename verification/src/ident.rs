//! Identifiers: document URIs and request ids.
use vstd::prelude::*;

verus! {

/// A key of a [`crate::table::Table`]: a value that is compared by its view.
pub trait Key: View + Sized {
    /// Whether the two keys name the same thing.
    fn same(&self, other: &Self) -> (r: bool)
        ensures
            r == (self@ == other@),
    ;

    /// A fresh key that names the same thing.
    fn duplicate(&self) -> (r: Self)
        ensures
            r@ == self@,
    ;
}

/// The identifier of a document. Its view is the text of the URI.
#[derive(Debug, PartialEq, Eq, PartialOrd, Ord, Hash)]
pub struct Uri {
    text: String,
}

impl View for Uri {
    type V = Seq<char>;

    closed spec fn view(&self) -> Seq<char> {
        self.text@
    }
}

impl Uri {
    /// The URI written as `text`.
    pub fn new(text: String) -> (r: Uri)
        ensures
            r@ == text@,
    {
        Uri { text }
    }

    /// The URI written as the string slice `text`.
    pub fn parse(text: &str) -> (r: Uri)
        ensures
            r@ == text@,
    {
        Uri { text: String::from_str(text) }
    }

    /// The text of the URI.
    pub fn as_str(&self) -> (r: &str)
        ensures
            r@ == self@,
    {
        self.text.as_str()
    }
}

impl Key for Uri {
    fn same(&self, other: &Self) -> (r: bool) {
        self.text == other.text
    }

    fn duplicate(&self) -> (r: Self) {
        Uri { text: self.text.clone() }
    }
}

impl Clone for Uri {
    fn clone(&self) -> (r: Self)
        ensures
            r@ == self@,
    {
        Uri { text: self.text.clone() }
    }
}

/// What a request id stands for: a number or a text.
pub enum RequestIdView {
    Number(int),
    Text(Seq<char>),
}

/// The id that the sender of a request gave it.
#[derive(Debug, PartialEq, Eq, Hash)]
pub enum RequestId {
    Number(i32),
    Text(String),
}

impl View for RequestId {
    type V = RequestIdView;

    open spec fn view(&self) -> RequestIdView {
        match self {
            RequestId::Number(n) => RequestIdView::Number(*n as int),
            RequestId::Text(t) => RequestIdView::Text(t@),
        }
    }
}

impl Key for RequestId {
    fn same(&self, other: &Self) -> (r: bool) {
        match self {
            RequestId::Number(a) => match other {
                RequestId::Number(b) => *a == *b,
                RequestId::Text(_) => false,
            },
            RequestId::Text(a) => match other {
                RequestId::Number(_) => false,
                RequestId::Text(b) => *a == *b,
            },
        }
    }

    fn duplicate(&self) -> (r: Self) {
        match self {
            RequestId::Number(a) => RequestId::Number(*a),
            RequestId::Text(a) => RequestId::Text(a.clone()),
        }
    }
}

impl Clone for RequestId {
    fn clone(&self) -> (r: Self)
        ensures
            r@ == self@,
    {
        self.duplicate()
    }
}

/// The name of a file, as a key. Its view is the name's text.
#[derive(Debug, PartialEq, Eq, Hash)]
pub struct FileName {
    text: String,
}

impl View for FileName {
    type V = Seq<char>;

    closed spec fn view(&self) -> Seq<char> {
        self.text@
    }
}

impl FileName {
    /// The file name written as `text`.
    pub fn new(text: String) -> (r: FileName)
        ensures
            r@ == text@,
    {
        FileName { text }
    }
}

impl Key for FileName {
    fn same(&self, other: &Self) -> (r: bool) {
        self.text == other.text
    }

    fn duplicate(&self) -> (r: Self) {
        FileName { text: self.text.clone() }
    }
}

} // verus!
