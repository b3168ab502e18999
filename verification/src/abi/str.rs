//! Strings that cross the boundary between two builds of the library.
//!
//! A [`Str`] borrows its text, a [`BoxedStr`] owns a copy of it. Both are
//! made from text that is valid UTF-8 and hand it back as it was.

use vstd::prelude::*;
use vstd::string::StringExecFns;

verus! {

/// Borrowed text.
#[derive(Clone, Copy, Debug)]
pub struct Str<'a> {
    text: &'a str,
}

impl<'a> View for Str<'a> {
    type V = Seq<char>;

    /// The characters of the text.
    closed spec fn view(&self) -> Seq<char> {
        self.text@
    }
}

impl<'a> Str<'a> {
    /// Borrows `str`.
    pub fn new(str: &'a str) -> (borrowed: Str<'a>)
        ensures
            borrowed@ == str@,
    {
        Str { text: str }
    }

    /// The text borrowed, for as long as it was lent.
    pub fn as_str(&self) -> (text: &'a str)
        ensures
            text@ == self@,
    {
        self.text
    }
}

/// Owned text.
#[derive(Debug)]
pub struct BoxedStr {
    text: String,
}

impl View for BoxedStr {
    type V = Seq<char>;

    /// The characters of the text.
    closed spec fn view(&self) -> Seq<char> {
        self.text@
    }
}

impl BoxedStr {
    /// Copies `str` into an allocation of its own.
    pub fn new(str: &str) -> (owned: BoxedStr)
        ensures
            owned@ == str@,
    {
        BoxedStr { text: String::from_str(str) }
    }

    /// The text owned.
    pub fn deref(&self) -> (text: &str)
        ensures
            text@ == self@,
    {
        self.text.as_str()
    }

    /// The text owned, borrowed for as long as its owner.
    pub fn as_ref<'a>(&'a self) -> (borrowed: Str<'a>)
        ensures
            borrowed@ == self@,
    {
        Str::new(self.text.as_str())
    }
}

} // verus!
