//! The package record and the date a citation is made on.

use vstd::prelude::*;

verus! {

/// What a manifest says about a package.
///
/// The optional fields are absent or present; an absent field is never
/// stood for by an empty string or an empty list.
#[derive(Debug, PartialEq, Eq)]
pub struct PackageInfo {
    pub name: String,
    pub version: String,
    pub authors: Vec<String>,
    pub description: Option<String>,
    pub repository: Option<String>,
    pub keywords: Option<Vec<String>>,
}

/// The mathematical content of a [`PackageInfo`].
pub struct PackageText {
    pub name: Seq<char>,
    pub version: Seq<char>,
    pub authors: Seq<Seq<char>>,
    pub description: Option<Seq<char>>,
    pub repository: Option<Seq<char>>,
    pub keywords: Option<Seq<Seq<char>>>,
}

/// The character sequences held by a vector of strings, in order.
pub open spec fn texts(items: Seq<String>) -> Seq<Seq<char>> {
    Seq::new(items.len(), |i: int| items[i]@)
}

/// The content of an optional string.
pub open spec fn text_if_any(item: Option<String>) -> Option<Seq<char>> {
    match item {
        Some(s) => Some(s@),
        None => None,
    }
}

/// The content of an optional list of strings.
pub open spec fn texts_if_any(items: Option<Vec<String>>) -> Option<Seq<Seq<char>>> {
    match items {
        Some(v) => Some(texts(v@)),
        None => None,
    }
}

impl View for PackageInfo {
    type V = PackageText;

    open spec fn view(&self) -> PackageText {
        PackageText {
            name: self.name@,
            version: self.version@,
            authors: texts(self.authors@),
            description: text_if_any(self.description),
            repository: text_if_any(self.repository),
            keywords: texts_if_any(self.keywords),
        }
    }
}

/// The month and year a citation is generated in. They say when the
/// citation was made, not when the package was released.
#[derive(Clone, Copy, Debug, PartialEq, Eq)]
pub struct CitationDate {
    pub year: i32,
    pub month: u32,
}

} // verus!
