//! What a driver decides around the library: where the citation goes,
//! whether an existing file may be replaced, and which files are readmes.
//!
//! The functions here only decide. Reading and writing files is left to the
//! caller, who hands in what it found and carries out what comes back.

use vstd::prelude::*;
use crate::record::text_if_any;
use crate::occurrence::{contains, occurs};

verus! {

/// The file name of a manifest.
pub const MANIFEST_FILE: &'static str = "Cargo.toml";

/// The file name of the citation where none is asked for.
pub const CITATION_FILE: &'static str = "CITATION.bib";

/// The file name that stands for standard output.
pub const STDOUT_NAME: &'static str = "STDOUT";

/// What marks a file as a readme: its name holds this, in upper case.
pub const README_MARK: &'static str = "README";

/// Where the citation goes.
#[derive(Debug, PartialEq, Eq)]
pub enum Destination {
    /// To standard output.
    Stdout,
    /// To the file of this name, in the package directory.
    File(String),
}

/// The mathematical content of a [`Destination`].
pub enum DestinationText {
    Stdout,
    File(Seq<char>),
}

impl View for Destination {
    type V = DestinationText;

    open spec fn view(&self) -> DestinationText {
        match self {
            Destination::Stdout => DestinationText::Stdout,
            Destination::File(name) => DestinationText::File(name@),
        }
    }
}

/// The destination that a file name option selects: the default file where
/// there is no option, standard output where the option is the name that
/// stands for it, and the named file otherwise.
pub open spec fn destination_of(filename: Option<Seq<char>>) -> DestinationText {
    match filename {
        None => DestinationText::File(CITATION_FILE@),
        Some(name) => if name == STDOUT_NAME@ {
            DestinationText::Stdout
        } else {
            DestinationText::File(name)
        },
    }
}

/// Chooses where the citation goes.
pub fn destination(filename: Option<String>) -> (chosen: Destination)
    ensures
        chosen@ == destination_of(text_if_any(filename)),
{
    match filename {
        None => Destination::File(String::from_str(CITATION_FILE)),
        Some(name) => {
            if name == String::from_str(STDOUT_NAME) {
                Destination::Stdout
            } else {
                Destination::File(name)
            }
        },
    }
}

/// Whether the citation file may be written: always where there is none
/// yet, and over an existing one only where overwriting was asked for.
pub fn may_write(present: bool, overwrite: bool) -> (allowed: bool)
    ensures
        allowed == (!present || overwrite),
{
    !present || overwrite
}

/// Whether a directory entry of this name is a readme: the name holds
/// `README`, in this case exactly.
pub fn is_readme(name: &str) -> (yes: bool)
    ensures
        yes == occurs(name@, README_MARK@),
{
    contains(name, README_MARK)
}

} // verus!
