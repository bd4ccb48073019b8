//! Input specifiers and the sources they name.

use vstd::prelude::*;
use vstd::string::StrSliceExecFns;

verus! {

/// Where the lines of one input come from.
#[derive(Debug, PartialEq, Eq)]
pub enum Source {
    /// The standard input stream.
    Stdin,
    /// The file at `path`.
    File { path: String },
}

/// The mathematical value of a [`Source`].
pub enum SourceView {
    Stdin,
    File { path: Seq<char> },
}

impl View for Source {
    type V = SourceView;

    open spec fn view(&self) -> SourceView {
        match *self {
            Source::Stdin => SourceView::Stdin,
            Source::File { path } => SourceView::File { path: path@ },
        }
    }
}

/// The specifier that stands for standard input: a single hyphen.
pub open spec fn stdin_marker() -> Seq<char> {
    seq!['-']
}

/// The source that a specifier names: standard input for the marker,
/// and for anything else the file whose path is the specifier itself.
pub open spec fn source_of(specifier: Seq<char>) -> SourceView {
    if specifier =~= stdin_marker() {
        SourceView::Stdin
    } else {
        SourceView::File { path: specifier }
    }
}

impl Source {
    /// Tells which source `specifier` names.
    pub fn resolve(specifier: &str) -> (source: Source)
        ensures
            source@ == source_of(specifier@),
    {
        if specifier.unicode_len() == 1 && specifier.get_char(0) == '-' {
            Source::Stdin
        } else {
            Source::File { path: String::from_str(specifier) }
        }
    }
}

} // verus!
