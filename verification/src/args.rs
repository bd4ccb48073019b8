//! The validated form of a command line.

use crate::source::{source_of, stdin_marker, SourceView};
use vstd::prelude::*;

verus! {

/// How emitted lines are numbered. One policy holds for a whole invocation.
#[derive(Clone, Copy, Debug, PartialEq, Eq, Structural)]
pub enum Numbering {
    /// No line gets a number.
    Plain,
    /// Every line gets a number.
    All,
    /// Every line but the empty ones gets a number.
    NonBlank,
}

/// Why a command line is refused.
#[derive(Clone, Copy, Debug, PartialEq, Eq, Structural)]
pub enum UsageError {
    /// Both numbering flags were given.
    ConflictingFlags,
}

/// The mathematical value of an [`Args`].
pub struct ArgsView {
    /// The input specifiers, in the order in which they are read.
    pub files: Seq<Seq<char>>,
    /// The numbering policy.
    pub numbering: Numbering,
}

impl ArgsView {
    /// Whether every line is numbered.
    pub open spec fn number_lines(self) -> bool {
        self.numbering == Numbering::All
    }

    /// Whether the non-blank lines are numbered, and only they.
    pub open spec fn number_nonblank_lines(self) -> bool {
        self.numbering == Numbering::NonBlank
    }
}

/// A command line that has been accepted: the input specifiers, of which
/// there is at least one, and the numbering policy.
#[derive(Debug)]
pub struct Args {
    files: Vec<String>,
    numbering: Numbering,
}

/// The texts of a sequence of strings.
pub open spec fn texts(strings: Seq<String>) -> Seq<Seq<char>> {
    Seq::new(strings.len(), |i: int| strings[i]@)
}

/// The specifiers that are read when `files` were named: `files` themselves,
/// or standard input alone when none was named.
pub open spec fn effective_files(files: Seq<Seq<char>>) -> Seq<Seq<char>> {
    if files.len() == 0 {
        seq![stdin_marker()]
    } else {
        files
    }
}

/// The policy that the two numbering flags select. They exclude each other,
/// so the pair with both set selects none.
pub open spec fn numbering_of(number_lines: bool, number_nonblank_lines: bool) -> Option<
    Numbering,
> {
    if number_lines && number_nonblank_lines {
        None
    } else if number_lines {
        Some(Numbering::All)
    } else if number_nonblank_lines {
        Some(Numbering::NonBlank)
    } else {
        Some(Numbering::Plain)
    }
}

/// The text that tells the user of [`UsageError::ConflictingFlags`].
pub open spec fn conflicting_flags_message() -> Seq<char> {
    "the argument '--number' cannot be used with '--number-nonblank'"@
}

/// The exit status of an invocation whose command line is refused. It is
/// not zero.
pub open spec fn usage_exit_code() -> int {
    2
}

impl UsageError {
    /// The exit status of an invocation that is refused with this error.
    pub fn exit_code(&self) -> (code: i32)
        ensures
            code == usage_exit_code(),
    {
        2
    }

    /// A description of the error for the user.
    pub fn message(&self) -> (text: String)
        ensures
            text@ == conflicting_flags_message(),
    {
        String::from_str("the argument '--number' cannot be used with '--number-nonblank'")
    }
}

impl View for Args {
    type V = ArgsView;

    closed spec fn view(&self) -> ArgsView {
        ArgsView { files: texts(self.files@), numbering: self.numbering }
    }
}

impl Args {
    #[verifier::type_invariant]
    spec fn has_a_file(&self) -> bool {
        self.files@.len() > 0
    }

    /// Accepts a command line, or refuses it when both numbering flags are set.
    /// With no file named, standard input is read.
    pub fn new(files: Vec<String>, number_lines: bool, number_nonblank_lines: bool) -> (result:
        Result<Args, UsageError>)
        ensures
            match numbering_of(number_lines, number_nonblank_lines) {
                Some(numbering) => result matches Ok(args) && args@ == (ArgsView {
                    files: effective_files(texts(files@)),
                    numbering,
                }),
                None => result == Err::<Args, UsageError>(UsageError::ConflictingFlags),
            },
    {
        if number_lines && number_nonblank_lines {
            return Err(UsageError::ConflictingFlags);
        }
        let numbering = if number_lines {
            Numbering::All
        } else if number_nonblank_lines {
            Numbering::NonBlank
        } else {
            Numbering::Plain
        };
        let mut files = files;
        if files.len() == 0 {
            proof {
                reveal_strlit("-");
            }
            files.push(String::from_str("-"));
            assert(texts(files@) =~= seq![stdin_marker()]) by {
                assert(files@[0]@ =~= stdin_marker());
            }
        }
        Ok(Args { files, numbering })
    }

    /// The input specifiers, in the order in which they are read.
    pub fn files(&self) -> (files: &Vec<String>)
        ensures
            texts(files@) == self@.files,
            files@.len() > 0,
    {
        proof {
            use_type_invariant(self);
        }
        &self.files
    }

    /// The numbering policy.
    pub fn numbering(&self) -> (numbering: Numbering)
        ensures
            numbering == self@.numbering,
    {
        self.numbering
    }

    /// Whether every line is numbered.
    pub fn number_lines(&self) -> (flag: bool)
        ensures
            flag == self@.number_lines(),
    {
        match self.numbering {
            Numbering::All => true,
            _ => false,
        }
    }

    /// Whether the non-blank lines are numbered, and only they.
    pub fn number_nonblank_lines(&self) -> (flag: bool)
        ensures
            flag == self@.number_nonblank_lines(),
    {
        match self.numbering {
            Numbering::NonBlank => true,
            _ => false,
        }
    }
}

/// Naming no file at all reads the same inputs as naming standard input
/// alone: one input, which is standard input.
pub proof fn lemma_no_file_reads_stdin()
    ensures
        effective_files(Seq::empty()) == effective_files(seq![stdin_marker()]),
        effective_files(Seq::empty()).len() == 1,
        source_of(effective_files(Seq::empty())[0]) == SourceView::Stdin,
{
}

/// The two flags select a policy unless both are set, and the policy they
/// select gives back the flags.
pub proof fn lemma_flags_conflict(number_lines: bool, number_nonblank_lines: bool)
    ensures
        numbering_of(number_lines, number_nonblank_lines) is None <==> (number_lines
            && number_nonblank_lines),
        numbering_of(number_lines, number_nonblank_lines) matches Some(numbering) ==> {
            &&& number_lines == (numbering == Numbering::All)
            &&& number_nonblank_lines == (numbering == Numbering::NonBlank)
        },
{
}

/// No accepted command line has both numbering flags set.
pub proof fn lemma_flags_exclude_each_other(args: ArgsView)
    ensures
        !(args.number_lines() && args.number_nonblank_lines()),
{
}

} // verus!
