//! What a whole invocation writes: the lines that are read from a row of
//! inputs, the text that goes to each of the two output streams, and whether
//! the invocation runs to its end.

use crate::args::{texts, Numbering};
use crate::emitter::{
    emitted, is_numbered, report_line, Action, ActionView, Emitter, EmitterView, Event,
};
use vstd::prelude::*;

verus! {

/// What came of resolving and reading one input specifier.
#[derive(Debug, PartialEq, Eq)]
pub enum Input {
    /// The input named by `specifier` could not be opened, for `reason`.
    Unreadable { specifier: String, reason: String },
    /// The input was opened and gave `lines`. With a `failure`, reading
    /// broke off after them for that reason.
    Readable { lines: Vec<String>, failure: Option<String> },
}

/// The mathematical value of an [`Input`].
pub enum InputView {
    Unreadable { specifier: Seq<char>, reason: Seq<char> },
    Readable { lines: Seq<Seq<char>>, failure: Option<Seq<char>> },
}

/// The text of a string that may be absent.
pub open spec fn option_text(s: Option<String>) -> Option<Seq<char>> {
    match s {
        Some(s) => Some(s@),
        None => None,
    }
}

impl View for Input {
    type V = InputView;

    open spec fn view(&self) -> InputView {
        match *self {
            Input::Unreadable { specifier, reason } => InputView::Unreadable {
                specifier: specifier@,
                reason: reason@,
            },
            Input::Readable { lines, failure } => InputView::Readable {
                lines: texts(lines@),
                failure: option_text(failure),
            },
        }
    }
}

/// The values of a sequence of inputs.
pub open spec fn input_views(inputs: Seq<Input>) -> Seq<InputView> {
    Seq::new(inputs.len(), |i: int| inputs[i]@)
}

/// How many of `lines` get a number.
pub open spec fn numbered_count(numbering: Numbering, lines: Seq<Seq<char>>) -> nat
    decreases lines.len(),
{
    if lines.len() == 0 {
        0
    } else {
        numbered_count(numbering, lines.drop_last()) + if is_numbered(numbering, lines.last()) {
            1nat
        } else {
            0nat
        }
    }
}

/// What is written for the line at index `i` of `lines`, when the counter was
/// `counter` before the first of them: the counter has since grown by the
/// number of numbered lines before `i`.
pub open spec fn chunk(numbering: Numbering, counter: nat, lines: Seq<Seq<char>>, i: int) -> Seq<
    char,
> {
    emitted(numbering, counter + numbered_count(numbering, lines.take(i)), lines[i])
}

/// What is written for each of `lines`, in their order.
pub open spec fn chunks(numbering: Numbering, counter: nat, lines: Seq<Seq<char>>) -> Seq<
    Seq<char>,
> {
    Seq::new(lines.len(), |i: int| chunk(numbering, counter, lines, i))
}

/// What is written for `lines` as a whole, when the counter was `counter`
/// before the first of them.
pub open spec fn emitted_lines(numbering: Numbering, counter: nat, lines: Seq<Seq<char>>) -> Seq<
    char,
> {
    chunks(numbering, counter, lines).flatten()
}

/// The lines that an invocation reads from `inputs`, in the order in which it
/// reads them: those of each input that could be opened, up to the first
/// input whose reading fails, the lines read before the failure included.
pub open spec fn lines_read(inputs: Seq<InputView>) -> Seq<Seq<char>>
    decreases inputs.len(),
{
    if inputs.len() == 0 {
        Seq::empty()
    } else {
        match inputs[0] {
            InputView::Unreadable { .. } => lines_read(inputs.drop_first()),
            InputView::Readable { lines, failure } => if failure is Some {
                lines
            } else {
                lines + lines_read(inputs.drop_first())
            },
        }
    }
}

/// What an invocation writes to standard error: one line for each input that
/// could not be opened, naming its specifier, up to the first input whose
/// reading fails.
pub open spec fn reports(inputs: Seq<InputView>) -> Seq<char>
    decreases inputs.len(),
{
    if inputs.len() == 0 {
        Seq::empty()
    } else {
        match inputs[0] {
            InputView::Unreadable { specifier, reason } => report_line(specifier, reason)
                + reports(inputs.drop_first()),
            InputView::Readable { lines, failure } => if failure is Some {
                Seq::empty()
            } else {
                reports(inputs.drop_first())
            },
        }
    }
}

/// The reason for which an invocation breaks off: that of the first input
/// whose reading fails, if there is one.
pub open spec fn failure_of(inputs: Seq<InputView>) -> Option<Seq<char>>
    decreases inputs.len(),
{
    if inputs.len() == 0 {
        None
    } else {
        match inputs[0] {
            InputView::Unreadable { .. } => failure_of(inputs.drop_first()),
            InputView::Readable { lines, failure } => if failure is Some {
                failure
            } else {
                failure_of(inputs.drop_first())
            },
        }
    }
}

/// What an invocation has written, and whether it ran to its end.
#[derive(Debug, PartialEq, Eq)]
pub struct Transcript {
    /// The text written to standard output.
    pub stdout: String,
    /// The text written to standard error while inputs were resolved.
    pub stderr: String,
    /// The reason for which the invocation broke off, if it did.
    pub failure: Option<String>,
}

/// The mathematical value of a [`Transcript`].
pub struct TranscriptView {
    pub stdout: Seq<char>,
    pub stderr: Seq<char>,
    pub failure: Option<Seq<char>>,
}

impl View for Transcript {
    type V = TranscriptView;

    open spec fn view(&self) -> TranscriptView {
        TranscriptView {
            stdout: self.stdout@,
            stderr: self.stderr@,
            failure: option_text(self.failure),
        }
    }
}

impl TranscriptView {
    /// The transcript of an invocation that has done nothing yet.
    pub open spec fn empty() -> TranscriptView {
        TranscriptView { stdout: Seq::empty(), stderr: Seq::empty(), failure: None }
    }

    /// The transcript after `action` has been performed.
    pub open spec fn performed(self, action: ActionView) -> TranscriptView {
        match action {
            ActionView::Print { text } => TranscriptView {
                stdout: self.stdout + text,
                stderr: self.stderr,
                failure: self.failure,
            },
            ActionView::Report { text } => TranscriptView {
                stdout: self.stdout,
                stderr: self.stderr + text,
                failure: self.failure,
            },
            ActionView::Abort { reason } => TranscriptView {
                stdout: self.stdout,
                stderr: self.stderr,
                failure: Some(reason),
            },
        }
    }

    /// The exit status of the invocation: zero if it ran to its end, and one
    /// if it broke off. Inputs that could not be opened do not change it.
    pub open spec fn exit_code(self) -> int {
        if self.failure is None {
            0
        } else {
            1
        }
    }
}

/// The transcript of an invocation with the policy `numbering` whose
/// specifiers resolved to `inputs`, in this order.
pub open spec fn transcript_of(numbering: Numbering, inputs: Seq<InputView>) -> TranscriptView {
    TranscriptView {
        stdout: emitted_lines(numbering, 0, lines_read(inputs)),
        stderr: reports(inputs),
        failure: failure_of(inputs),
    }
}

impl Transcript {
    /// The transcript of an invocation that has done nothing yet.
    pub fn new() -> (transcript: Transcript)
        ensures
            transcript@ == TranscriptView::empty(),
    {
        Transcript { stdout: String::new(), stderr: String::new(), failure: None }
    }

    /// Performs `action` on the transcript in place of the real streams.
    pub fn record(&mut self, action: Action)
        ensures
            final(self)@ == old(self)@.performed(action@),
    {
        match action {
            Action::Print { text } => {
                self.stdout.append(text.as_str());
            },
            Action::Report { text } => {
                self.stderr.append(text.as_str());
            },
            Action::Abort { reason } => {
                self.failure = Some(reason);
            },
        }
    }

    /// Whether the invocation ran to its end.
    pub fn completed(&self) -> (completed: bool)
        ensures
            completed == (self@.failure is None),
    {
        self.failure.is_none()
    }

    /// The exit status of the invocation.
    pub fn exit_code(&self) -> (code: i32)
        ensures
            code == self@.exit_code(),
    {
        if self.failure.is_none() {
            0
        } else {
            1
        }
    }
}

/// No more lines get a number than there are lines.
pub proof fn lemma_numbered_count_bound(numbering: Numbering, lines: Seq<Seq<char>>)
    ensures
        numbered_count(numbering, lines) <= lines.len(),
    decreases lines.len(),
{
    if lines.len() > 0 {
        lemma_numbered_count_bound(numbering, lines.drop_last());
    }
}

/// Counting the numbered lines of two rows of lines in turn counts those of
/// the two rows joined.
pub proof fn lemma_numbered_count_add(
    numbering: Numbering,
    first: Seq<Seq<char>>,
    second: Seq<Seq<char>>,
)
    ensures
        numbered_count(numbering, first + second) == numbered_count(numbering, first)
            + numbered_count(numbering, second),
    decreases second.len(),
{
    if second.len() > 0 {
        lemma_numbered_count_add(numbering, first, second.drop_last());
        assert((first + second).drop_last() =~= first + second.drop_last());
    }
}

/// One more line adds what is written for it, numbered after the lines before it.
pub proof fn lemma_emitted_lines_push(
    numbering: Numbering,
    counter: nat,
    lines: Seq<Seq<char>>,
    line: Seq<char>,
)
    ensures
        emitted_lines(numbering, counter, lines.push(line)) == emitted_lines(
            numbering,
            counter,
            lines,
        ) + emitted(numbering, counter + numbered_count(numbering, lines), line),
{
    let longer = lines.push(line);
    let last = emitted(numbering, counter + numbered_count(numbering, lines), line);
    assert(chunks(numbering, counter, longer) =~= chunks(numbering, counter, lines).push(last)) by {
        assert forall|i: int| 0 <= i < longer.len() implies chunks(numbering, counter, longer)[i]
            == chunks(numbering, counter, lines).push(last)[i] by {
            if i < lines.len() {
                assert(longer.take(i) =~= lines.take(i));
            } else {
                assert(longer.take(i) =~= lines);
            }
        }
    }
    chunks(numbering, counter, lines).lemma_flatten_push(last);
}

/// Runs a whole invocation on inputs that are held in memory: `inputs` are
/// what resolving and reading the specifiers gave, in the order of the
/// specifiers. The lines of all inputs share one counter. Nothing is read
/// after an input whose reading fails.
pub fn run(numbering: Numbering, inputs: &Vec<Input>) -> (transcript: Transcript)
    ensures
        transcript@ == transcript_of(numbering, input_views(inputs@)),
{
    let mut emitter = Emitter::new(numbering);
    let mut transcript = Transcript::new();
    let ghost all = input_views(inputs@);
    let ghost mut read: Seq<Seq<char>> = Seq::empty();
    let mut i: usize = 0;
    assert(all.skip(0) =~= all);
    while i < inputs.len()
        invariant
            0 <= i <= inputs.len(),
            all == input_views(inputs@),
            read.len() <= i * 0x1_0000_0000_0000_0000,
            emitter@ == (EmitterView { numbering, counter: numbered_count(numbering, read) }),
            transcript@.stdout == emitted_lines(numbering, 0, read),
            transcript@.failure is None,
            lines_read(all) == read + lines_read(all.skip(i as int)),
            reports(all) == transcript@.stderr + reports(all.skip(i as int)),
            failure_of(all) == failure_of(all.skip(i as int)),
        decreases inputs.len() - i,
    {
        assert(all.skip(i as int).drop_first() =~= all.skip(i + 1));
        match &inputs[i] {
            Input::Unreadable { specifier, reason } => {
                let event = Event::Unreadable {
                    specifier: specifier.clone(),
                    reason: reason.clone(),
                };
                let action = emitter.step(event);
                transcript.record(action);
            },
            Input::Readable { lines, failure } => {
                let ghost before = read;
                let ghost here = texts(lines@);
                let ghost reported = transcript@.stderr;
                let mut j: usize = 0;
                while j < lines.len()
                    invariant
                        0 <= j <= lines.len(),
                        i < inputs.len(),
                        here == texts(lines@),
                        before.len() <= i * 0x1_0000_0000_0000_0000,
                        read == before + here.take(j as int),
                        emitter@ == (EmitterView {
                            numbering,
                            counter: numbered_count(numbering, read),
                        }),
                        transcript@.stdout == emitted_lines(numbering, 0, read),
                        transcript@.stderr == reported,
                        transcript@.failure is None,
                    decreases lines.len() - j,
                {
                    let ghost line = lines@[j as int]@;
                    proof {
                        lemma_numbered_count_bound(numbering, read);
                        assert(read.push(line).drop_last() =~= read);
                        lemma_emitted_lines_push(numbering, 0, read, line);
                    }
                    let action = emitter.step(Event::Line { text: lines[j].clone() });
                    transcript.record(action);
                    proof {
                        read = read.push(line);
                    }
                    j = j + 1;
                }
                if let Some(reason) = failure {
                    let action = emitter.step(Event::ReadFailed { reason: reason.clone() });
                    transcript.record(action);
                    assert(lines_read(all) =~= read);
                    return transcript;
                }
            },
        }
        i = i + 1;
    }
    transcript
}

} // verus!
