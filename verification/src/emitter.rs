//! The line emitter: a running counter and the numbering policy, driven one
//! event at a time. The caller reads the inputs and performs the actions that
//! the emitter answers with.

use crate::args::Numbering;
use crate::render::{format_numbered_line, format_plain_line, numbered_line, plain_line};
use vstd::prelude::*;

verus! {

/// What happened while the inputs were read.
#[derive(Debug, PartialEq, Eq)]
pub enum Event {
    /// The input named by `specifier` could not be opened, for `reason`.
    Unreadable { specifier: String, reason: String },
    /// A line was read; `text` is the line without its line ending.
    Line { text: String },
    /// Reading an opened input failed, for `reason`.
    ReadFailed { reason: String },
}

/// The mathematical value of an [`Event`].
pub enum EventView {
    Unreadable { specifier: Seq<char>, reason: Seq<char> },
    Line { text: Seq<char> },
    ReadFailed { reason: Seq<char> },
}

impl View for Event {
    type V = EventView;

    open spec fn view(&self) -> EventView {
        match *self {
            Event::Unreadable { specifier, reason } => EventView::Unreadable {
                specifier: specifier@,
                reason: reason@,
            },
            Event::Line { text } => EventView::Line { text: text@ },
            Event::ReadFailed { reason } => EventView::ReadFailed { reason: reason@ },
        }
    }
}

/// What the caller is to do in answer to an event.
#[derive(Debug, PartialEq, Eq)]
pub enum Action {
    /// Write `text` to standard output and go on.
    Print { text: String },
    /// Write `text` to standard error and go on with the next input.
    Report { text: String },
    /// Stop at once and fail with `reason`.
    Abort { reason: String },
}

/// The mathematical value of an [`Action`].
pub enum ActionView {
    Print { text: Seq<char> },
    Report { text: Seq<char> },
    Abort { reason: Seq<char> },
}

impl View for Action {
    type V = ActionView;

    open spec fn view(&self) -> ActionView {
        match *self {
            Action::Print { text } => ActionView::Print { text: text@ },
            Action::Report { text } => ActionView::Report { text: text@ },
            Action::Abort { reason } => ActionView::Abort { reason: reason@ },
        }
    }
}

/// Whether a line gets a number under a policy.
pub open spec fn is_numbered(numbering: Numbering, line: Seq<char>) -> bool {
    match numbering {
        Numbering::Plain => false,
        Numbering::All => true,
        Numbering::NonBlank => line.len() > 0,
    }
}

/// The counter after a line, when it was `counter` before: one more if the
/// line gets a number, and the same if it does not.
pub open spec fn next_counter(numbering: Numbering, counter: nat, line: Seq<char>) -> nat {
    if is_numbered(numbering, line) {
        counter + 1
    } else {
        counter
    }
}

/// What is written for a line, when the counter was `counter` before it.
pub open spec fn emitted(numbering: Numbering, counter: nat, line: Seq<char>) -> Seq<char> {
    match numbering {
        Numbering::Plain => plain_line(line),
        Numbering::All => numbered_line(counter + 1, line),
        Numbering::NonBlank => if line.len() == 0 {
            seq!['\n']
        } else {
            numbered_line(counter + 1, line)
        },
    }
}

/// The line that tells of an input that could not be opened.
pub open spec fn report_line(specifier: Seq<char>, reason: Seq<char>) -> Seq<char> {
    specifier + seq![':', ' '] + reason + seq!['\n']
}

/// The mathematical value of an [`Emitter`].
pub struct EmitterView {
    /// The numbering policy.
    pub numbering: Numbering,
    /// How many lines have been given a number so far.
    pub counter: nat,
}

impl EmitterView {
    /// The answer to `event`.
    pub open spec fn action(self, event: EventView) -> ActionView {
        match event {
            EventView::Unreadable { specifier, reason } => ActionView::Report {
                text: report_line(specifier, reason),
            },
            EventView::Line { text } => ActionView::Print {
                text: emitted(self.numbering, self.counter, text),
            },
            EventView::ReadFailed { reason } => ActionView::Abort { reason },
        }
    }

    /// Whether the counter can take `event`: it always can, unless the event
    /// is a line that gets a number and the counter stands at `u128::MAX`.
    pub open spec fn has_room_for(self, event: EventView) -> bool {
        event matches EventView::Line { text } && is_numbered(self.numbering, text)
            ==> self.counter < u128::MAX
    }

    /// The emitter after `event`. Only a line that gets a number changes it.
    pub open spec fn after(self, event: EventView) -> EmitterView {
        match event {
            EventView::Line { text } => EmitterView {
                numbering: self.numbering,
                counter: next_counter(self.numbering, self.counter, text),
            },
            _ => self,
        }
    }
}

/// The state of one invocation: its numbering policy and its running
/// counter. The counter is 128 bits wide, so that no row of inputs that fits
/// in memory can exhaust it.
#[derive(Debug)]
pub struct Emitter {
    numbering: Numbering,
    counter: u128,
}

impl View for Emitter {
    type V = EmitterView;

    closed spec fn view(&self) -> EmitterView {
        EmitterView { numbering: self.numbering, counter: self.counter as nat }
    }
}

impl Emitter {
    /// An emitter that has numbered no line yet.
    pub fn new(numbering: Numbering) -> (emitter: Emitter)
        ensures
            emitter@ == (EmitterView { numbering, counter: 0 }),
    {
        Emitter { numbering, counter: 0 }
    }

    /// The numbering policy.
    pub fn numbering(&self) -> (numbering: Numbering)
        ensures
            numbering == self@.numbering,
    {
        self.numbering
    }

    /// How many lines have been given a number so far.
    pub fn counter(&self) -> (counter: u128)
        ensures
            counter == self@.counter,
    {
        self.counter
    }

    /// Whether the counter can take `event`, as [`Emitter::step`] asks.
    pub fn has_room_for(&self, event: &Event) -> (room: bool)
        ensures
            room == self@.has_room_for(event@),
    {
        match event {
            Event::Line { text } => {
                let numbered = match self.numbering {
                    Numbering::Plain => false,
                    Numbering::All => true,
                    Numbering::NonBlank => !text.as_str().is_empty(),
                };
                !numbered || self.counter < u128::MAX
            },
            _ => true,
        }
    }

    /// Takes one event and answers with what is to be done about it. The
    /// counter must have room for the line if the line is to get a number.
    pub fn step(&mut self, event: Event) -> (action: Action)
        requires
            old(self)@.has_room_for(event@),
        ensures
            action@ == old(self)@.action(event@),
            final(self)@ == old(self)@.after(event@),
    {
        match event {
            Event::Unreadable { specifier, reason } => {
                let mut text = specifier;
                proof {
                    reveal_strlit(": ");
                    reveal_strlit("\n");
                }
                text.append(": ");
                text.append(reason.as_str());
                text.append("\n");
                assert(text@ =~= report_line(specifier@, reason@));
                Action::Report { text }
            },
            Event::Line { text } => {
                let line = text.as_str();
                let numbered = match self.numbering {
                    Numbering::Plain => false,
                    Numbering::All => true,
                    Numbering::NonBlank => !line.is_empty(),
                };
                if numbered {
                    self.counter = self.counter + 1;
                    Action::Print { text: format_numbered_line(self.counter, line) }
                } else {
                    Action::Print { text: format_plain_line(line) }
                }
            },
            Event::ReadFailed { reason } => Action::Abort { reason },
        }
    }
}

} // verus!
