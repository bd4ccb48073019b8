//! What holds of every invocation, whatever the inputs: how each numbering
//! policy treats a row of lines, how the counter is carried from one input
//! to the next, and what becomes of inputs that cannot be opened.

use crate::args::Numbering;
use crate::emitter::{emitted, next_counter, report_line, ActionView, EmitterView, EventView};
use crate::render::{numbered_line, plain_line};
use crate::transcript::{
    chunks, emitted_lines, failure_of, lemma_emitted_lines_push, lemma_numbered_count_add,
    lines_read, numbered_count, reports, transcript_of, InputView, TranscriptView,
};
use vstd::prelude::*;

verus! {

/// The lines that an input holds: none if it could not be opened.
pub open spec fn lines_of(input: InputView) -> Seq<Seq<char>> {
    match input {
        InputView::Unreadable { .. } => Seq::empty(),
        InputView::Readable { lines, .. } => lines,
    }
}

/// The lines of all `inputs`, joined in the order of the inputs.
pub open spec fn all_lines(inputs: Seq<InputView>) -> Seq<Seq<char>> {
    inputs.map_values(|input: InputView| lines_of(input)).flatten()
}

/// Whether every one of `inputs` could be opened and was read to its end.
pub open spec fn all_readable(inputs: Seq<InputView>) -> bool {
    forall|i: int|
        0 <= i < inputs.len() ==> #[trigger] inputs[i] is Readable && inputs[i]->failure is None
}

/// Each of `lines` followed by one newline, all joined in order.
pub open spec fn with_newlines(lines: Seq<Seq<char>>) -> Seq<char> {
    lines.map_values(|line: Seq<char>| plain_line(line)).flatten()
}

/// The emitter after it has taken `lines`, one event for each, in order.
pub open spec fn after_lines(emitter: EmitterView, lines: Seq<Seq<char>>) -> EmitterView
    decreases lines.len(),
{
    if lines.len() == 0 {
        emitter
    } else {
        after_lines(emitter, lines.drop_last()).after(EventView::Line { text: lines.last() })
    }
}

/// An emitter that is handed lines one at a time answers each with the text
/// that the row of lines as a whole is written with, and ends with its
/// counter grown by the number of lines that got a number.
pub proof fn lemma_steps_print_the_chunks(emitter: EmitterView, lines: Seq<Seq<char>>)
    ensures
        after_lines(emitter, lines) == (EmitterView {
            numbering: emitter.numbering,
            counter: emitter.counter + numbered_count(emitter.numbering, lines),
        }),
        forall|i: int|
            0 <= i < lines.len() ==> #[trigger] after_lines(emitter, lines.take(i)).action(
                EventView::Line { text: lines[i] },
            ) == (ActionView::Print { text: chunks(emitter.numbering, emitter.counter, lines)[i] }),
    decreases lines.len(),
{
    if lines.len() > 0 {
        lemma_steps_print_the_chunks(emitter, lines.drop_last());
    }
    assert forall|i: int| 0 <= i < lines.len() implies #[trigger] after_lines(
        emitter,
        lines.take(i),
    ).action(EventView::Line { text: lines[i] }) == (ActionView::Print {
        text: chunks(emitter.numbering, emitter.counter, lines)[i],
    }) by {
        lemma_steps_print_the_chunks(emitter, lines.take(i));
    }
}

/// The counter is carried from one row of lines to the next: what is written
/// for two rows in turn, the second starting where the first left the
/// counter, is what is written for the two rows joined. No input starts the
/// count anew.
pub proof fn lemma_counter_carries_over(
    numbering: Numbering,
    counter: nat,
    first: Seq<Seq<char>>,
    second: Seq<Seq<char>>,
)
    ensures
        emitted_lines(numbering, counter, first + second) == emitted_lines(
            numbering,
            counter,
            first,
        ) + emitted_lines(numbering, counter + numbered_count(numbering, first), second),
    decreases second.len(),
{
    let carried = counter + numbered_count(numbering, first);
    if second.len() > 0 {
        let shorter = second.drop_last();
        let line = second.last();
        lemma_counter_carries_over(numbering, counter, first, shorter);
        assert(second =~= shorter.push(line));
        lemma_emitted_lines_push(numbering, counter, first + shorter, line);
        lemma_emitted_lines_push(numbering, carried, shorter, line);
        lemma_numbered_count_add(numbering, first, shorter);
    }
}

/// Without numbering, what is written is the lines themselves, unchanged and
/// in order, each followed by one newline; the counter stays where it was.
pub proof fn lemma_plain_reproduces_lines(counter: nat, lines: Seq<Seq<char>>)
    ensures
        emitted_lines(Numbering::Plain, counter, lines) == with_newlines(lines),
        numbered_count(Numbering::Plain, lines) == 0,
    decreases lines.len(),
{
    assert(chunks(Numbering::Plain, counter, lines) =~= lines.map_values(
        |line: Seq<char>| plain_line(line),
    ));
    if lines.len() > 0 {
        lemma_plain_reproduces_lines(counter, lines.drop_last());
    }
}

/// When every line is numbered, the counter grows by one with each line, and
/// the line at index `i`, which is the `i + 1`-th, shows the number `i + 1`
/// after a counter that started at zero.
pub proof fn lemma_number_all_counts_every_line(counter: nat, lines: Seq<Seq<char>>)
    ensures
        numbered_count(Numbering::All, lines) == lines.len(),
        forall|i: int|
            0 <= i < lines.len() ==> #[trigger] chunks(Numbering::All, counter, lines)[i]
                == numbered_line((counter + i + 1) as nat, lines[i]),
        forall|line: Seq<char>| next_counter(Numbering::All, counter, line) == counter + 1,
    decreases lines.len(),
{
    if lines.len() > 0 {
        lemma_number_all_counts_every_line(counter, lines.drop_last());
    }
    assert forall|i: int| 0 <= i < lines.len() implies #[trigger] chunks(
        Numbering::All,
        counter,
        lines,
    )[i] == numbered_line((counter + i + 1) as nat, lines[i]) by {
        lemma_number_all_counts_every_line(counter, lines.take(i));
    }
}

/// When every line is numbered, an invocation numbers the lines of all its
/// inputs in one count: the line at index `i` among all the lines read,
/// whichever input it came from, shows `i + 1`.
pub proof fn lemma_number_all_counts_across_inputs(inputs: Seq<InputView>)
    ensures
        transcript_of(Numbering::All, inputs).stdout == Seq::new(
            lines_read(inputs).len(),
            |i: int| numbered_line((i + 1) as nat, lines_read(inputs)[i]),
        ).flatten(),
{
    let lines = lines_read(inputs);
    lemma_number_all_counts_every_line(0, lines);
    assert(chunks(Numbering::All, 0, lines) =~= Seq::new(
        lines.len(),
        |i: int| numbered_line((i + 1) as nat, lines[i]),
    ));
}

/// When the non-blank lines are numbered, an empty line is written as a bare
/// newline and leaves the counter alone, and any other line is written, and
/// counted, as it is when every line is numbered.
pub proof fn lemma_number_nonblank_skips_blank_lines(counter: nat, line: Seq<char>)
    ensures
        line.len() == 0 ==> emitted(Numbering::NonBlank, counter, line) == seq!['\n']
            && next_counter(Numbering::NonBlank, counter, line) == counter,
        line.len() > 0 ==> emitted(Numbering::NonBlank, counter, line) == emitted(
            Numbering::All,
            counter,
            line,
        ) && next_counter(Numbering::NonBlank, counter, line) == next_counter(
            Numbering::All,
            counter,
            line,
        ),
{
}

/// When the non-blank lines are numbered, the counter grows by the number of
/// lines that are not empty: an empty line is written as a bare newline, and
/// any other line shows the counter's start plus its rank among the lines
/// that are not empty.
pub proof fn lemma_number_nonblank_counts_nonblank_lines(counter: nat, lines: Seq<Seq<char>>)
    ensures
        numbered_count(Numbering::NonBlank, lines) == lines.filter(
            |line: Seq<char>| line.len() > 0,
        ).len(),
        forall|i: int|
            0 <= i < lines.len() ==> #[trigger] chunks(Numbering::NonBlank, counter, lines)[i]
                == if lines[i].len() == 0 {
                seq!['\n']
            } else {
                numbered_line(
                    counter + lines.take(i).filter(|line: Seq<char>| line.len() > 0).len() + 1,
                    lines[i],
                )
            },
    decreases lines.len(),
{
    reveal(Seq::filter);
    if lines.len() > 0 {
        lemma_number_nonblank_counts_nonblank_lines(counter, lines.drop_last());
    }
    assert forall|i: int| 0 <= i < lines.len() implies #[trigger] chunks(
        Numbering::NonBlank,
        counter,
        lines,
    )[i] == if lines[i].len() == 0 {
        seq!['\n']
    } else {
        numbered_line(
            counter + lines.take(i).filter(|line: Seq<char>| line.len() > 0).len() + 1,
            lines[i],
        )
    } by {
        lemma_number_nonblank_counts_nonblank_lines(counter, lines.take(i));
    }
}

/// On lines of which none is empty, numbering the non-blank lines writes
/// what numbering every line writes.
pub proof fn lemma_policies_agree_without_blank_lines(counter: nat, lines: Seq<Seq<char>>)
    requires
        forall|i: int| 0 <= i < lines.len() ==> (#[trigger] lines[i]).len() > 0,
    ensures
        emitted_lines(Numbering::NonBlank, counter, lines) == emitted_lines(
            Numbering::All,
            counter,
            lines,
        ),
        numbered_count(Numbering::NonBlank, lines) == numbered_count(Numbering::All, lines),
    decreases lines.len(),
{
    if lines.len() > 0 {
        lemma_policies_agree_without_blank_lines(counter, lines.drop_last());
    }
    assert(chunks(Numbering::NonBlank, counter, lines) =~= chunks(Numbering::All, counter, lines))
        by {
        assert forall|i: int| 0 <= i < lines.len() implies chunks(
            Numbering::NonBlank,
            counter,
            lines,
        )[i] == chunks(Numbering::All, counter, lines)[i] by {
            lemma_policies_agree_without_blank_lines(counter, lines.take(i));
        }
    }
}

/// Inputs that can all be opened and read to their end give their lines in
/// order, nothing on standard error, and an invocation that runs to its end.
pub proof fn lemma_readable_inputs_are_read_in_order(inputs: Seq<InputView>)
    requires
        all_readable(inputs),
    ensures
        lines_read(inputs) == all_lines(inputs),
        reports(inputs) == Seq::<char>::empty(),
        failure_of(inputs) is None,
    decreases inputs.len(),
{
    let each = |input: InputView| lines_of(input);
    if inputs.len() > 0 {
        let rest = inputs.drop_first();
        lemma_readable_inputs_are_read_in_order(rest);
        assert(inputs.map_values(each).drop_first() =~= rest.map_values(each));
    }
}

/// With inputs that can all be opened and read, an invocation without
/// numbering writes their lines, unchanged and in the order of the inputs,
/// each followed by one newline, and nothing else.
pub proof fn lemma_plain_run_reproduces_inputs(inputs: Seq<InputView>)
    requires
        all_readable(inputs),
    ensures
        transcript_of(Numbering::Plain, inputs) == (TranscriptView {
            stdout: with_newlines(all_lines(inputs)),
            stderr: Seq::empty(),
            failure: None,
        }),
{
    lemma_readable_inputs_are_read_in_order(inputs);
    lemma_plain_reproduces_lines(0, lines_read(inputs));
}

/// An input that cannot be opened is told of on standard error, by a line
/// that names its specifier, and is otherwise passed over: the lines read
/// and the end of the invocation are those of the other inputs alone. This
/// holds of every such input that the invocation gets to.
pub proof fn lemma_unreadable_input_is_reported_and_skipped(inputs: Seq<InputView>, k: int)
    requires
        0 <= k < inputs.len(),
        inputs[k] is Unreadable,
        failure_of(inputs.take(k)) is None,
    ensures
        lines_read(inputs) == lines_read(inputs.remove(k)),
        failure_of(inputs) == failure_of(inputs.remove(k)),
        reports(inputs) == reports(inputs.take(k)) + report_line(
            inputs[k]->specifier,
            inputs[k]->reason,
        ) + reports(inputs.skip(k + 1)),
    decreases k,
{
    if k > 0 {
        let rest = inputs.drop_first();
        assert(inputs.take(k).drop_first() =~= rest.take(k - 1));
        assert(inputs.remove(k).drop_first() =~= rest.remove(k - 1));
        assert(inputs.skip(k + 1) =~= rest.skip(k));
        lemma_unreadable_input_is_reported_and_skipped(rest, k - 1);
    }
}

/// An invocation runs to its end, and exits with zero, unless the reading of
/// an input fails. Inputs that cannot be opened do not count.
pub proof fn lemma_completes_unless_a_read_fails(numbering: Numbering, inputs: Seq<InputView>)
    ensures
        transcript_of(numbering, inputs).failure is None <==> forall|i: int|
            0 <= i < inputs.len() && #[trigger] inputs[i] is Readable ==> inputs[i]->failure
                is None,
        transcript_of(numbering, inputs).exit_code() == 0 <==> transcript_of(
            numbering,
            inputs,
        ).failure is None,
    decreases inputs.len(),
{
    if inputs.len() > 0 {
        let rest = inputs.drop_first();
        lemma_completes_unless_a_read_fails(numbering, rest);
        if failure_of(inputs) is None {
            assert forall|i: int|
                0 <= i < inputs.len() && #[trigger] inputs[i] is Readable implies inputs[i]->failure
                is None by {
                if i > 0 {
                    assert(inputs[i] == rest[i - 1]);
                }
            }
        } else if inputs[0] is Readable && inputs[0]->failure is Some {
        } else {
            let i = choose|i: int|
                0 <= i < rest.len() && #[trigger] rest[i] is Readable && rest[i]->failure is Some;
            assert(inputs[i + 1] == rest[i]);
        }
    }
}

/// The first input whose reading fails ends the invocation: the lines read
/// from it before the failure are still written, the invocation breaks off
/// for its reason, and the inputs that follow it change nothing.
pub proof fn lemma_read_failure_ends_the_invocation(
    numbering: Numbering,
    inputs: Seq<InputView>,
    k: int,
)
    requires
        0 <= k < inputs.len(),
        inputs[k] is Readable,
        inputs[k]->failure is Some,
        failure_of(inputs.take(k)) is None,
    ensures
        lines_read(inputs) == lines_read(inputs.take(k)) + inputs[k]->lines,
        reports(inputs) == reports(inputs.take(k)),
        failure_of(inputs) == inputs[k]->failure,
        transcript_of(numbering, inputs) == transcript_of(numbering, inputs.take(k + 1)),
{
    let cut = inputs.take(k + 1);
    assert(cut.take(k) =~= inputs.take(k));
    lemma_failed_input_is_the_last_read(inputs, k);
    lemma_failed_input_is_the_last_read(cut, k);
}

/// What is read, reported and failed with up to the first input whose
/// reading fails.
proof fn lemma_failed_input_is_the_last_read(inputs: Seq<InputView>, k: int)
    requires
        0 <= k < inputs.len(),
        inputs[k] is Readable,
        inputs[k]->failure is Some,
        failure_of(inputs.take(k)) is None,
    ensures
        lines_read(inputs) == lines_read(inputs.take(k)) + inputs[k]->lines,
        reports(inputs) == reports(inputs.take(k)),
        failure_of(inputs) == inputs[k]->failure,
    decreases k,
{
    if k > 0 {
        let rest = inputs.drop_first();
        assert(inputs.take(k).drop_first() =~= rest.take(k - 1));
        lemma_failed_input_is_the_last_read(rest, k - 1);
    }
}

/// A file that cannot be opened among inputs that can all be read: its
/// specifier is named on standard error, the lines of the others are written
/// in order as if it were not there, and the invocation runs to its end.
pub proof fn lemma_missing_file_among_readable_inputs(
    numbering: Numbering,
    inputs: Seq<InputView>,
    k: int,
)
    requires
        0 <= k < inputs.len(),
        inputs[k] is Unreadable,
        all_readable(inputs.remove(k)),
    ensures
        transcript_of(numbering, inputs) == (TranscriptView {
            stdout: emitted_lines(numbering, 0, all_lines(inputs.remove(k))),
            stderr: report_line(inputs[k]->specifier, inputs[k]->reason),
            failure: None,
        }),
        transcript_of(numbering, inputs).stdout == transcript_of(
            numbering,
            inputs.remove(k),
        ).stdout,
{
    let before = inputs.take(k);
    let after = inputs.skip(k + 1);
    assert(all_readable(before)) by {
        assert forall|i: int| 0 <= i < before.len() implies #[trigger] before[i] is Readable
            && before[i]->failure is None by {
            assert(before[i] == inputs.remove(k)[i]);
        }
    }
    assert(all_readable(after)) by {
        assert forall|i: int| 0 <= i < after.len() implies #[trigger] after[i] is Readable
            && after[i]->failure is None by {
            assert(after[i] == inputs.remove(k)[k + i]);
        }
    }
    lemma_readable_inputs_are_read_in_order(before);
    lemma_readable_inputs_are_read_in_order(after);
    lemma_readable_inputs_are_read_in_order(inputs.remove(k));
    lemma_unreadable_input_is_reported_and_skipped(inputs, k);
}

} // verus!
