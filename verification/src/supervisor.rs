//! The process supervisor's decisions: what to emit for each line that the
//! agent writes and for its exit, so that completion is reported once.

use crate::classifier::{
    classify_parsed, classify_with, is_terminal, is_terminal_parsed, is_terminal_with,
};
use crate::clock::now_rfc3339;
use crate::json::{json_parse, model_of, parse_document, Json, JsonValue};
use crate::process::ProcessOutput;
use crate::text::{i32_to_text, signed_decimal};
use vstd::prelude::*;
use vstd::string::StringExecFns;

verus! {

/// How the wait for a process ended.
#[derive(Debug)]
pub enum ExitReport {
    /// The process exited; `code` is its exit code, if it has one.
    Exited { success: bool, code: Option<i32> },
    /// Waiting for the process failed with the error that `error` describes.
    WaitFailed { error: String },
}

/// What the supervisor hands to its subscribers.
#[derive(Debug)]
pub enum SupervisorEvent {
    /// A piece of output of the process.
    Output(ProcessOutput),
    /// The process is done.
    Completed { process_id: String, success: bool },
}

/// What happens to a supervised process.
pub enum Input {
    /// The process wrote a line to its standard output.
    Stdout(Seq<char>),
    /// The process wrote a line to its standard error.
    Stderr(Seq<char>),
    /// The process exited.
    Exited { success: bool, code: Option<i32> },
    /// Waiting for the process failed.
    WaitFailed(Seq<char>),
}

/// What a subscriber learns from an event, apart from the process and the time.
pub enum Signal {
    Output { content: Seq<char>, is_error: bool },
    Completed { success: bool },
}

/// How an exit code is written: as `Some(..)` around its decimal numeral, or as `None`.
pub open spec fn exit_code_text(code: Option<i32>) -> Seq<char> {
    match code {
        Some(c) => "Some("@ + signed_decimal(c as int) + ")"@,
        None => "None"@,
    }
}

/// The error line for a process that exited without success.
pub open spec fn exit_message(code: Option<i32>) -> Seq<char> {
    "Process exited with code: "@ + exit_code_text(code)
}

/// The error line for a wait that failed.
pub open spec fn wait_error_message(error: Seq<char>) -> Seq<char> {
    "Process error: "@ + error
}

/// The completion signal, unless completion was signalled before.
pub open spec fn completion_once(sent: bool, success: bool) -> Seq<Signal> {
    if sent {
        Seq::empty()
    } else {
        seq![Signal::Completed { success }]
    }
}

/// The step for a line of standard output that was read as `parsed`. The
/// terminal message signals completion with success, once, and shows
/// nothing; any other line shows what the classifier makes of it.
pub open spec fn stdout_step(sent: bool, line: Seq<char>, parsed: Option<Json>) -> (
    bool,
    Seq<Signal>,
) {
    if is_terminal_with(parsed) {
        (true, completion_once(sent, true))
    } else {
        match classify_with(line, parsed) {
            Some(content) => (sent, seq![Signal::Output { content, is_error: false }]),
            None => (sent, Seq::empty()),
        }
    }
}

/// The step for a line of standard error: every line that is not empty is an error output.
pub open spec fn stderr_step(sent: bool, line: Seq<char>) -> (bool, Seq<Signal>) {
    if line.len() == 0 {
        (sent, Seq::empty())
    } else {
        (sent, seq![Signal::Output { content: line, is_error: true }])
    }
}

/// The step for the end of the wait. An exit without success and a failed
/// wait give an error output; then completion is signalled unless it was
/// before, with the success of the exit.
pub open spec fn exit_step(sent: bool, input: Input) -> (bool, Seq<Signal>) {
    match input {
        Input::Exited { success, code } => {
            let errors = if success {
                Seq::empty()
            } else {
                seq![Signal::Output { content: exit_message(code), is_error: true }]
            };
            (true, errors + completion_once(sent, success))
        },
        Input::WaitFailed(error) => (
            true,
            seq![Signal::Output { content: wait_error_message(error), is_error: true }]
                + completion_once(sent, false),
        ),
        _ => (sent, Seq::empty()),
    }
}

/// One step of the supervisor: from whether completion was signalled and an
/// input to whether it is signalled now and what is emitted.
pub open spec fn step(sent: bool, input: Input) -> (bool, Seq<Signal>) {
    match input {
        Input::Stdout(line) => stdout_step(sent, line, json_parse(line)),
        Input::Stderr(line) => stderr_step(sent, line),
        _ => exit_step(sent, input),
    }
}

/// The supervisor run over a sequence of inputs.
pub open spec fn run(sent: bool, inputs: Seq<Input>) -> (bool, Seq<Signal>)
    decreases inputs.len(),
{
    if inputs.len() == 0 {
        (sent, Seq::empty())
    } else {
        let before = run(sent, inputs.drop_last());
        let last = step(before.0, inputs.last());
        (last.0, before.1 + last.1)
    }
}

/// The success flags of the completion signals among `signals`, in order.
pub open spec fn completions(signals: Seq<Signal>) -> Seq<bool>
    decreases signals.len(),
{
    if signals.len() == 0 {
        Seq::empty()
    } else {
        match signals.last() {
            Signal::Completed { success } => completions(signals.drop_last()).push(success),
            _ => completions(signals.drop_last()),
        }
    }
}

/// The contents of the error outputs among `signals`, in order.
pub open spec fn error_outputs(signals: Seq<Signal>) -> Seq<Seq<char>>
    decreases signals.len(),
{
    if signals.len() == 0 {
        Seq::empty()
    } else {
        match signals.last() {
            Signal::Output { content, is_error: true } => error_outputs(
                signals.drop_last(),
            ).push(content),
            _ => error_outputs(signals.drop_last()),
        }
    }
}

/// Whether an input by itself ends the process, and with what success.
pub open spec fn completing(input: Input) -> Option<bool> {
    match input {
        Input::Stdout(line) => if is_terminal(line) {
            Some(true)
        } else {
            None
        },
        Input::Stderr(_) => None,
        Input::Exited { success, code } => Some(success),
        Input::WaitFailed(_) => Some(false),
    }
}

/// The success that the first completing input among `inputs` carries.
pub open spec fn first_completion(inputs: Seq<Input>) -> Option<bool>
    decreases inputs.len(),
{
    if inputs.len() == 0 {
        None
    } else {
        match first_completion(inputs.drop_last()) {
            Some(success) => Some(success),
            None => completing(inputs.last()),
        }
    }
}

/// The completion signals of two runs of signals are those of the first
/// followed by those of the second.
pub proof fn lemma_completions_concat(a: Seq<Signal>, b: Seq<Signal>)
    ensures
        completions(a + b) == completions(a) + completions(b),
    decreases b.len(),
{
    if b.len() == 0 {
        assert(a + b =~= a);
        assert(completions(a) + completions(b) =~= completions(a));
    } else {
        lemma_completions_concat(a, b.drop_last());
        assert((a + b).drop_last() =~= a + b.drop_last());
        assert((a + b).last() == b.last());
        match b.last() {
            Signal::Completed { success } => {
                assert(completions(a + b) =~= completions(a) + completions(b));
            },
            _ => {},
        }
    }
}

/// The error outputs of two runs of signals are those of the first followed
/// by those of the second.
pub proof fn lemma_error_outputs_concat(a: Seq<Signal>, b: Seq<Signal>)
    ensures
        error_outputs(a + b) == error_outputs(a) + error_outputs(b),
    decreases b.len(),
{
    if b.len() == 0 {
        assert(a + b =~= a);
        assert(error_outputs(a) + error_outputs(b) =~= error_outputs(a));
    } else {
        lemma_error_outputs_concat(a, b.drop_last());
        assert((a + b).drop_last() =~= a + b.drop_last());
        assert((a + b).last() == b.last());
        match b.last() {
            Signal::Output { content, is_error: true } => {
                assert(error_outputs(a + b) =~= error_outputs(a) + error_outputs(b));
            },
            _ => {},
        }
    }
}

/// What one step signals of completion: the success of a completing input,
/// unless completion was signalled before; and completion counts as
/// signalled from the first completing input on.
pub proof fn lemma_step_completions(sent: bool, input: Input)
    ensures
        completions(step(sent, input).1) == match completing(input) {
            Some(success) => if sent {
                Seq::<bool>::empty()
            } else {
                seq![success]
            },
            None => Seq::<bool>::empty(),
        },
        step(sent, input).0 == (sent || completing(input) is Some),
{
    reveal_with_fuel(completions, 3);
    let out = step(sent, input).1;
    match input {
        Input::Exited { success, code } => {
            let errors = if success {
                Seq::<Signal>::empty()
            } else {
                seq![Signal::Output { content: exit_message(code), is_error: true }]
            };
            lemma_completions_concat(errors, completion_once(sent, success));
            assert(completions(errors) + completions(completion_once(sent, success))
                =~= completions(completion_once(sent, success)));
        },
        Input::WaitFailed(error) => {
            let errors = seq![
                Signal::Output { content: wait_error_message(error), is_error: true },
            ];
            lemma_completions_concat(errors, completion_once(sent, false));
            assert(completions(errors) + completions(completion_once(sent, false))
                =~= completions(completion_once(sent, false)));
        },
        _ => {},
    }
    if out.len() == 1 {
        assert(out.drop_last() =~= Seq::<Signal>::empty());
    }
    if completion_once(sent, true).len() == 1 {
        assert(completion_once(sent, true).drop_last() =~= Seq::<Signal>::empty());
        assert(completion_once(sent, false).drop_last() =~= Seq::<Signal>::empty());
    }
}

/// Completion is signalled at most once, whatever happens and in whatever
/// order: a run that starts before any completion signals exactly the success
/// of the first completing input, and nothing where there is none.
pub proof fn lemma_completion_once(inputs: Seq<Input>)
    ensures
        completions(run(false, inputs).1) == match first_completion(inputs) {
            Some(success) => seq![success],
            None => Seq::<bool>::empty(),
        },
        run(false, inputs).0 == first_completion(inputs) is Some,
        completions(run(false, inputs).1).len() <= 1,
    decreases inputs.len(),
{
    if inputs.len() == 0 {
    } else {
        let front = inputs.drop_last();
        lemma_completion_once(front);
        let before = run(false, front);
        let last = step(before.0, inputs.last());
        lemma_step_completions(before.0, inputs.last());
        lemma_completions_concat(before.1, last.1);
        match first_completion(front) {
            Some(success) => {
                assert(completions(last.1) =~= Seq::<bool>::empty());
                assert(completions(before.1) + completions(last.1) =~= seq![success]);
            },
            None => {
                match completing(inputs.last()) {
                    Some(success) => {
                        assert(completions(last.1) =~= seq![success]);
                        assert(completions(before.1) + completions(last.1) =~= seq![success]);
                    },
                    None => {
                        assert(completions(before.1) + completions(last.1) =~= Seq::<
                            bool,
                        >::empty());
                    },
                }
            },
        }
    }
}

/// Whether an input is a line of output, on either stream.
pub open spec fn is_line(input: Input) -> bool {
    input is Stdout || input is Stderr
}

/// Among lines alone, the first completion is the terminal message, if there is one.
pub proof fn lemma_first_completion_of_lines(inputs: Seq<Input>)
    requires
        forall|i: int| 0 <= i < inputs.len() ==> is_line(#[trigger] inputs[i]),
    ensures
        first_completion(inputs) == if exists|k: int|
            0 <= k < inputs.len() && completing(#[trigger] inputs[k]) is Some {
            Some(true)
        } else {
            None
        },
    decreases inputs.len(),
{
    if inputs.len() > 0 {
        let front = inputs.drop_last();
        assert forall|i: int| 0 <= i < front.len() implies is_line(#[trigger] front[i]) by {
            assert(front[i] == inputs[i]);
        }
        lemma_first_completion_of_lines(front);
        if exists|k: int| 0 <= k < front.len() && completing(#[trigger] front[k]) is Some {
            let k = choose|k: int| 0 <= k < front.len() && completing(#[trigger] front[k]) is Some;
            assert(inputs[k] == front[k]);
        } else {
            assert(is_line(inputs[inputs.len() - 1]));
            if completing(inputs.last()) is Some {
                assert(completing(inputs[inputs.len() - 1]) is Some);
            } else {
                assert forall|k: int| 0 <= k < inputs.len() implies !(completing(
                    #[trigger] inputs[k],
                ) is Some) by {
                    if k < front.len() {
                        assert(front[k] == inputs[k]);
                    }
                }
            }
        }
    }
}

/// A process that writes the terminal message and then exits with success
/// signals completion exactly once, with success.
pub proof fn lemma_terminal_then_clean_exit(lines: Seq<Input>, k: int, code: Option<i32>)
    requires
        forall|i: int| 0 <= i < lines.len() ==> is_line(#[trigger] lines[i]),
        0 <= k < lines.len(),
        lines[k] matches Input::Stdout(line) && is_terminal(line),
    ensures
        completions(run(false, lines.push(Input::Exited { success: true, code })).1) == seq![true],
{
    let inputs = lines.push(Input::Exited { success: true, code });
    lemma_completion_once(inputs);
    lemma_first_completion_of_lines(lines);
    assert(inputs.drop_last() =~= lines);
    assert(completing(lines[k]) is Some);
}

/// The error lines that lines of output bring: the lines of standard error
/// that are not empty, in order.
pub open spec fn stderr_errors(lines: Seq<Input>) -> Seq<Seq<char>>
    decreases lines.len(),
{
    if lines.len() == 0 {
        Seq::empty()
    } else {
        match lines.last() {
            Input::Stderr(line) => if line.len() == 0 {
                stderr_errors(lines.drop_last())
            } else {
                stderr_errors(lines.drop_last()).push(line)
            },
            _ => stderr_errors(lines.drop_last()),
        }
    }
}

/// A process that never writes the terminal message and exits without
/// success signals completion exactly once, without success. Its error
/// outputs are the lines that it wrote to standard error and then one line
/// that tells the exit code.
pub proof fn lemma_failed_exit_without_terminal(lines: Seq<Input>, code: Option<i32>)
    requires
        forall|i: int| 0 <= i < lines.len() ==> is_line(#[trigger] lines[i]),
        forall|i: int| 0 <= i < lines.len() ==> completing(#[trigger] lines[i]) is None,
    ensures
        completions(run(false, lines.push(Input::Exited { success: false, code })).1) == seq![
            false,
        ],
        error_outputs(run(false, lines.push(Input::Exited { success: false, code })).1)
            == stderr_errors(lines).push(exit_message(code)),
{
    reveal_with_fuel(error_outputs, 3);
    let exit = Input::Exited { success: false, code };
    let inputs = lines.push(exit);
    lemma_completion_once(inputs);
    assert(inputs.drop_last() =~= lines);
    lemma_first_completion_of_lines(lines);
    lemma_errors_of_lines(lines);
    let before = run(false, lines);
    lemma_completion_once(lines);
    let last = step(before.0, exit);
    lemma_error_outputs_concat(before.1, last.1);
    let error = Signal::Output { content: exit_message(code), is_error: true };
    let done = Signal::Completed { success: false };
    assert(last.1 =~= seq![error, done]);
    assert(last.1.drop_last() =~= seq![error]);
    assert(seq![error].drop_last() =~= Seq::<Signal>::empty());
    assert(error_outputs(last.1) =~= seq![exit_message(code)]);
    assert(error_outputs(before.1) + error_outputs(last.1) =~= stderr_errors(lines).push(
        exit_message(code),
    ));
}

/// A process that writes nothing but lines of standard output, none of them
/// the terminal message, and exits without success gives exactly one error
/// output, which tells the exit code, and signals completion exactly once,
/// without success.
pub proof fn lemma_failed_exit_of_quiet_process(lines: Seq<Input>, code: Option<i32>)
    requires
        forall|i: int|
            0 <= i < lines.len() ==> (#[trigger] lines[i] matches Input::Stdout(line)
                && !is_terminal(line)),
    ensures
        completions(run(false, lines.push(Input::Exited { success: false, code })).1) == seq![
            false,
        ],
        error_outputs(run(false, lines.push(Input::Exited { success: false, code })).1) == seq![
            exit_message(code),
        ],
{
    assert forall|i: int| 0 <= i < lines.len() implies is_line(#[trigger] lines[i]) by {}
    assert forall|i: int| 0 <= i < lines.len() implies completing(#[trigger] lines[i]) is None by {}
    lemma_failed_exit_without_terminal(lines, code);
    lemma_no_stderr_errors(lines);
}

/// Lines of standard output bring no error line.
proof fn lemma_no_stderr_errors(lines: Seq<Input>)
    requires
        forall|i: int| 0 <= i < lines.len() ==> #[trigger] lines[i] is Stdout,
    ensures
        stderr_errors(lines) == Seq::<Seq<char>>::empty(),
    decreases lines.len(),
{
    if lines.len() > 0 {
        let front = lines.drop_last();
        assert forall|i: int| 0 <= i < front.len() implies #[trigger] front[i] is Stdout by {
            assert(front[i] == lines[i]);
        }
        lemma_no_stderr_errors(front);
        assert(lines[lines.len() - 1] is Stdout);
    }
}

/// The error outputs of a run over lines of output are the lines of
/// standard error that are not empty, whether or not completion was
/// signalled before.
pub proof fn lemma_errors_of_lines(lines: Seq<Input>)
    requires
        forall|i: int| 0 <= i < lines.len() ==> is_line(#[trigger] lines[i]),
    ensures
        forall|sent: bool| error_outputs(#[trigger] run(sent, lines).1) == stderr_errors(lines),
    decreases lines.len(),
{
    assert forall|sent: bool| error_outputs(#[trigger] run(sent, lines).1) == stderr_errors(
        lines,
    ) by {
        if lines.len() > 0 {
            let front = lines.drop_last();
            assert forall|i: int| 0 <= i < front.len() implies is_line(#[trigger] front[i]) by {
                assert(front[i] == lines[i]);
            }
            lemma_errors_of_lines(front);
            let before = run(sent, front);
            assert(is_line(lines[lines.len() - 1]));
            let last = step(before.0, lines.last());
            lemma_error_outputs_concat(before.1, last.1);
            lemma_errors_of_line(before.0, lines.last());
            match lines.last() {
                Input::Stderr(line) => {
                    if line.len() == 0 {
                        assert(error_outputs(before.1) + error_outputs(last.1) =~= stderr_errors(
                            lines,
                        ));
                    } else {
                        assert(error_outputs(before.1) + error_outputs(last.1) =~= stderr_errors(
                            lines,
                        ));
                    }
                },
                _ => {
                    assert(error_outputs(before.1) + error_outputs(last.1) =~= stderr_errors(
                        lines,
                    ));
                },
            }
        }
    }
}

/// The error output of a step for one line of output: the line itself where
/// it is a line of standard error that is not empty, and nothing otherwise.
proof fn lemma_errors_of_line(sent: bool, input: Input)
    requires
        is_line(input),
    ensures
        error_outputs(step(sent, input).1) == match input {
            Input::Stderr(line) => if line.len() == 0 {
                Seq::<Seq<char>>::empty()
            } else {
                seq![line]
            },
            _ => Seq::<Seq<char>>::empty(),
        },
{
    reveal_with_fuel(error_outputs, 2);
    let out = step(sent, input).1;
    if out.len() > 0 {
        assert(out.len() == 1);
        assert(out.drop_last() =~= Seq::<Signal>::empty());
    }
}

impl ExitReport {
    /// The input that the report stands for.
    pub open spec fn input(&self) -> Input {
        match self {
            ExitReport::Exited { success, code } => Input::Exited { success: *success, code: *code },
            ExitReport::WaitFailed { error } => Input::WaitFailed(error@),
        }
    }
}

impl SupervisorEvent {
    /// What a subscriber learns from the event.
    pub open spec fn signal(&self) -> Signal {
        match self {
            SupervisorEvent::Output(output) => Signal::Output {
                content: output.content@,
                is_error: output.is_error,
            },
            SupervisorEvent::Completed { process_id, success } => Signal::Completed {
                success: *success,
            },
        }
    }

    /// The process that the event is about.
    pub open spec fn process(&self) -> Seq<char> {
        match self {
            SupervisorEvent::Output(output) => output.process_id@,
            SupervisorEvent::Completed { process_id, success } => process_id@,
        }
    }

    /// The time that an output carries.
    pub open spec fn stamped(&self, timestamp: Seq<char>) -> bool {
        match self {
            SupervisorEvent::Output(output) => output.timestamp@ == timestamp,
            SupervisorEvent::Completed { process_id, success } => true,
        }
    }
}

/// The signals of a sequence of events, in order.
pub open spec fn signals_of(events: Seq<SupervisorEvent>) -> Seq<Signal> {
    Seq::new(events.len(), |i: int| events[i].signal())
}

/// Every event is about the process `process_id`, and every output carries `timestamp`.
pub open spec fn all_about(
    events: Seq<SupervisorEvent>,
    process_id: Seq<char>,
    timestamp: Seq<char>,
) -> bool {
    forall|i: int|
        0 <= i < events.len() ==> (#[trigger] events[i]).process() == process_id
            && events[i].stamped(timestamp)
}

/// An output event.
fn output_event(process_id: &str, content: String, is_error: bool, timestamp: &str) -> (r:
    SupervisorEvent)
    ensures
        r.signal() == (Signal::Output { content: content@, is_error }),
        r.process() == process_id@,
        r.stamped(timestamp@),
{
    SupervisorEvent::Output(
        ProcessOutput {
            process_id: String::from_str(process_id),
            content,
            is_error,
            timestamp: String::from_str(timestamp),
        },
    )
}

/// Appends the completion event to `events`, unless completion was signalled before.
fn push_completion(events: &mut Vec<SupervisorEvent>, sent: bool, process_id: &str, success: bool)
    ensures
        signals_of(final(events)@) == signals_of(old(events)@) + completion_once(sent, success),
        forall|t: Seq<char>|
            all_about(old(events)@, process_id@, t) ==> all_about(final(events)@, process_id@, t),
{
    if !sent {
        events.push(
            SupervisorEvent::Completed { process_id: String::from_str(process_id), success },
        );
    }
    assert(signals_of(events@) =~= signals_of(old(events)@) + completion_once(sent, success));
}

/// The text that tells how a process exited without success.
pub fn exit_text(code: Option<i32>) -> (r: String)
    ensures
        r@ == exit_message(code),
{
    let mut out = String::from_str("Process exited with code: ");
    match code {
        Some(c) => {
            let digits = i32_to_text(c);
            out.append("Some(");
            out.append(digits.as_str());
            out.append(")");
            assert(out@ =~= exit_message(code));
        },
        None => {
            out.append("None");
        },
    }
    out
}

/// Decides what a line of standard output brings, given what reading it as
/// JSON gave and the time to put on an output.
pub fn stdout_events(
    completion_sent: bool,
    process_id: &str,
    line: &str,
    parsed: &Option<JsonValue>,
    timestamp: &str,
) -> (r: (bool, Vec<SupervisorEvent>))
    ensures
        (r.0, signals_of(r.1@)) == stdout_step(completion_sent, line@, model_of(*parsed)),
        all_about(r.1@, process_id@, timestamp@),
{
    let mut events: Vec<SupervisorEvent> = Vec::new();
    assert(signals_of(events@) =~= Seq::<Signal>::empty());
    if is_terminal_parsed(parsed) {
        push_completion(&mut events, completion_sent, process_id, true);
        assert(signals_of(events@) =~= completion_once(completion_sent, true));
        (true, events)
    } else {
        match classify_parsed(line, parsed) {
            Some(content) => {
                let event = output_event(process_id, content, false, timestamp);
                events.push(event);
                assert(signals_of(events@) =~= seq![
                    Signal::Output { content: content@, is_error: false },
                ]);
            },
            None => {},
        }
        (completion_sent, events)
    }
}

/// Decides what a line of standard error brings: an error output, unless the
/// line is empty.
pub fn stderr_events(completion_sent: bool, process_id: &str, line: &str, timestamp: &str) -> (r:
    (bool, Vec<SupervisorEvent>))
    ensures
        (r.0, signals_of(r.1@)) == stderr_step(completion_sent, line@),
        all_about(r.1@, process_id@, timestamp@),
{
    let mut events: Vec<SupervisorEvent> = Vec::new();
    assert(signals_of(events@) =~= Seq::<Signal>::empty());
    if !line.is_empty() {
        let event = output_event(process_id, String::from_str(line), true, timestamp);
        events.push(event);
        assert(signals_of(events@) =~= seq![Signal::Output { content: line@, is_error: true }]);
    }
    (completion_sent, events)
}

/// Decides what the end of the wait brings.
pub fn exit_events(
    completion_sent: bool,
    process_id: &str,
    report: &ExitReport,
    timestamp: &str,
) -> (r: (bool, Vec<SupervisorEvent>))
    ensures
        (r.0, signals_of(r.1@)) == exit_step(completion_sent, report.input()),
        (r.0, signals_of(r.1@)) == step(completion_sent, report.input()),
        all_about(r.1@, process_id@, timestamp@),
{
    let mut events: Vec<SupervisorEvent> = Vec::new();
    assert(signals_of(events@) =~= Seq::<Signal>::empty());
    match report {
        ExitReport::Exited { success, code } => {
            if !*success {
                let event = output_event(process_id, exit_text(*code), true, timestamp);
                events.push(event);
                assert(signals_of(events@) =~= seq![
                    Signal::Output { content: exit_message(*code), is_error: true },
                ]);
            }
            push_completion(&mut events, completion_sent, process_id, *success);
        },
        ExitReport::WaitFailed { error } => {
            let mut content = String::from_str("Process error: ");
            content.append(error.as_str());
            let event = output_event(process_id, content, true, timestamp);
            events.push(event);
            assert(signals_of(events@) =~= seq![
                Signal::Output { content: wait_error_message(error@), is_error: true },
            ]);
            push_completion(&mut events, completion_sent, process_id, false);
        },
    }
    (true, events)
}

/// The supervisor's state for one process: its id, and whether its
/// completion has been signalled.
#[derive(Debug)]
pub struct Supervision {
    pub process_id: String,
    pub completion_sent: bool,
}

impl Supervision {
    /// The state for a process of which nothing has been signalled yet.
    pub fn new(process_id: String) -> (r: Supervision)
        ensures
            r.process_id == process_id,
            !r.completion_sent,
    {
        Supervision { process_id, completion_sent: false }
    }

    /// Takes a line of standard output and gives what to emit for it.
    pub fn on_stdout_line(&mut self, line: &str) -> (events: Vec<SupervisorEvent>)
        ensures
            (final(self).completion_sent, signals_of(events@)) == step(
                old(self).completion_sent,
                Input::Stdout(line@),
            ),
            final(self).process_id == old(self).process_id,
            forall|i: int|
                0 <= i < events@.len() ==> (#[trigger] events@[i]).process()
                    == old(self).process_id@,
    {
        let parsed = parse_document(line);
        let timestamp = now_rfc3339();
        let (sent, events) = stdout_events(
            self.completion_sent,
            self.process_id.as_str(),
            line,
            &parsed,
            timestamp.as_str(),
        );
        self.completion_sent = sent;
        events
    }

    /// Takes a line of standard error and gives what to emit for it.
    pub fn on_stderr_line(&mut self, line: &str) -> (events: Vec<SupervisorEvent>)
        ensures
            (final(self).completion_sent, signals_of(events@)) == step(
                old(self).completion_sent,
                Input::Stderr(line@),
            ),
            final(self).process_id == old(self).process_id,
            forall|i: int|
                0 <= i < events@.len() ==> (#[trigger] events@[i]).process()
                    == old(self).process_id@,
    {
        let timestamp = now_rfc3339();
        let (sent, events) = stderr_events(
            self.completion_sent,
            self.process_id.as_str(),
            line,
            timestamp.as_str(),
        );
        self.completion_sent = sent;
        events
    }

    /// Takes the end of the wait and gives what to emit for it.
    pub fn on_exit(&mut self, report: &ExitReport) -> (events: Vec<SupervisorEvent>)
        ensures
            (final(self).completion_sent, signals_of(events@)) == step(
                old(self).completion_sent,
                report.input(),
            ),
            final(self).completion_sent,
            final(self).process_id == old(self).process_id,
            forall|i: int|
                0 <= i < events@.len() ==> (#[trigger] events@[i]).process()
                    == old(self).process_id@,
    {
        let timestamp = now_rfc3339();
        let (sent, events) = exit_events(
            self.completion_sent,
            self.process_id.as_str(),
            report,
            timestamp.as_str(),
        );
        self.completion_sent = sent;
        events
    }
}

} // verus!
