//! The execution driver's control flow: mode selection at startup, the
//! decision a REPL line triggers, the full event plan of a REPL input
//! sequence, and the phase plan of file mode.
//!
//! The host performs the outside work each decision calls for (reading
//! lines, submitting source to the engine, writing to the error sink)
//! and feeds the outcomes back in.
use vstd::prelude::*;
use vstd::string::*;

use crate::text;

verus! {

/// What the process arguments select.
#[derive(Debug, PartialEq, Eq)]
pub enum StartMode {
    /// No script argument: the interactive loop.
    Interactive,
    /// One argument ending in the script suffix: run that file.
    RunScript(String),
    /// An argument that is not a recognized script: nothing to run.
    Unrecognized,
}

/// Chooses the execution mode from the process arguments, the first
/// being the program name. The mode is selected once and never switched
/// mid-run.
pub fn choose_mode(args: &Vec<String>) -> (m: StartMode)
    ensures
        args@.len() <= 1 ==> m is Interactive,
        args@.len() > 1 && text::has_script_suffix(args@[1]@) ==> (m matches StartMode::RunScript(
            p,
        ) && p@ == args@[1]@),
        args@.len() > 1 && !text::has_script_suffix(args@[1]@) ==> m is Unrecognized,
{
    if args.len() <= 1 {
        StartMode::Interactive
    } else {
        let name = &args[1];
        if text::ends_with_script_suffix(name.as_str()) {
            StartMode::RunScript(name.clone())
        } else {
            StartMode::Unrecognized
        }
    }
}

/// What one REPL input line triggers.
#[derive(Debug, PartialEq, Eq)]
pub enum ReplAction {
    /// A blank line: prompt again without invoking the engine.
    Skip,
    /// The literal input `exit`: emit one farewell, then end the loop.
    Quit,
    /// Any other line: submit it to the engine as one unit of source.
    Run(String),
}

/// Decides what one line of REPL input triggers, after stripping the
/// line ending and surrounding whitespace.
pub fn repl_step(line: &str) -> (a: ReplAction)
    ensures
        text::spec_trim(line@).len() == 0 ==> a is Skip,
        text::spec_trim(line@) == "exit"@ ==> a is Quit,
        text::spec_trim(line@).len() != 0 && text::spec_trim(line@) != "exit"@ ==> (
        a matches ReplAction::Run(code) && code@ == text::spec_trim(line@)),
{
    let t = text::trimmed(line);
    proof {
        reveal_strlit("exit");
    }
    if t.as_str().unicode_len() == 0 {
        ReplAction::Skip
    } else if t == String::from_str("exit") {
        ReplAction::Quit
    } else {
        ReplAction::Run(t)
    }
}

/// One observable event of a REPL session.
#[derive(Debug, PartialEq, Eq)]
pub enum ReplEvent {
    /// One unit of source handed to the engine.
    Submit(String),
    /// The single farewell emission on `exit`.
    Farewell,
}

/// The mathematical value of a REPL event.
pub enum ReplEventModel {
    Submit(Seq<char>),
    Farewell,
}

impl View for ReplEvent {
    type V = ReplEventModel;

    open spec fn view(&self) -> ReplEventModel {
        match self {
            ReplEvent::Submit(s) => ReplEventModel::Submit(s@),
            ReplEvent::Farewell => ReplEventModel::Farewell,
        }
    }
}

impl DeepView for ReplEvent {
    type V = ReplEventModel;

    open spec fn deep_view(&self) -> ReplEventModel {
        self.view()
    }
}

pub open spec fn spec_repl_plan_from(lines: Seq<Seq<char>>, i: int) -> Seq<ReplEventModel>
    decreases lines.len() - i,
{
    if i < 0 || i >= lines.len() {
        Seq::empty()
    } else {
        let t = text::spec_trim(lines[i]);
        if t.len() == 0 {
            spec_repl_plan_from(lines, i + 1)
        } else if t == "exit"@ {
            seq![ReplEventModel::Farewell]
        } else {
            seq![ReplEventModel::Submit(t)] + spec_repl_plan_from(lines, i + 1)
        }
    }
}

/// The events a sequence of REPL input lines produces, in order: a blank
/// line is skipped without engine invocation; `exit` emits exactly one
/// farewell and ends the loop; any other line is submitted as one unit;
/// end of input ends the loop silently.
pub open spec fn spec_repl_plan(lines: Seq<Seq<char>>) -> Seq<ReplEventModel> {
    spec_repl_plan_from(lines, 0)
}

/// Replays a REPL input sequence into its event plan.
pub fn repl_plan(lines: &Vec<String>) -> (r: Vec<ReplEvent>)
    ensures
        r.deep_view() == spec_repl_plan(lines.deep_view()),
{
    let mut out: Vec<ReplEvent> = Vec::new();
    let mut i: usize = 0;
    while i < lines.len()
        invariant
            i <= lines@.len(),
            spec_repl_plan(lines.deep_view()) == out.deep_view() + spec_repl_plan_from(
                lines.deep_view(),
                i as int,
            ),
        decreases lines@.len() - i,
    {
        let ghost dv = lines.deep_view();
        let ghost out0 = out.deep_view();
        proof {
            assert(dv[i as int] == lines@[i as int]@);
        }
        let action = repl_step(lines[i].as_str());
        match action {
            ReplAction::Skip => {},
            ReplAction::Quit => {
                out.push(ReplEvent::Farewell);
                proof {
                    assert(out.deep_view() =~= out0.push(ReplEventModel::Farewell));
                    assert(spec_repl_plan_from(dv, i as int) =~= seq![ReplEventModel::Farewell]);
                    assert(out0 + spec_repl_plan_from(dv, i as int) =~= out.deep_view());
                }
                return out;
            },
            ReplAction::Run(code) => {
                let ghost c = code@;
                out.push(ReplEvent::Submit(code));
                proof {
                    assert(out.deep_view() =~= out0.push(ReplEventModel::Submit(c)));
                    assert(out0 + (seq![ReplEventModel::Submit(c)] + spec_repl_plan_from(
                        dv,
                        i as int + 1,
                    )) =~= out.deep_view() + spec_repl_plan_from(dv, i as int + 1));
                }
            },
        }
        i += 1;
    }
    proof {
        assert(out.deep_view() + spec_repl_plan_from(lines.deep_view(), i as int)
            =~= out.deep_view());
    }
    out
}

/// One phase of file mode.
#[derive(Clone, Copy, PartialEq, Eq, Structural, Debug)]
pub enum FileStep {
    /// Execute the file's source as top-level statements.
    RunTopLevel,
    /// Report a load or top-level execution error to the error sink.
    ReportLoadError,
    /// Invoke the callable bound to `main` with no arguments.
    CallEntryPoint,
    /// Report an entry-point invocation error to the error sink.
    ReportEntryError,
}

/// The phases of file mode, in order: top-level execution always comes
/// first; an error there is reported but does not abort the mode, which
/// still proceeds to the entry-point convention; an entry-point error is
/// reported too. The mode is single-shot.
pub open spec fn spec_file_plan(load_failed: bool, has_main: bool, main_failed: bool) -> Seq<
    FileStep,
> {
    seq![FileStep::RunTopLevel] + (if load_failed {
        seq![FileStep::ReportLoadError]
    } else {
        Seq::empty()
    }) + (if has_main {
        seq![FileStep::CallEntryPoint] + (if main_failed {
            seq![FileStep::ReportEntryError]
        } else {
            Seq::empty()
        })
    } else {
        Seq::empty()
    })
}

/// Lays out the phases of one file-mode run from the outcomes the engine
/// reports: whether top-level execution failed, whether a callable named
/// `main` is bound in the globals afterwards, and whether its invocation
/// failed.
pub fn file_plan(load_failed: bool, has_main: bool, main_failed: bool) -> (r: Vec<FileStep>)
    ensures
        r@ == spec_file_plan(load_failed, has_main, main_failed),
{
    let mut r: Vec<FileStep> = Vec::new();
    r.push(FileStep::RunTopLevel);
    if load_failed {
        r.push(FileStep::ReportLoadError);
    }
    if has_main {
        r.push(FileStep::CallEntryPoint);
        if main_failed {
            r.push(FileStep::ReportEntryError);
        }
    }
    proof {
        assert(r@ =~= spec_file_plan(load_failed, has_main, main_failed));
    }
    r
}

} // verus!
