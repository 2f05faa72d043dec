use cumulus_host::driver::{
    choose_mode, file_plan, repl_plan, repl_step, FileStep, ReplAction, ReplEvent, StartMode,
};

#[test]
fn no_argument_selects_the_interactive_loop() {
    assert_eq!(choose_mode(&vec!["host".to_string()]), StartMode::Interactive);
    assert_eq!(choose_mode(&Vec::new()), StartMode::Interactive);
}

#[test]
fn a_script_argument_selects_file_mode() {
    let m = choose_mode(&vec!["host".to_string(), "job.lua".to_string()]);
    assert_eq!(m, StartMode::RunScript("job.lua".to_string()));
}

#[test]
fn an_unrecognized_argument_selects_nothing() {
    let m = choose_mode(&vec!["host".to_string(), "notes.txt".to_string()]);
    assert_eq!(m, StartMode::Unrecognized);
}

#[test]
fn repl_step_decides_per_line() {
    assert_eq!(repl_step(""), ReplAction::Skip);
    assert_eq!(repl_step("   \t"), ReplAction::Skip);
    assert_eq!(repl_step("exit"), ReplAction::Quit);
    assert_eq!(repl_step("  exit \n"), ReplAction::Quit);
    assert_eq!(
        repl_step("log.info('hi')\n"),
        ReplAction::Run("log.info('hi')".to_string())
    );
}

#[test]
fn blank_then_exit_emits_one_farewell_and_no_submission() {
    let events = repl_plan(&vec!["".to_string(), "exit".to_string()]);
    assert_eq!(events, vec![ReplEvent::Farewell]);
}

#[test]
fn lines_after_exit_are_never_submitted() {
    let events = repl_plan(&vec![
        "a()".to_string(),
        "  ".to_string(),
        "exit".to_string(),
        "b()".to_string(),
    ]);
    assert_eq!(
        events,
        vec![ReplEvent::Submit("a()".to_string()), ReplEvent::Farewell]
    );
}

#[test]
fn end_of_input_ends_the_loop_silently() {
    let events = repl_plan(&vec!["a()".to_string()]);
    assert_eq!(events, vec![ReplEvent::Submit("a()".to_string())]);
    assert_eq!(repl_plan(&Vec::new()), Vec::new());
}

#[test]
fn entry_point_still_runs_after_a_top_level_error() {
    let plan = file_plan(true, true, false);
    assert_eq!(
        plan,
        vec![
            FileStep::RunTopLevel,
            FileStep::ReportLoadError,
            FileStep::CallEntryPoint,
        ]
    );
}

#[test]
fn file_mode_phase_orders() {
    assert_eq!(file_plan(false, false, false), vec![FileStep::RunTopLevel]);
    assert_eq!(
        file_plan(false, true, true),
        vec![
            FileStep::RunTopLevel,
            FileStep::CallEntryPoint,
            FileStep::ReportEntryError,
        ]
    );
    assert_eq!(
        file_plan(true, false, false),
        vec![FileStep::RunTopLevel, FileStep::ReportLoadError]
    );
}
