use windows_board::dispatch::{move_card_dispatch, move_card_dispatch_at, Dispatch, DispatchEvent, DispatchStep};
use windows_board::error::BoardError;
use windows_board::herdr::{classify_agent_start, failure_message, AgentStart, HerdrCall, Pane};
use windows_board::state::{BoardState, Column, DispatchConfig};

/// A stand-in for the Herdr command line: each field is what the matching
/// call reports.
struct Fake {
    /// Pane ids listed, or the error output of a failing `pane list`.
    pane_list: Result<Vec<&'static str>, &'static str>,
    /// Pane id a split returns, or the error output of a failing split.
    split: Result<&'static str, &'static str>,
    /// Error output of `agent start` (the call fails with exit code 1 when set).
    agent_start_stderr: Option<&'static str>,
    /// Whether sending the prompt fails.
    prompt_fails: bool,
}

impl Fake {
    fn new() -> Self {
        Fake { pane_list: Ok(vec![]), split: Ok("p-new"), agent_start_stderr: None, prompt_fails: false }
    }
}

fn pane(id: &str) -> Pane {
    Pane {
        pane_id: id.to_string(),
        workspace_id: "w1".to_string(),
        tab_id: "t1".to_string(),
        terminal_id: None,
        terminal_title: None,
        terminal_title_stripped: None,
        cwd: None,
        agent_status: None,
        focused: false,
        revision: 1,
        scroll: None,
        agent: None,
        agent_session: None,
    }
}

fn failed(call: HerdrCall, stderr: &str) -> String {
    failure_message(&call.args(), Some(1), stderr)
}

/// Drives a dispatch to its end against the fake, recording the prompts sent.
fn drive(board: &mut BoardState, id: &str, column: &str, fake: &Fake, prompts: &mut Vec<String>) -> Result<String, BoardError> {
    let mut d: Dispatch = move_card_dispatch(board, id, column)?;
    loop {
        let event = match &d.step {
            DispatchStep::Finished { status } => return Ok(status.clone()),
            DispatchStep::ListPanes => DispatchEvent::PanesListed(match &fake.pane_list {
                Ok(ids) => Ok(ids.iter().map(|p| pane(p)).collect()),
                Err(stderr) => Err(failed(HerdrCall::ListPanes { workspace: None }, stderr)),
            }),
            DispatchStep::CreateTab => DispatchEvent::PaneOpened(Ok(pane("p-tab"))),
            DispatchStep::SplitPane { direction } => DispatchEvent::PaneOpened(match fake.split {
                Ok(p) => Ok(pane(p)),
                Err(stderr) => Err(failed(HerdrCall::SplitPane { source: None, direction: direction.clone() }, stderr)),
            }),
            DispatchStep::RunInPane { .. } => DispatchEvent::CommandRan(Ok(())),
            DispatchStep::StartAgent { name, kind, pane_id } => {
                let (success, stderr) = match fake.agent_start_stderr {
                    Some(s) => (false, s),
                    None => (true, ""),
                };
                DispatchEvent::AgentStarted(classify_agent_start(name, kind, pane_id, success, Some(1), stderr))
            },
            DispatchStep::Prompt { pane_id, text } => {
                prompts.push(format!("agent prompt {pane_id} {text}"));
                if fake.prompt_fails {
                    DispatchEvent::Prompted(Err(failed(
                        HerdrCall::AgentPrompt { target: pane_id.clone(), text: text.clone() },
                        "",
                    )))
                } else {
                    DispatchEvent::Prompted(Ok(()))
                }
            },
        };
        d.advance(board, event)?;
    }
}

fn run(board: &mut BoardState, id: &str, column: &str, fake: &Fake) -> Result<String, BoardError> {
    let mut prompts = Vec::new();
    drive(board, id, column, fake, &mut prompts)
}

/// A board whose columns: `dispatch` is dispatch-enabled with `copilot`,
/// `plain` is not dispatch-enabled.
fn board_with_columns() -> BoardState {
    let mut board = BoardState::default();
    board.columns = vec![
        Column {
            slug: "dispatch".into(),
            title: "Dispatch".into(),
            dispatch_enabled: true,
            dispatch: Some(DispatchConfig {
                agent: "copilot".into(),
                prompt: Some("Act on: {title} / {description}".into()),
                split_direction: None,
                pre_command: None,
            }),
            order: 0,
        },
        Column { slug: "plain".into(), title: "Plain".into(), dispatch_enabled: false, dispatch: None, order: 1 },
    ];
    board
}

#[test]
fn move_to_plain_column_is_verbatim_no_herdr() {
    let mut board = board_with_columns();
    let id = board.add_card("task one".into(), "dispatch");
    let d = move_card_dispatch(&mut board, &id, "plain").unwrap();
    let status = match &d.step {
        DispatchStep::Finished { status } => status.clone(),
        other => panic!("plain move asked Herdr for {other:?}"),
    };

    assert_eq!(status, format!("moved {id} to 'plain'"));
    assert_eq!(board.card(&id).unwrap().column, "plain");
    assert_eq!(board.card(&id).unwrap().pane_id, None);
    assert_eq!(board.card(&id).unwrap().agent_name, None);
}

#[test]
fn move_to_dispatch_column_starts_agent_and_links_pane() {
    let fake = Fake { pane_list: Ok(vec![]), split: Ok("p-new"), ..Fake::new() };

    let mut board = board_with_columns();
    let id = board.add_card("deploy service".into(), "plain");
    let status = run(&mut board, &id, "dispatch", &fake).unwrap();

    assert!(status.contains("started copilot agent in pane p-new"), "status: {status}");
    assert_eq!(board.card(&id).unwrap().column, "dispatch");
    assert_eq!(board.card(&id).unwrap().pane_id.as_deref(), Some("p-new"));
    assert_eq!(board.card(&id).unwrap().agent_name.as_deref(), Some("copilot"));
}

#[test]
fn dispatch_reuses_already_linked_live_pane() {
    let fake = Fake { pane_list: Ok(vec!["p-linked"]), split: Err("should not split\n"), ..Fake::new() };

    let mut board = board_with_columns();
    let id = board.add_card("reuse me".into(), "plain");
    board.card_mut(&id).unwrap().pane_id = Some("p-linked".into());

    let status = run(&mut board, &id, "dispatch", &fake).unwrap();
    assert!(status.contains("in pane p-linked"), "status: {status}");
    assert_eq!(board.card(&id).unwrap().pane_id.as_deref(), Some("p-linked"));
}

#[test]
fn pane_list_failure_skips_dispatch_but_still_moves() {
    let fake = Fake { pane_list: Err("bogus server\n"), ..Fake::new() };

    let mut board = board_with_columns();
    let id = board.add_card("x".into(), "plain");
    let status = run(&mut board, &id, "dispatch", &fake).unwrap();

    assert!(status.contains("moved"), "status: {status}");
    assert!(status.contains("dispatch skipped (pane list failed"), "status: {status}");
    assert_eq!(board.card(&id).unwrap().column, "dispatch");
    assert_eq!(board.card(&id).unwrap().pane_id, None);
}

#[test]
fn pane_split_failure_skips_dispatch_but_still_moves() {
    let fake = Fake { pane_list: Ok(vec![]), split: Err("no room\n"), ..Fake::new() };

    let mut board = board_with_columns();
    let id = board.add_card("x".into(), "plain");
    let status = run(&mut board, &id, "dispatch", &fake).unwrap();

    assert!(status.contains("dispatch skipped (pane split failed"), "status: {status}");
    assert_eq!(board.card(&id).unwrap().column, "dispatch");
    assert_eq!(board.card(&id).unwrap().pane_id, None);
}

#[test]
fn agent_start_failure_skips_dispatch_but_still_moves() {
    let fake = Fake { agent_start_stderr: Some("unknown kind bacon\n"), ..Fake::new() };

    let mut board = board_with_columns();
    let id = board.add_card("x".into(), "plain");
    let status = run(&mut board, &id, "dispatch", &fake).unwrap();

    assert!(status.contains("dispatch skipped (agent start failed"), "status: {status}");
    assert_eq!(board.card(&id).unwrap().column, "dispatch");
    assert_eq!(board.card(&id).unwrap().pane_id, None);
}

#[test]
fn agent_initializing_defers_prompt_but_links_pane() {
    let fake = Fake { agent_start_stderr: Some("agent_not_ready still booting\n"), ..Fake::new() };

    let mut board = board_with_columns();
    let id = board.add_card("boot".into(), "plain");
    let mut prompts = Vec::new();
    let status = drive(&mut board, &id, "dispatch", &fake, &mut prompts).unwrap();

    assert!(status.contains("still initializing, prompt deferred"), "status: {status}");
    assert_eq!(board.card(&id).unwrap().pane_id.as_deref(), Some("p-new"));
    assert_eq!(board.card(&id).unwrap().agent_name.as_deref(), Some("copilot"));
    assert!(prompts.is_empty());
}

#[test]
fn dispatch_prompt_substitutes_title_and_description() {
    let fake = Fake::new();

    let mut board = board_with_columns();
    let id = board.add_card("Build the thing".into(), "plain");
    board.card_mut(&id).unwrap().description = "carefully".into();

    let mut prompts = Vec::new();
    let status = drive(&mut board, &id, "dispatch", &fake, &mut prompts).unwrap();
    assert!(status.contains("started copilot agent"), "status: {status}");

    let args = prompts.join("\n");
    assert!(args.contains("Act on: Build the thing / carefully"), "prompt args: {args}");
}

#[test]
fn dispatch_without_template_falls_back_to_title_plus_description() {
    let mut board = board_with_columns();
    board.columns[0].dispatch.as_mut().unwrap().prompt = None;

    let fake = Fake::new();

    let id = board.add_card("Just a title".into(), "plain");
    let mut prompts = Vec::new();
    drive(&mut board, &id, "dispatch", &fake, &mut prompts).unwrap();

    let args = prompts.join("\n");
    assert!(args.contains("Just a title"), "prompt args: {args}");
}

#[test]
fn move_to_nonexistent_column_is_plain_and_still_moves() {
    let mut board = board_with_columns();
    let id = board.add_card("orphan".into(), "plain");
    let status = run(&mut board, &id, "nope", &Fake::new()).unwrap();

    assert_eq!(status, format!("moved {id} to 'nope'"));
    assert_eq!(board.card(&id).unwrap().column, "nope");
}

#[test]
fn dispatch_column_without_config_is_plain() {
    let mut board = board_with_columns();
    board.columns[0].dispatch = None; // enabled but no config

    let id = board.add_card("cfg".into(), "plain");
    let status = run(&mut board, &id, "dispatch", &Fake::new()).unwrap();
    assert_eq!(status, format!("moved {id} to 'dispatch'"));
    assert_eq!(board.card(&id).unwrap().pane_id, None);
}

#[test]
fn move_nonexistent_card_is_an_error() {
    let mut board = board_with_columns();
    let err = move_card_dispatch(&mut board, "no-such-card", "plain").unwrap_err();
    let msg = err.message();
    assert!(msg.contains("not found"), "err: {msg}");
}

// ---------------------------------------------------------------------------
// Further cases
// ---------------------------------------------------------------------------

#[test]
fn full_status_lines_and_prompt_text() {
    let mut board = board_with_columns();
    let id = board.add_card("Ship".into(), "plain");
    board.card_mut(&id).unwrap().description = "today".into();
    let mut prompts = Vec::new();
    let status = drive(&mut board, &id, "dispatch", &Fake::new(), &mut prompts).unwrap();
    assert_eq!(status, format!("moved {id} to 'dispatch'; started copilot agent in pane p-new"));
    assert_eq!(prompts, vec!["agent prompt p-new Act on: Ship / today".to_string()]);
}

#[test]
fn fallback_prompt_joins_trimmed_title_and_description() {
    let mut board = board_with_columns();
    board.columns[0].dispatch.as_mut().unwrap().prompt = Some(String::new());
    let id = board.add_card("  Title  ".into(), "plain");
    board.card_mut(&id).unwrap().description = "\tdetails \n".into();
    let mut prompts = Vec::new();
    drive(&mut board, &id, "dispatch", &Fake::new(), &mut prompts).unwrap();
    assert_eq!(prompts, vec!["agent prompt p-new Title\ndetails".to_string()]);
}

#[test]
fn blank_prompt_links_without_sending() {
    let mut board = board_with_columns();
    board.columns[0].dispatch.as_mut().unwrap().prompt = None;
    let id = board.add_card("   ".into(), "plain");
    let mut prompts = Vec::new();
    let status = drive(&mut board, &id, "dispatch", &Fake::new(), &mut prompts).unwrap();
    assert!(prompts.is_empty());
    assert!(status.ends_with("started copilot agent in pane p-new"), "status: {status}");
    assert_eq!(board.card(&id).unwrap().agent_name.as_deref(), Some("copilot"));
}

#[test]
fn prompt_failure_keeps_move_but_not_link() {
    let fake = Fake { prompt_fails: true, ..Fake::new() };
    let mut board = board_with_columns();
    let id = board.add_card("x".into(), "plain");
    let status = run(&mut board, &id, "dispatch", &fake).unwrap();
    assert!(status.contains("started copilot agent in pane p-new but prompt failed ("), "status: {status}");
    assert_eq!(board.card(&id).unwrap().column, "dispatch");
    assert_eq!(board.card(&id).unwrap().pane_id, None);
}

#[test]
fn target_agent_overrides_column_agent() {
    let mut board = board_with_columns();
    let id = board.add_card("x".into(), "plain");
    board.card_mut(&id).unwrap().target_agent = Some("  gemini ".into());
    let status = run(&mut board, &id, "dispatch", &Fake::new()).unwrap();
    assert!(status.contains("started gemini agent in pane p-new"), "status: {status}");
    assert_eq!(board.card(&id).unwrap().agent_name.as_deref(), Some("gemini"));
}

#[test]
fn tab_split_direction_opens_a_tab_and_pre_command_runs_first() {
    let mut board = board_with_columns();
    {
        let cfg = board.columns[0].dispatch.as_mut().unwrap();
        cfg.split_direction = Some("tab".into());
        cfg.pre_command = Some("cd repo".into());
    }
    let id = board.add_card("x".into(), "plain");
    let mut d = move_card_dispatch(&mut board, &id, "dispatch").unwrap();
    assert!(matches!(d.step, DispatchStep::ListPanes));
    d.advance(&mut board, DispatchEvent::PanesListed(Ok(vec![]))).unwrap();
    assert!(matches!(d.step, DispatchStep::CreateTab));
    d.advance(&mut board, DispatchEvent::PaneOpened(Ok(pane("p-tab")))).unwrap();
    match &d.step {
        DispatchStep::RunInPane { pane_id, command } => {
            assert_eq!(pane_id, "p-tab");
            assert_eq!(command, "cd repo");
        },
        other => panic!("unexpected step {other:?}"),
    }
    d.advance(&mut board, DispatchEvent::CommandRan(Err("boom".into()))).unwrap();
    match &d.step {
        DispatchStep::Finished { status } => {
            assert_eq!(status, &format!("moved {id} to 'dispatch'; dispatch skipped (pre-command failed: boom)"))
        },
        other => panic!("unexpected step {other:?}"),
    }
    assert_eq!(board.card(&id).unwrap().column, "dispatch");
}

#[test]
fn card_pre_command_wins_over_column() {
    let mut board = board_with_columns();
    board.columns[0].dispatch.as_mut().unwrap().pre_command = Some("column cmd".into());
    let id = board.add_card("x".into(), "plain");
    board.card_mut(&id).unwrap().pre_command = Some("card cmd".into());
    let mut d = move_card_dispatch(&mut board, &id, "dispatch").unwrap();
    d.advance(&mut board, DispatchEvent::PanesListed(Ok(vec![]))).unwrap();
    match &d.step {
        DispatchStep::SplitPane { direction } => assert_eq!(direction, "down"),
        other => panic!("unexpected step {other:?}"),
    }
    d.advance(&mut board, DispatchEvent::PaneOpened(Ok(pane("p1")))).unwrap();
    match &d.step {
        DispatchStep::RunInPane { command, .. } => assert_eq!(command, "card cmd"),
        other => panic!("unexpected step {other:?}"),
    }
}

#[test]
fn unexpected_event_changes_nothing() {
    let mut board = board_with_columns();
    let id = board.add_card("x".into(), "plain");
    let mut d = move_card_dispatch(&mut board, &id, "dispatch").unwrap();
    d.advance(&mut board, DispatchEvent::Prompted(Ok(()))).unwrap();
    assert!(matches!(d.step, DispatchStep::ListPanes));
    assert_eq!(board.card(&id).unwrap().pane_id, None);
}

#[test]
fn vanished_card_is_reported() {
    let mut board = board_with_columns();
    let id = board.add_card("x".into(), "plain");
    let mut d = move_card_dispatch(&mut board, &id, "dispatch").unwrap();
    d.advance(&mut board, DispatchEvent::PanesListed(Ok(vec![]))).unwrap();
    d.advance(&mut board, DispatchEvent::PaneOpened(Ok(pane("p1")))).unwrap();
    assert!(board.remove_card(&id));
    let err = d.advance(&mut board, DispatchEvent::AgentStarted(Ok(AgentStart::Initializing))).unwrap_err();
    assert_eq!(err.message(), format!("card \"{id}\" vanished during dispatch"));
}

#[test]
fn move_without_a_clock_reading_moves_but_fails() {
    let mut board = board_with_columns();
    let id = board.add_card_at("x".into(), "plain", Some((5, 0)));
    let err = move_card_dispatch_at(&mut board, &id, "dispatch", Err("clock skew".into())).unwrap_err();
    assert!(matches!(err, BoardError::ClockBeforeEpoch { .. }));
    assert_eq!(err.message(), "system clock before unix epoch: clock skew");
    let c = board.card(&id).unwrap();
    assert_eq!((c.column.as_str(), c.updated_at), ("dispatch", 5));

    let d = move_card_dispatch_at(&mut board, &id, "plain", Ok(9)).unwrap();
    assert!(matches!(d.step, DispatchStep::Finished { .. }));
    assert_eq!(board.card(&id).unwrap().updated_at, 9);
    assert!(matches!(
        move_card_dispatch_at(&mut board, "nope", "plain", Err("x".into())),
        Err(BoardError::CardNotFound { .. })
    ));
}

#[test]
fn link_is_stamped_with_the_reading_or_fails_without_one() {
    let mut board = board_with_columns();
    let id = board.add_card_at("x".into(), "plain", Some((5, 0)));
    let mut d = move_card_dispatch_at(&mut board, &id, "dispatch", Ok(6)).unwrap();
    d.advance_at(&mut board, DispatchEvent::PanesListed(Ok(vec![])), Err("x".into())).unwrap();
    d.advance_at(&mut board, DispatchEvent::PaneOpened(Ok(pane("p-new"))), Err("x".into())).unwrap();
    assert!(matches!(d.step, DispatchStep::StartAgent { .. }));
    let err = d
        .advance_at(&mut board, DispatchEvent::AgentStarted(Ok(AgentStart::Initializing)), Err("late".into()))
        .unwrap_err();
    assert!(matches!(&err, BoardError::ClockBeforeEpoch { cause } if cause == "late"));
    assert!(matches!(d.step, DispatchStep::StartAgent { .. }));
    assert_eq!(board.card(&id).unwrap().updated_at, 6);

    d.advance_at(&mut board, DispatchEvent::AgentStarted(Ok(AgentStart::Initializing)), Ok(77)).unwrap();
    let c = board.card(&id).unwrap();
    assert_eq!((c.pane_id.as_deref(), c.agent_name.as_deref(), c.updated_at), (Some("p-new"), Some("copilot"), 77));
    assert!(matches!(d.step, DispatchStep::Finished { .. }));
}

#[test]
fn a_dispatch_ends_within_five_events() {
    let mut board = board_with_columns();
    board.columns[0].dispatch.as_mut().unwrap().pre_command = Some("cd repo".into());
    let id = board.add_card("x".into(), "plain");
    let mut d = move_card_dispatch(&mut board, &id, "dispatch").unwrap();
    let mut events = 0;
    while !matches!(d.step, DispatchStep::Finished { .. }) {
        let event = match &d.step {
            DispatchStep::ListPanes => DispatchEvent::PanesListed(Ok(vec![])),
            DispatchStep::SplitPane { .. } | DispatchStep::CreateTab => DispatchEvent::PaneOpened(Ok(pane("p-new"))),
            DispatchStep::RunInPane { .. } => DispatchEvent::CommandRan(Ok(())),
            DispatchStep::StartAgent { .. } => DispatchEvent::AgentStarted(Ok(AgentStart::Ready)),
            DispatchStep::Prompt { .. } => DispatchEvent::Prompted(Ok(())),
            DispatchStep::Finished { .. } => unreachable!(),
        };
        d.advance(&mut board, event).unwrap();
        events += 1;
    }
    assert_eq!(events, 5);
    let c = board.card(&id).unwrap();
    assert_eq!((c.column.as_str(), c.order), ("dispatch", 0));
}
