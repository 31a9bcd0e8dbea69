use windows_board::herdr::{
    classify_agent_start, failure_message, focus_failure_message, focus_next, AgentStart, FocusStep, HerdrCall,
};

fn args(call: HerdrCall) -> Vec<String> {
    call.args()
}

#[test]
fn list_panes_scoped_to_workspace() {
    assert_eq!(args(HerdrCall::ListPanes { workspace: Some("w1".into()) }), vec!["pane", "list", "--workspace", "w1"]);
    assert_eq!(args(HerdrCall::ListPanes { workspace: None }), vec!["pane", "list"]);
}

#[test]
fn split_pane_via_fake_binary() {
    assert_eq!(
        args(HerdrCall::SplitPane { source: None, direction: "down".into() }),
        vec!["pane", "split", "--direction", "down", "--no-focus"]
    );
    assert_eq!(
        args(HerdrCall::SplitPane { source: Some("p1".into()), direction: "right".into() }),
        vec!["pane", "split", "p1", "--direction", "right", "--no-focus"]
    );
}

#[test]
fn agent_start_ready_via_fake_binary() {
    assert_eq!(classify_agent_start("a", "copilot", "p1", true, Some(0), "").unwrap(), AgentStart::Ready);
}

#[test]
fn agent_start_initializing_when_agent_not_ready() {
    assert_eq!(
        classify_agent_start("a", "copilot", "p1", false, Some(1), "agent_not_ready: still booting\n").unwrap(),
        AgentStart::Initializing
    );
}

#[test]
fn agent_start_error_surfaces_stderr() {
    let msg = classify_agent_start("a", "bogus", "p1", false, Some(1), "boom: unknown kind\n").unwrap_err();
    assert!(msg.contains("boom"), "unexpected error: {msg}");
    assert!(msg.contains("exited with code 1"), "unexpected error: {msg}");
    assert_eq!(msg, "herdr agent start a --kind bogus --pane p1 exited with code 1 (stderr: boom: unknown kind)");
}

#[test]
fn agent_prompt_forwards_target_and_text() {
    let a = args(HerdrCall::AgentPrompt { target: "p1".into(), text: "do the thing".into() }).join(" ");
    assert!(a.contains("agent prompt"), "args: {a}");
    assert!(a.contains("p1"), "args: {a}");
    assert!(a.contains("do the thing"), "args: {a}");
}

#[test]
fn focus_pane_errors_when_both_surfaces_fail() {
    let agent_err = failure_message(&args(HerdrCall::AgentFocus { pane_id: "p1".into() }), Some(1), "no agent in pane\n");
    let plugin_err = failure_message(&args(HerdrCall::PluginPaneFocus { pane_id: "p1".into() }), Some(1), "");
    let msg = focus_failure_message("p1", &agent_err, &plugin_err);
    assert!(msg.contains("could not focus pane"), "unexpected error: {msg}");
    assert_eq!(
        msg,
        "could not focus pane \"p1\" (agent focus: herdr agent focus p1 exited with code 1 (stderr: no agent in pane); \
         plugin pane focus: herdr plugin pane focus p1 exited with code 1 (no stderr output))"
    );
}

#[test]
fn list_panes_error_surfaces_failure() {
    let msg = failure_message(&args(HerdrCall::ListPanes { workspace: None }), Some(1), "server unreachable\n");
    assert!(msg.contains("server unreachable"), "unexpected error: {msg}");
}

// ---------------------------------------------------------------------------
// Further cases
// ---------------------------------------------------------------------------

#[test]
fn every_call_has_its_arguments() {
    assert_eq!(args(HerdrCall::ListWorkspaces), vec!["workspace", "list"]);
    assert_eq!(args(HerdrCall::ListTabs { workspace: Some("w2".into()) }), vec!["tab", "list", "--workspace", "w2"]);
    assert_eq!(args(HerdrCall::ListAgents), vec!["agent", "list"]);
    assert_eq!(args(HerdrCall::CurrentPane), vec!["pane", "current"]);
    assert_eq!(args(HerdrCall::ClosePane { pane_id: "p".into() }), vec!["pane", "close", "p"]);
    assert_eq!(
        args(HerdrCall::OpenPluginPane {
            plugin: "local.windows-board".into(),
            entrypoint: "board".into(),
            placement: "overlay".into(),
        }),
        vec!["plugin", "pane", "open", "--plugin", "local.windows-board", "--entrypoint", "board", "--placement", "overlay", "--focus"]
    );
    assert_eq!(
        args(HerdrCall::AgentStart { name: "codex".into(), kind: "codex".into(), pane_id: "p".into() }),
        vec!["agent", "start", "codex", "--kind", "codex", "--pane", "p"]
    );
    assert_eq!(args(HerdrCall::RunInPane { pane_id: "p".into(), command: "ls".into() }), vec!["pane", "run", "p", "ls"]);
    assert_eq!(args(HerdrCall::CreateTab), vec!["tab", "create"]);
}

#[test]
fn failure_message_forms() {
    let a = args(HerdrCall::ListAgents);
    assert_eq!(failure_message(&a, None, "  "), "herdr agent list exited with code terminated by signal (no stderr output)");
    assert_eq!(failure_message(&a, Some(-3), " oops\n"), "herdr agent list exited with code -3 (stderr: oops)");
}

#[test]
fn focus_pane_prefers_agent_focus() {
    assert_eq!(focus_next("p1", &Ok(()), &None), FocusStep::Focused);
}

#[test]
fn focus_pane_falls_back_to_plugin_pane() {
    let agent: Result<(), String> = Err("agent focus failed".into());
    assert_eq!(focus_next("p1", &agent, &None), FocusStep::TryPluginPane);
    assert_eq!(focus_next("p1", &agent, &Some(Ok(()))), FocusStep::Focused);
}

#[test]
fn focus_reports_both_failures() {
    let agent: Result<(), String> = Err("a-err".into());
    let plugin: Option<Result<(), String>> = Some(Err("p-err".into()));
    assert_eq!(
        focus_next("p1", &agent, &plugin),
        FocusStep::Failed { message: "could not focus pane \"p1\" (agent focus: a-err; plugin pane focus: p-err)".into() }
    );
}
