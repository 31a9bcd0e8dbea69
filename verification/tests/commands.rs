use windows_board::commands::{
    add_card_at, add_card_with, board_open_action, board_title_matches, card_list_lines, ensure_pane_live, focus_target,
    open, pane_is_live, refresh_links, resolve_from_pane, BoardOpen, OpenRequest,
};
use windows_board::error::BoardError;
use windows_board::herdr::{Agent, Pane};
use windows_board::state::{BoardState, Card};

fn pane(id: &str) -> Pane {
    Pane {
        pane_id: id.to_string(),
        workspace_id: "w1".to_string(),
        tab_id: "t1".to_string(),
        terminal_id: None,
        terminal_title: None,
        terminal_title_stripped: None,
        cwd: None,
        agent_status: None,
        focused: false,
        revision: 0,
        scroll: None,
        agent: None,
        agent_session: None,
    }
}

fn agent(name: &str) -> Agent {
    Agent {
        agent: name.to_string(),
        agent_session: None,
        agent_status: None,
        cwd: None,
        focused: false,
        pane_id: None,
        revision: 0,
        state_change_seq: None,
        tab_id: None,
        terminal_id: None,
        terminal_title: None,
        terminal_title_stripped: None,
        workspace_id: "w1".to_string(),
    }
}

fn card(id: &str, column: &str, order: i64, pane_id: Option<&str>, agent_name: Option<&str>) -> Card {
    Card {
        id: id.to_string(),
        title: format!("T{id}"),
        column: column.to_string(),
        order,
        pane_id: pane_id.map(|p| p.to_string()),
        agent_name: agent_name.map(|a| a.to_string()),
        target_agent: None,
        pre_command: None,
        description: String::new(),
        created_at: 1,
        updated_at: 2,
    }
}

#[test]
fn open_with_target_goes_to_shell() {
    match open(Some("https://example.com".into())) {
        OpenRequest::InShell { target } => assert_eq!(target, "https://example.com"),
        other => panic!("unexpected {other:?}"),
    }
    assert!(matches!(open(None), OpenRequest::Board));
}

#[test]
fn board_title_is_recognised_plain_or_stripped() {
    let mut p = pane("p1");
    assert!(!board_title_matches(&p));
    p.terminal_title_stripped = Some("Windows Board".into());
    assert!(board_title_matches(&p));
    p.terminal_title_stripped = Some("Windows board".into());
    p.terminal_title = Some("Windows Board".into());
    assert!(board_title_matches(&p));
}

#[test]
fn summoning_the_board_toggles_its_pane() {
    assert!(matches!(board_open_action(Err("unreachable".into())), BoardOpen::RunInProcess));
    assert!(matches!(board_open_action(Ok(vec![pane("a"), pane("b")])), BoardOpen::Open));

    let mut b = pane("b");
    b.terminal_title = Some("Windows Board".into());
    let mut c = pane("c");
    c.terminal_title = Some("Windows Board".into());
    c.focused = true;
    match board_open_action(Ok(vec![pane("a"), b, c])) {
        BoardOpen::Focus { pane_id } => assert_eq!(pane_id, "b"),
        other => panic!("unexpected {other:?}"),
    }

    let mut f = pane("f");
    f.terminal_title = Some("Windows Board".into());
    f.focused = true;
    match board_open_action(Ok(vec![f])) {
        BoardOpen::Close { pane_id } => assert_eq!(pane_id, "f"),
        other => panic!("unexpected {other:?}"),
    }
}

#[test]
fn add_card_with_links_and_appends() {
    let mut board = BoardState::default();
    board.cards.push(card("x", "todo", 4, None, None));
    let id = add_card_with(
        &mut board,
        "deploy".into(),
        "todo",
        Some("p1".into()),
        Some("copilot".into()),
        Some("codex".into()),
        Some("cd repo".into()),
    )
    .unwrap();
    assert!(id.starts_with("card-"));
    assert_eq!(board.cards.len(), 2);
    let c = &board.cards[1];
    assert_eq!(c.id, id);
    assert_eq!(c.title, "deploy");
    assert_eq!(c.column, "todo");
    assert_eq!(c.order, 5);
    assert_eq!(c.pane_id.as_deref(), Some("p1"));
    assert_eq!(c.agent_name.as_deref(), Some("copilot"));
    assert_eq!(c.target_agent.as_deref(), Some("codex"));
    assert_eq!(c.pre_command.as_deref(), Some("cd repo"));
    assert_eq!(c.description, "");
    assert_eq!(c.created_at, c.updated_at);
}

#[test]
fn resolve_from_pane_prefers_explicit_title() {
    let mut p = pane("p7");
    p.cwd = Some("C:\\work".into());
    p.agent = Some("copilot".into());
    let (title, pane_id, agent) = resolve_from_pane(None, Some(p)).unwrap();
    assert_eq!(title, "C:\\work");
    assert_eq!(pane_id.as_deref(), Some("p7"));
    assert_eq!(agent.as_deref(), Some("copilot"));

    let mut q = pane("p8");
    q.terminal_title = Some("shell".into());
    q.terminal_title_stripped = Some("stripped".into());
    let (title, _, agent) = resolve_from_pane(Some("explicit".into()), Some(q)).unwrap();
    assert_eq!(title, "explicit");
    assert_eq!(agent, None);

    let (title, _, _) = resolve_from_pane(None, Some(pane("bare"))).unwrap();
    assert_eq!(title, "bare");

    let (title, pane_id, agent) = resolve_from_pane(Some("solo".into()), None).unwrap();
    assert_eq!((title.as_str(), pane_id, agent), ("solo", None, None));

    let err = resolve_from_pane(None, None).unwrap_err();
    assert!(matches!(err, BoardError::NoTitle));
    assert!(err.message().contains("no title given"));
}

#[test]
fn focus_target_needs_card_and_link() {
    let mut board = BoardState::default();
    board.cards.push(card("a", "todo", 0, Some("p1"), None));
    board.cards.push(card("b", "todo", 1, None, None));
    assert_eq!(focus_target(&board, "a").unwrap(), "p1");
    let e = focus_target(&board, "b").unwrap_err();
    assert_eq!(e.message(), "card \"b\" has no linked pane");
    let e = focus_target(&board, "zz").unwrap_err();
    assert_eq!(e.message(), "card \"zz\" not found");
}

#[test]
fn linked_pane_must_be_live() {
    let panes = vec![pane("p1"), pane("p2")];
    assert!(pane_is_live(&panes, "p2"));
    assert!(!pane_is_live(&panes, "p3"));
    assert!(ensure_pane_live(&panes, "p1", "a").is_ok());
    let e = ensure_pane_live(&panes, "p9", "a").unwrap_err();
    assert_eq!(e.message(), "linked pane \"p9\" for card \"a\" no longer exists");
}

#[test]
fn refresh_clears_dead_links_and_gone_agents() {
    let mut board = BoardState::default();
    board.cards.push(card("live", "todo", 0, Some("p1"), Some("copilot")));
    board.cards.push(card("dead", "todo", 1, Some("p-gone"), Some("copilot")));
    board.cards.push(card("noagent", "todo", 2, Some("p2"), Some("codex")));
    board.cards.push(card("plain", "todo", 3, None, None));
    board.cards.push(card("orphan-agent", "todo", 4, None, Some("codex")));
    let changed = refresh_links(&mut board, &vec![pane("p1"), pane("p2")], &vec![agent("copilot")]);
    assert_eq!(changed, vec!["dead", "noagent", "orphan-agent"]);
    assert_eq!(board.cards[0].pane_id.as_deref(), Some("p1"));
    assert_eq!(board.cards[0].agent_name.as_deref(), Some("copilot"));
    assert_eq!(board.cards[1].pane_id, None);
    assert_eq!(board.cards[1].agent_name, None);
    assert_eq!(board.cards[2].pane_id.as_deref(), Some("p2"));
    assert_eq!(board.cards[2].agent_name, None);
    assert_eq!(board.cards[4].agent_name, None);
    // A second refresh finds nothing more to change.
    let again = refresh_links(&mut board, &vec![pane("p1"), pane("p2")], &vec![agent("copilot")]);
    assert!(again.is_empty());
}

#[test]
fn card_list_sorts_and_formats() {
    let mut board = BoardState::default();
    assert_eq!(card_list_lines(&mut board), vec!["no cards"]);
    board.cards.push(card("b", "todo", 2, None, None));
    board.cards.push(card("a", "doing", -1, None, None));
    board.cards.push(card("c", "todo", 1, None, None));
    let lines = card_list_lines(&mut board);
    assert_eq!(lines, vec!["[doing] #-1 a (Ta)", "[todo] #1 c (Tc)", "[todo] #2 b (Tb)"]);
}

#[test]
fn add_card_at_fails_exactly_without_a_reading() {
    let mut board = BoardState::default();
    board.cards.push(card("x", "todo", 4, None, None));
    let cause = "second time provided was later than self".to_string();
    let err = add_card_at(&mut board, "t".into(), "todo", None, None, None, None, Err(cause)).unwrap_err();
    assert!(matches!(err, BoardError::ClockBeforeEpoch { .. }));
    assert_eq!(err.message(), "system clock before unix epoch: second time provided was later than self");
    assert_eq!(board.cards.len(), 1);

    let id = add_card_at(&mut board, "t".into(), "todo", Some("p".into()), None, None, None, Ok((3, 1))).unwrap();
    assert_eq!(id, "card-b2d05e01");
    let c = &board.cards[1];
    assert_eq!((c.created_at, c.updated_at, c.order), (3, 3, 5));
    assert_eq!(c.pane_id.as_deref(), Some("p"));
}
