use windows_board::tui::{column_has_room, key_has_room};
use windows_board::dispatch::DispatchStep;
use windows_board::state::{BoardState, Card};
use windows_board::tui::{rect_contains, Action, App, Effect, Hitmap, Key, KeyInput, Mode, MouseInput, Rect};

fn rect(x: u16, y: u16, w: u16, h: u16) -> Rect {
    Rect { x, y, width: w, height: h }
}

#[test]
fn rect_contains_covers_edges_and_bounds() {
    let r = rect(2, 3, 4, 5); // x in [2,6), y in [3,8)
    assert!(rect_contains(r, 2, 3));
    assert!(rect_contains(r, 5, 7));
    assert!(!rect_contains(r, 6, 3)); // right edge exclusive
    assert!(!rect_contains(r, 2, 8)); // bottom edge exclusive
    assert!(!rect_contains(r, 1, 3));
    assert!(!rect_contains(r, 2, 2));
}

fn press(key: Key) -> KeyInput {
    KeyInput { key, press: true, shift: false, control: false, other_modifiers: false }
}

fn card(id: &str, column: &str, order: i64) -> Card {
    Card {
        id: id.into(),
        title: format!("T{id}"),
        column: column.into(),
        order,
        pane_id: None,
        agent_name: None,
        target_agent: None,
        pre_command: None,
        description: String::new(),
        created_at: 1,
        updated_at: 1,
    }
}

fn app_with_cards() -> App {
    let mut board = BoardState::default();
    board.cards = vec![card("b", "todo", 1), card("a", "todo", 0), card("c", "doing", 0)];
    App::new(board)
}

#[test]
fn new_app_focuses_first_column_and_card() {
    let app = app_with_cards();
    assert_eq!(app.focused_column, "todo");
    assert_eq!(app.selected_card.as_deref(), Some("a"));
    assert_eq!(app.mode, Mode::Normal);
}

#[test]
fn selection_wraps_around() {
    let mut app = app_with_cards();
    app.on_key(press(Key::Char('j')));
    assert_eq!(app.selected_card.as_deref(), Some("b"));
    app.on_key(press(Key::Down));
    assert_eq!(app.selected_card.as_deref(), Some("a"));
    app.on_key(press(Key::Up));
    assert_eq!(app.selected_card.as_deref(), Some("b"));
    app.selected_card = None;
    app.on_key(press(Key::Char('k')));
    assert_eq!(app.selected_card.as_deref(), Some("b"));
}

#[test]
fn tab_moves_focus_between_columns() {
    let mut app = app_with_cards();
    app.on_key(press(Key::Tab));
    assert_eq!(app.focused_column, "doing");
    assert_eq!(app.selected_card.as_deref(), Some("c"));
    let mut back = press(Key::Tab);
    back.shift = true;
    app.on_key(back);
    assert_eq!(app.focused_column, "todo");
    assert_eq!(app.selected_card.as_deref(), Some("a"));
    app.on_key(back);
    assert_eq!(app.focused_column, "todo");
}

#[test]
fn typing_a_new_card_title() {
    let mut app = app_with_cards();
    app.on_key(press(Key::Char('n')));
    assert_eq!(app.mode, Mode::NewCard);
    for c in " Hi!".chars() {
        app.on_key(press(Key::Char(c)));
    }
    app.on_key(press(Key::Char('x')));
    app.on_key(press(Key::Backspace));
    let effect = app.on_key(press(Key::Enter));
    assert!(matches!(effect, Effect::Persist { report_failure: true }));
    assert_eq!(app.mode, Mode::Normal);
    assert_eq!(app.input, "");
    let id = app.selected_card.clone().unwrap();
    let c = app.board.card(&id).unwrap();
    assert_eq!(c.title, "Hi!");
    assert_eq!(c.column, "todo");
    assert_eq!(c.order, 2);
}

#[test]
fn blank_title_and_escape_do_nothing() {
    let mut app = app_with_cards();
    app.on_key(press(Key::Char('n')));
    app.on_key(press(Key::Char(' ')));
    assert!(matches!(app.on_key(press(Key::Enter)), Effect::Nothing));
    assert_eq!(app.board.cards.len(), 3);
    app.on_key(press(Key::Char('e')));
    assert_eq!(app.input, "Ta");
    let mut ctrl_h = press(Key::Char('h'));
    ctrl_h.control = true;
    app.on_key(ctrl_h);
    assert_eq!(app.input, "T");
    app.on_key(press(Key::Esc));
    assert_eq!(app.mode, Mode::Normal);
    assert_eq!(app.board.card("a").unwrap().title, "Ta");
}

#[test]
fn editing_renames_selected_card() {
    let mut app = app_with_cards();
    app.on_key(press(Key::Char('e')));
    app.on_key(press(Key::Backspace));
    app.on_key(press(Key::Char('Z')));
    app.on_key(press(Key::Enter));
    assert_eq!(app.board.card("a").unwrap().title, "TZ");
}

#[test]
fn archive_and_focus_need_a_selection() {
    let mut app = app_with_cards();
    assert!(matches!(app.on_key(press(Key::Char('d'))), Effect::Persist { .. }));
    assert!(app.board.card("a").is_none());
    assert_eq!(app.selected_card, None);
    assert!(matches!(app.on_key(press(Key::Delete)), Effect::Nothing));
    assert_eq!(app.status.as_deref(), Some("no card selected"));
    app.selected_card = Some("b".into());
    app.on_key(press(Key::Char('f')));
    assert_eq!(app.status.as_deref(), Some("card \"Tb\" has no linked pane"));
    app.board.card_mut("b").unwrap().pane_id = Some("p7".into());
    match app.on_key(press(Key::Enter)) {
        Effect::Focus { pane_id } => assert_eq!(pane_id, "p7"),
        other => panic!("unexpected effect {other:?}"),
    }
}

#[test]
fn moving_selected_card_right_and_at_edge() {
    let mut app = app_with_cards();
    // todo -> doing is dispatch-enabled in the default board, so Herdr is asked.
    match app.on_key(press(Key::Char('l'))) {
        Effect::Move { dispatch, card_id, column } => {
            assert_eq!(card_id, "a");
            assert_eq!(column, "doing");
            assert!(matches!(dispatch.step, DispatchStep::ListPanes));
            let effect = app.finish_move(card_id, column, Ok("moved a to 'doing'".into()));
            assert!(matches!(effect, Effect::Persist { report_failure: false }));
        },
        other => panic!("unexpected effect {other:?}"),
    }
    assert_eq!(app.focused_column, "doing");
    assert_eq!(app.board.card("a").unwrap().column, "doing");
    // doing -> done is a plain move, finished at once.
    assert!(matches!(app.on_key(press(Key::Right)), Effect::Persist { report_failure: false }));
    assert_eq!(app.focused_column, "done");
    assert_eq!(app.status.as_deref(), Some("moved a to 'done'"));
    assert!(matches!(app.on_key(press(Key::Char('l'))), Effect::Nothing));
    assert_eq!(app.status.as_deref(), Some("card is already at the edge"));
}

#[test]
fn q_quits_and_releases_are_ignored() {
    let mut app = app_with_cards();
    let mut release = press(Key::Char('q'));
    release.press = false;
    app.on_key(release);
    assert!(!app.quit);
    app.on_key(press(Key::Char('q')));
    assert!(app.quit);
}

#[test]
fn clicks_hit_buttons_cards_and_columns() {
    let mut app = app_with_cards();
    let hitmap = Hitmap {
        buttons: vec![(Action::NewCard, rect(0, 0, 10, 1))],
        cards: vec![("c".into(), rect(0, 5, 10, 3))],
        columns: vec![("done".into(), rect(20, 0, 10, 20)), ("doing".into(), rect(0, 0, 40, 40))],
    };
    let click = |x, y| MouseInput { left_down: true, column: x, row: y };
    app.on_mouse(click(5, 6), &hitmap);
    assert_eq!(app.selected_card.as_deref(), Some("c"));
    assert_eq!(app.focused_column, "doing");
    app.on_mouse(click(25, 10), &hitmap);
    assert_eq!(app.focused_column, "done");
    assert_eq!(app.selected_card, None);
    app.on_mouse(MouseInput { left_down: false, column: 1, row: 0 }, &hitmap);
    assert_eq!(app.mode, Mode::Normal);
    app.on_mouse(click(1, 0), &hitmap);
    assert_eq!(app.mode, Mode::NewCard);
}

#[test]
fn action_labels() {
    assert_eq!(Action::NewCard.label(), " n New ");
    assert_eq!(Action::MoveLeft.label(), " h \u{2190} ");
    assert_eq!(Action::FocusPane.label(), " f Focus ");
}

fn same_app(a: &App, b: &App) -> bool {
    a.board == b.board
        && a.selected_card == b.selected_card
        && a.focused_column == b.focused_column
        && a.mode == b.mode
        && a.input == b.input
        && a.status == b.status
        && a.quit == b.quit
}

#[test]
fn every_button_has_a_key() {
    let keys = [
        (Action::NewCard, 'n'),
        (Action::MoveLeft, 'h'),
        (Action::MoveRight, 'l'),
        (Action::Edit, 'e'),
        (Action::Archive, 'd'),
        (Action::FocusPane, 'f'),
    ];
    for (action, c) in keys {
        let mut by_key = app_with_cards();
        let mut by_button = app_with_cards();
        let e1 = by_key.on_key(press(Key::Char(c)));
        let e2 = by_button.run_action(action);
        // A move stamps the card with the current time; the two runs may
        // straddle a second.
        for app in [&mut by_key, &mut by_button] {
            for card in app.board.cards.iter_mut() {
                card.updated_at = 0;
            }
        }
        assert!(same_app(&by_key, &by_button), "{action:?}");
        assert_eq!(format!("{e1:?}"), format!("{e2:?}"), "{action:?}");
    }
}

#[test]
fn editor_and_selection_work_on_a_board_at_the_position_limit() {
    let mut board = BoardState::default();
    board.cards = vec![card("a", "todo", i64::MAX), card("c", "doing", 0)];
    let mut app = App::new(board);
    assert!(!column_has_room(&app.board, "todo"));
    assert!(column_has_room(&app.board, "doing"));
    for key in [Key::Char('j'), Key::Char('q'), Key::Tab, Key::Char('e')] {
        assert!(key_has_room(&app, press(key)));
    }
    // Moving "c" left into the full column would overflow; moving "a" right would not.
    app.on_key(press(Key::Char('e')));
    assert_eq!(app.mode, Mode::EditCard);
    for k in [Key::Char('!'), Key::Backspace, Key::Enter] {
        assert!(key_has_room(&app, press(k)));
        app.on_key(press(k));
    }
    assert_eq!(app.board.card("a").unwrap().title, "Ta");
    assert!(key_has_room(&app, press(Key::Char('l'))));
    app.selected_card = Some("c".into());
    assert!(!key_has_room(&app, press(Key::Char('h'))));
    app.on_key(press(Key::Char('n')));
    app.on_key(press(Key::Char('x')));
    assert!(!key_has_room(&app, press(Key::Enter)));
    app.focused_column = "doing".into();
    assert!(key_has_room(&app, press(Key::Enter)));
}
