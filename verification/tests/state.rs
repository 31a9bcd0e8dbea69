use windows_board::state::card_id_at;
use windows_board::persist::{load, save};
use windows_board::state::{default_columns, next_id, BoardState, Card, Column, DispatchConfig};

fn card(id: &str, column: &str, order: i64) -> Card {
    Card {
        id: id.to_string(),
        title: format!("Card {id}"),
        column: column.to_string(),
        order,
        pane_id: Some(format!("pane-{id}")),
        agent_name: Some("agent".to_string()),
        target_agent: None,
        pre_command: None,
        description: String::new(),
        created_at: 1000,
        updated_at: 2000,
    }
}

#[test]
fn load_missing_returns_default_board() {
    let board = load(None);
    assert_eq!(board.revision, 0);
    assert_eq!(board.columns, default_columns());
    assert!(board.cards.is_empty());
}

#[test]
fn overwrites_existing_file_via_rename() {
    let mut board = BoardState::default();
    let on_disk = save(&mut board, 0).unwrap(); // revision 0 -> 1
    assert_eq!(on_disk, 1);
    board.cards.push(card("1", "todo", 0));
    let revision = save(&mut board, on_disk).unwrap(); // 1 -> 2
    assert_eq!(revision, 2);
    assert_eq!(board.revision, 2);
    assert_eq!(board.cards.len(), 1);
}

#[test]
fn rejects_stale_revision() {
    let mut board = BoardState::default();
    let on_disk = save(&mut board, 0).unwrap(); // advances disk to 1

    // A concurrent writer that still holds the old snapshot.
    let mut stale = BoardState { revision: 0, cards: vec![card("1", "todo", 0)], columns: default_columns() };
    let err = save(&mut stale, on_disk).unwrap_err();
    assert!(err.message().contains("concurrent modification"));
    assert_eq!(stale.revision, 0);
}

#[test]
fn revision_is_monotonic_across_saves() {
    let mut board = BoardState::default();
    let mut prev = 0;
    let mut on_disk = 0;
    for expected in 1..=5 {
        let revision = save(&mut board, on_disk).unwrap();
        assert_eq!(revision, expected);
        assert!(revision > prev);
        prev = revision;
        on_disk = revision;
    }
    assert_eq!(board.revision, 5);
}

#[test]
fn ordering_sorts_cards_and_columns() {
    let mut board = BoardState::default();
    board.cards = vec![card("b", "todo", 1), card("a", "todo", 0), card("c", "doing", 0)];
    board.columns = vec![
        Column { slug: "done".into(), title: "Done".into(), dispatch_enabled: false, dispatch: None, order: 2 },
        Column { slug: "todo".into(), title: "To Do".into(), dispatch_enabled: true, dispatch: None, order: 0 },
    ];

    board.sort_cards();
    let ids: Vec<&str> = board.cards.iter().map(|c| c.id.as_str()).collect();
    assert_eq!(ids, vec!["c", "a", "b"]);

    board.sort_columns();
    let slugs: Vec<&str> = board.columns.iter().map(|c| c.slug.as_str()).collect();
    assert_eq!(slugs, vec!["todo", "done"]);
}

#[test]
fn next_order_in_column_appends() {
    let mut board = BoardState::default();
    assert_eq!(board.next_order_in_column("todo"), 0);
    board.cards = vec![card("a", "todo", 0), card("b", "todo", 4), card("c", "doing", 0)];
    assert_eq!(board.next_order_in_column("todo"), 5);
    assert_eq!(board.next_order_in_column("doing"), 1);
}

#[test]
fn add_card_appends_to_column_order() {
    let mut board = BoardState::default();
    let first = board.add_card("first".into(), "todo");
    let second = board.add_card("second".into(), "todo");
    assert_ne!(first, second);
    assert_eq!(board.cards.len(), 2);
    assert_eq!(board.card(&first).unwrap().order, 0);
    assert_eq!(board.card(&second).unwrap().order, 1);
    assert_eq!(board.card(&second).unwrap().column, "todo");
}

#[test]
fn move_card_changes_column_and_timestamp() {
    let mut board = BoardState::default();
    let id = board.add_card("one".into(), "todo");
    board.move_card(&id, "doing").unwrap();
    let card = board.card(&id).unwrap();
    assert_eq!(card.column, "doing");
    assert!(card.updated_at >= card.created_at);
}

#[test]
fn move_card_missing_returns_error() {
    let mut board = BoardState::default();
    assert!(board.move_card("nope", "todo").is_err());
}

#[test]
fn remove_card_reports_presence() {
    let mut board = BoardState::default();
    let id = board.add_card("x".into(), "todo");
    assert!(board.remove_card(&id));
    assert!(!board.remove_card(&id));
}

#[test]
fn set_card_title_updates_timestamp() {
    let mut board = BoardState::default();
    let id = board.add_card("old".into(), "todo");
    assert!(board.set_card_title(&id, "new".into()));
    assert_eq!(board.card(&id).unwrap().title, "new");
    assert!(!board.set_card_title("missing", "x".into()));
}

#[test]
fn adjacent_column_matches_board_order() {
    let board = BoardState::default(); // todo, doing, done
    assert_eq!(board.adjacent_column("todo", -1), None);
    assert_eq!(board.adjacent_column("todo", 1).as_deref(), Some("doing"));
    assert_eq!(board.adjacent_column("doing", 1).as_deref(), Some("done"));
    assert_eq!(board.adjacent_column("done", 1), None);
    assert_eq!(board.adjacent_column("done", -1).as_deref(), Some("doing"));
}

#[test]
fn next_id_is_unique() {
    let mut seen = std::collections::HashSet::new();
    for _ in 0..1000 {
        assert!(seen.insert(next_id()), "next_id produced a duplicate");
    }
}

#[test]
fn move_card_to_nonexistent_column_places_card_by_slug() {
    let mut board = BoardState::default();
    let id = board.add_card("one".into(), "todo");
    board.move_card(&id, "does-not-exist").unwrap();
    let card = board.card(&id).unwrap();
    assert_eq!(card.column, "does-not-exist");
    assert_eq!(
        board.cards_in_column("does-not-exist").iter().map(|c| c.id.as_str()).collect::<Vec<_>>(),
        vec![id.as_str()]
    );
}

#[test]
fn column_ordering_tiebreak_uses_slug() {
    let mut board = BoardState::default();
    board.columns = vec![
        Column { slug: "zeta".into(), title: "Zeta".into(), dispatch_enabled: false, dispatch: None, order: 0 },
        Column { slug: "alpha".into(), title: "Alpha".into(), dispatch_enabled: false, dispatch: None, order: 0 },
    ];
    let slugs: Vec<&str> = board.ordered_columns().iter().map(|c| c.slug.as_str()).collect();
    assert_eq!(slugs, vec!["alpha", "zeta"]);
}

#[test]
fn card_ordering_tiebreak_uses_id() {
    let mut board = BoardState::default();
    board.cards = vec![card("z-card", "todo", 3), card("a-card", "todo", 3)];
    let ids: Vec<&str> = board.cards_in_column("todo").iter().map(|c| c.id.as_str()).collect();
    assert_eq!(ids, vec!["a-card", "z-card"]);

    board.sort_cards();
    let ids: Vec<&str> = board.cards.iter().map(|c| c.id.as_str()).collect();
    assert_eq!(ids, vec!["a-card", "z-card"]);
}

// ---------------------------------------------------------------------------
// Further cases
// ---------------------------------------------------------------------------

#[test]
fn default_board_has_three_columns_with_dispatch() {
    let columns = default_columns();
    let slugs: Vec<&str> = columns.iter().map(|c| c.slug.as_str()).collect();
    assert_eq!(slugs, vec!["todo", "doing", "done"]);
    assert_eq!(
        columns[0].dispatch,
        Some(DispatchConfig { agent: "copilot".into(), prompt: None, split_direction: None, pre_command: None })
    );
    assert_eq!(columns[1].dispatch.as_ref().unwrap().agent, "codex");
    assert!(!columns[2].dispatch_enabled);
    assert_eq!(columns[2].dispatch, None);
}

#[test]
fn next_order_with_negative_positions() {
    let mut board = BoardState::default();
    board.cards = vec![card("a", "todo", -5), card("b", "todo", -7)];
    assert_eq!(board.next_order_in_column("todo"), -4);
}

#[test]
fn next_id_has_card_prefix_and_hex_digits() {
    let id = next_id();
    assert!(id.starts_with("card-"));
    assert!(id["card-".len()..].chars().all(|c| c.is_ascii_hexdigit() && !c.is_ascii_uppercase()));
}

#[test]
fn move_card_within_same_column_goes_last() {
    let mut board = BoardState::default();
    let a = board.add_card("a".into(), "todo");
    let _b = board.add_card("b".into(), "todo");
    board.move_card(&a, "todo").unwrap();
    assert_eq!(board.card(&a).unwrap().order, 2);
    let ids: Vec<String> = board.cards_in_column("todo").iter().map(|c| c.title.clone()).collect();
    assert_eq!(ids, vec!["b".to_string(), "a".to_string()]);
}

#[test]
fn move_card_missing_reports_quoted_id() {
    let mut board = BoardState::default();
    let err = board.move_card("no\"pe", "todo").unwrap_err();
    assert_eq!(err.message(), "card \"no\\\"pe\" not found");
}

#[test]
fn card_and_card_mut_find_first_match() {
    let mut board = BoardState::default();
    board.cards = vec![card("x", "todo", 0), card("x", "doing", 1)];
    assert_eq!(board.card("x").unwrap().column, "todo");
    board.card_mut("x").unwrap().title = "changed".into();
    assert_eq!(board.cards[0].title, "changed");
    assert_eq!(board.cards[1].title, "Card x");
    assert!(board.card("y").is_none());
}

#[test]
fn remove_card_removes_every_duplicate() {
    let mut board = BoardState::default();
    board.cards = vec![card("x", "todo", 0), card("y", "todo", 1), card("x", "doing", 1)];
    assert!(board.remove_card("x"));
    let ids: Vec<&str> = board.cards.iter().map(|c| c.id.as_str()).collect();
    assert_eq!(ids, vec!["y"]);
}

#[test]
fn sort_cards_is_idempotent_and_keeps_cards() {
    let mut board = BoardState::default();
    board.cards = vec![card("2", "b", 1), card("1", "a", 9), card("3", "b", 0), card("0", "a", 9)];
    board.sort_cards();
    let once: Vec<String> = board.cards.iter().map(|c| c.id.clone()).collect();
    assert_eq!(once, vec!["0", "1", "3", "2"]);
    board.sort_cards();
    let twice: Vec<String> = board.cards.iter().map(|c| c.id.clone()).collect();
    assert_eq!(once, twice);
}

#[test]
fn sort_columns_is_stable_for_equal_positions() {
    let mut board = BoardState::default();
    board.columns = vec![
        Column { slug: "zeta".into(), title: "Z".into(), dispatch_enabled: false, dispatch: None, order: 1 },
        Column { slug: "beta".into(), title: "B".into(), dispatch_enabled: false, dispatch: None, order: 0 },
        Column { slug: "alpha".into(), title: "A".into(), dispatch_enabled: false, dispatch: None, order: 1 },
    ];
    board.sort_columns();
    let slugs: Vec<&str> = board.columns.iter().map(|c| c.slug.as_str()).collect();
    assert_eq!(slugs, vec!["beta", "zeta", "alpha"]);
}

#[test]
fn adjacent_column_round_trip_and_unknown_slug() {
    let board = BoardState::default();
    let right = board.adjacent_column("todo", 1).unwrap();
    assert_eq!(board.adjacent_column(&right, -1).as_deref(), Some("todo"));
    assert_eq!(board.adjacent_column("nowhere", 1), None);
    assert_eq!(board.adjacent_column("todo", 2).as_deref(), Some("done"));
    assert_eq!(board.adjacent_column("todo", i64::MIN), None);
}

#[test]
fn strings_order_by_code_point() {
    let mut board = BoardState::default();
    board.cards = vec![card("b", "todo", 0), card("B", "todo", 0), card("é", "todo", 0), card("ba", "todo", 0)];
    let ids: Vec<&str> = board.cards_in_column("todo").iter().map(|c| c.id.as_str()).collect();
    assert_eq!(ids, vec!["B", "b", "ba", "é"]);
}

#[test]
fn card_id_at_encodes_the_reading() {
    assert_eq!(card_id_at(None), "card-0");
    assert_eq!(card_id_at(Some((1, 5))), "card-3b9aca05");
    assert_eq!(card_id_at(Some((0, 255))), "card-ff");
}

#[test]
fn stamped_board_operations_use_the_given_time() {
    let mut board = BoardState::default();
    let id = board.add_card_at("first".into(), "todo", Some((10, 16)));
    assert_eq!(id, "card-2540be410");
    let c = board.card(&id).unwrap();
    assert_eq!((c.created_at, c.updated_at), (10, 10));
    let other = board.add_card_at("before epoch".into(), "todo", None);
    assert_eq!(other, "card-0");
    assert_eq!(board.card(&other).unwrap().created_at, 0);

    board.move_card_at(&id, "doing", 42).unwrap();
    let c = board.card(&id).unwrap();
    assert_eq!((c.column.as_str(), c.order, c.updated_at, c.created_at), ("doing", 0, 42, 10));
    assert!(board.move_card_at("missing", "doing", 42).is_err());

    assert!(board.set_card_title_at(&id, "renamed".into(), 99));
    let c = board.card(&id).unwrap();
    assert_eq!((c.title.as_str(), c.updated_at), ("renamed", 99));
    assert!(!board.set_card_title_at("missing", "x".into(), 99));
}
