//! The interactive board's state and input handling: which column and card
//! are selected, the title editor, what keys and clicks do, and which outside
//! work (saving, dispatching, focusing a pane) each action asks for.

use vstd::prelude::*;

use crate::dispatch::{move_card_dispatch, Dispatch, DispatchStep};
use crate::error::{debug_text, error_message, quoted_text, BoardError};
use crate::herdr::{pane_listed, Pane};
use crate::sorting::{lemma_stable_sorted_is_permutation, stable_sorted};
use crate::state::{
    adjacent_slug, card_column_order, card_index, cards_of_column, column_board_order, column_max_order,
    find_card, has_card, is_moved, lemma_card_index, next_order, ordered, slug_index, BoardState, Card,
};
use crate::commands::pane_is_live;
use crate::laws::law_next_order_appends;
use crate::text::{joined, push_char, text_eq, trim_text, trimmed, without_last_char};

verus! {

/// Which input mode the board is in.
#[derive(Debug, Clone, Copy, PartialEq, Eq, Structural)]
pub enum Mode {
    Normal,
    NewCard,
    EditCard,
}

/// Actions reachable by key and by on-screen button.
#[derive(Debug, Clone, Copy, PartialEq, Eq, Structural)]
pub enum Action {
    NewCard,
    MoveLeft,
    MoveRight,
    Edit,
    Archive,
    FocusPane,
}

pub open spec fn action_label(a: Action) -> Seq<char> {
    match a {
        Action::NewCard => " n New "@,
        Action::MoveLeft => " h \u{2190} "@,
        Action::MoveRight => " l \u{2192} "@,
        Action::Edit => " e Edit "@,
        Action::Archive => " d Archive "@,
        Action::FocusPane => " f Focus "@,
    }
}

impl Action {
    /// The label shown on the action's button.
    pub fn label(self) -> (r: &'static str)
        ensures
            r@ == action_label(self),
    {
        match self {
            Action::NewCard => " n New ",
            Action::MoveLeft => " h \u{2190} ",
            Action::MoveRight => " l \u{2192} ",
            Action::Edit => " e Edit ",
            Action::Archive => " d Archive ",
            Action::FocusPane => " f Focus ",
        }
    }
}

/// A terminal rectangle.
#[derive(Debug, Clone, Copy, PartialEq, Eq, Structural)]
pub struct Rect {
    pub x: u16,
    pub y: u16,
    pub width: u16,
    pub height: u16,
}

/// Whether the cell `(x, y)` lies in `rect` (right and bottom edges
/// excluded, the far edges held at the terminal's limit).
pub open spec fn in_rect(rect: Rect, x: u16, y: u16) -> bool {
    let right = if rect.x + rect.width > u16::MAX { u16::MAX as int } else { rect.x + rect.width };
    let bottom = if rect.y + rect.height > u16::MAX { u16::MAX as int } else { rect.y + rect.height };
    x >= rect.x && x < right && y >= rect.y && y < bottom
}

/// Whether `rect` contains terminal coordinate `(x, y)`.
pub fn rect_contains(rect: Rect, x: u16, y: u16) -> (r: bool)
    ensures
        r == in_rect(rect, x, y),
{
    x >= rect.x && x < rect.x.saturating_add(rect.width) && y >= rect.y && y < rect.y.saturating_add(rect.height)
}

/// The key of a key event.
#[derive(Debug, Clone, Copy, PartialEq, Eq, Structural)]
pub enum Key {
    Char(char),
    Esc,
    Enter,
    Backspace,
    Up,
    Down,
    Left,
    Right,
    Tab,
    Delete,
    Other,
}

/// A key event: the key, whether it is a press, and the modifiers held.
#[derive(Debug, Clone, Copy, PartialEq, Eq, Structural)]
pub struct KeyInput {
    pub key: Key,
    pub press: bool,
    pub shift: bool,
    pub control: bool,
    /// Any modifier other than shift and control.
    pub other_modifiers: bool,
}

/// A mouse event: whether it is a left-button press, and where.
#[derive(Debug, Clone, Copy, PartialEq, Eq, Structural)]
pub struct MouseInput {
    pub left_down: bool,
    pub column: u16,
    pub row: u16,
}

/// Clickable regions of the last rendering.
#[derive(Debug)]
pub struct Hitmap {
    pub buttons: Vec<(Action, Rect)>,
    pub cards: Vec<(String, Rect)>,
    pub columns: Vec<(String, Rect)>,
}

/// Outside work an input asks for.
#[derive(Debug)]
pub enum Effect {
    Nothing,
    /// Save the board; a failure is reported in the status line only when
    /// `report_failure` is set.
    Persist { report_failure: bool },
    /// Run the dispatch of a move of card `card_id` into `column`, then call
    /// [`App::finish_move`].
    Move { dispatch: Dispatch, card_id: String, column: String },
    /// Look the pane up ([`App::pane_lookup`]) and focus it
    /// ([`App::focus_finished`]).
    Focus { pane_id: String },
}

/// The board's interactive state.
#[derive(Debug)]
pub struct App {
    pub board: BoardState,
    /// Id of the selected card, when one is selected.
    pub selected_card: Option<String>,
    /// Slug of the focused column (target for new cards).
    pub focused_column: String,
    pub mode: Mode,
    pub input: String,
    pub status: Option<String>,
    pub quit: bool,
}

// ---------------------------------------------------------------------------
// Spec vocabulary
// ---------------------------------------------------------------------------

pub open spec fn opt_view(o: Option<String>) -> Option<Seq<char>> {
    match o {
        Some(s) => Some(s@),
        None => None,
    }
}

/// The cards of `column` in display order.
pub open spec fn column_cards(b: BoardState, column: Seq<char>) -> Seq<Card> {
    stable_sorted(cards_of_column(b.cards@, column), card_column_order())
}

/// Id of the first card of `column` in display order.
pub open spec fn first_card_of(b: BoardState, column: Seq<char>) -> Option<Seq<char>> {
    let s = column_cards(b, column);
    if s.len() > 0 {
        Some(s[0].id@)
    } else {
        None
    }
}

/// The board's lists are shorter than the largest position, so that a
/// position within them can be stepped by one (no list held in memory comes
/// near that length).
pub open spec fn lengths_fit(b: BoardState) -> bool {
    &&& b.cards@.len() < i64::MAX
    &&& b.columns@.len() < i64::MAX
}

/// Moving the selected card `step` columns can append it to the target
/// column: that column's highest position is below the largest one.
pub open spec fn move_room(o: App, step: int) -> bool {
    &&& lengths_fit(o.board)
    &&& match o.selected_card {
        None => true,
        Some(id) => {
            let k = card_index(o.board.cards@, id@);
            k == -1 || match adjacent_slug(o.board.columns@, o.board.cards@[k].column@, step) {
                None => true,
                Some(to) => next_order(o.board.cards@, to) <= i64::MAX,
            }
        },
    }
}

/// Saving the editor's text can append a new card to the focused column.
pub open spec fn submit_room(o: App) -> bool {
    o.mode == Mode::NewCard && trimmed(o.input@).len() > 0 ==> next_order(o.board.cards@, o.focused_column@)
        <= i64::MAX
}

/// An action's moves have room.
pub open spec fn action_room(o: App, a: Action) -> bool {
    match a {
        Action::MoveLeft => move_room(o, -1),
        Action::MoveRight => move_room(o, 1),
        _ => true,
    }
}

/// A key's position arithmetic stays in range: saving a new card appends to
/// the focused column, moving a card appends to the target column, and
/// stepping the selection or the focus steps a position in a list.
pub open spec fn key_room(o: App, k: KeyInput) -> bool {
    k.press ==> if o.mode != Mode::Normal {
        k.key == Key::Enter ==> submit_room(o)
    } else {
        match k.key {
            Key::Char('h') | Key::Left => move_room(o, -1),
            Key::Char('l') | Key::Right => move_room(o, 1),
            Key::Char('j') | Key::Down | Key::Char('k') | Key::Up | Key::Tab => lengths_fit(o.board),
            _ => true,
        }
    }
}

/// A click's action has room.
pub open spec fn click_room(o: App, h: Hitmap, m: MouseInput) -> bool {
    let b = first_hit(h.buttons@, m.column, m.row);
    m.left_down && b >= 0 ==> action_room(o, h.buttons@[b].0)
}

/// Everything but the listed parts is kept.
pub open spec fn keeps_board(o: App, n: App) -> bool {
    n.board == o.board
}

pub open spec fn is_focus_moved(o: App, n: App, step: int) -> bool {
    match adjacent_slug(o.board.columns@, o.focused_column@, step) {
        None => n == o,
        Some(s) => {
            &&& keeps_board(o, n)
            &&& n.focused_column@ == s
            &&& opt_view(n.selected_card) == first_card_of(o.board, s)
            &&& n.status is None
            &&& n.mode == o.mode && n.input == o.input && n.quit == o.quit
        },
    }
}

/// Index of the selection after moving it by `delta` among `len` cards: the
/// current index moved and wrapped around, or the first (forward) or last
/// (backward) card when nothing in the column is selected.
pub open spec fn wrapped_index(current: int, len: int, delta: int) -> int {
    if current >= 0 {
        (current + delta) % len
    } else if delta >= 0 {
        0
    } else {
        len - 1
    }
}

pub open spec fn selected_position(o: App) -> int {
    match o.selected_card {
        Some(id) => card_index(column_cards(o.board, o.focused_column@), id@),
        None => -1,
    }
}

pub open spec fn is_selection_moved(o: App, n: App, delta: int) -> bool {
    let cards = column_cards(o.board, o.focused_column@);
    &&& keeps_board(o, n)
    &&& n.focused_column == o.focused_column && n.mode == o.mode && n.input == o.input
    &&& n.status == o.status && n.quit == o.quit
    &&& if cards.len() == 0 {
        n.selected_card is None
    } else {
        opt_view(n.selected_card) == Some(cards[wrapped_index(selected_position(o), cards.len() as int, delta)].id@)
    }
}

/// The title the editor starts from: that of the selected card, or nothing.
pub open spec fn edit_initial(o: App) -> Seq<char> {
    match o.selected_card {
        Some(id) => {
            let k = card_index(o.board.cards@, id@);
            if k >= 0 {
                o.board.cards@[k].title@
            } else {
                Seq::empty()
            }
        },
        None => Seq::empty(),
    }
}

pub open spec fn is_input_started(o: App, n: App, mode: Mode, initial: Seq<char>) -> bool {
    &&& keeps_board(o, n)
    &&& n.mode == mode && n.input@ == initial && n.status is None
    &&& n.selected_card == o.selected_card && n.focused_column == o.focused_column && n.quit == o.quit
}

pub open spec fn is_input_cancelled(o: App, n: App) -> bool {
    &&& keeps_board(o, n)
    &&& n.mode == Mode::Normal && n.input@ == Seq::<char>::empty()
    &&& n.selected_card == o.selected_card && n.focused_column == o.focused_column
    &&& n.status == o.status && n.quit == o.quit
}

pub open spec fn is_input_edited(o: App, n: App, input: Seq<char>) -> bool {
    &&& keeps_board(o, n)
    &&& n.mode == o.mode && n.input@ == input
    &&& n.selected_card == o.selected_card && n.focused_column == o.focused_column
    &&& n.status == o.status && n.quit == o.quit
}

/// Archiving: with nothing selected the status says so; otherwise the
/// selected card is removed when it exists (the selection cleared and the
/// board saved).
pub open spec fn is_archived(o: App, n: App, e: Effect) -> bool {
    match o.selected_card {
        None => {
            &&& keeps_board(o, n)
            &&& opt_view(n.status) == Some("no card selected"@)
            &&& n.selected_card is None && n.focused_column == o.focused_column && n.mode == o.mode
                && n.input == o.input && n.quit == o.quit
            &&& e is Nothing
        },
        Some(id) => if has_card(o.board.cards@, id@) {
            &&& n.board.cards@ == crate::state::cards_without(o.board.cards@, id@)
            &&& n.board.columns == o.board.columns && n.board.revision == o.board.revision
            &&& n.selected_card is None
            &&& n.focused_column == o.focused_column && n.mode == o.mode && n.input == o.input
                && n.status == o.status && n.quit == o.quit
            &&& e matches Effect::Persist { report_failure } && report_failure
        } else {
            n == o && e is Nothing
        },
    }
}

/// Asking to focus the selected card's pane.
pub open spec fn is_focus_requested(o: App, n: App, e: Effect) -> bool {
    match o.selected_card {
        None => {
            &&& keeps_board(o, n)
            &&& opt_view(n.status) == Some("no card selected"@)
            &&& n.selected_card is None && n.focused_column == o.focused_column && n.mode == o.mode
                && n.input == o.input && n.quit == o.quit
            &&& e is Nothing
        },
        Some(id) => {
            let k = card_index(o.board.cards@, id@);
            if k == -1 {
                &&& keeps_board(o, n)
                &&& n.selected_card is None
                &&& n.focused_column == o.focused_column && n.mode == o.mode && n.input == o.input
                    && n.status == o.status && n.quit == o.quit
                &&& e is Nothing
            } else {
                match o.board.cards@[k].pane_id {
                    None => {
                        &&& keeps_board(o, n)
                        &&& opt_view(n.status) == Some("card "@ + debug_text(o.board.cards@[k].title@) + " has no linked pane"@)
                        &&& n.selected_card == o.selected_card && n.focused_column == o.focused_column
                            && n.mode == o.mode && n.input == o.input && n.quit == o.quit
                        &&& e is Nothing
                    },
                    Some(p) => n == o && (e matches Effect::Focus { pane_id } && pane_id == p),
                }
            }
        },
    }
}

/// Moving the selected card `step` columns over: without a selection the
/// focus moves; a selection whose card is gone is cleared; at the edge the
/// status says so; otherwise the card moves and, when its dispatch needs
/// Herdr, the move is handed back as an effect, else it is finished at once.
pub open spec fn is_move_selected(o: App, n: App, e: Effect, step: int) -> bool {
    &&& n.mode == o.mode
    &&& n.input == o.input
    &&& n.quit == o.quit
    &&& match o.selected_card {
        None => is_focus_moved(o, n, step as int) && e is Nothing,
        Some(id) => {
            let k = card_index(o.board.cards@, id@);
            if k == -1 {
                &&& n.board == o.board
                &&& n.selected_card is None
                &&& n.focused_column == o.focused_column
                &&& n.status == o.status
                &&& e is Nothing
            } else {
                let from = o.board.cards@[k].column@;
                match adjacent_slug(o.board.columns@, from, step as int) {
                    None => {
                        &&& n.board == o.board
                        &&& n.selected_card == o.selected_card
                        &&& n.focused_column == o.focused_column
                        &&& opt_view(n.status) == Some("card is already at the edge"@)
                        &&& e is Nothing
                    },
                    Some(to) => {
                        &&& n.board.cards@.len() == o.board.cards@.len()
                        &&& is_moved(o.board.cards@[k], n.board.cards@[k], to,
                            next_order(o.board.cards@, to))
                        &&& match e {
                            Effect::Move { card_id, column, .. } => card_id@ == id@ && column@ == to,
                            Effect::Persist { report_failure } => {
                                &&& !report_failure
                                &&& n.focused_column@ == to
                                &&& opt_view(n.selected_card) == Some(id@)
                                &&& opt_view(n.status) == Some(
                                    crate::dispatch::moved_text(id@, to),
                                )
                            },
                            Effect::Nothing => exists|cause: String| opt_view(n.status) == Some(
                                "move failed: "@ + #[trigger] error_message(BoardError::ClockBeforeEpoch { cause }),
                            ),
                            _ => false,
                        }
                    },
                }
            }
        },
    }
}

/// Saving the editor's text: the editor closes and clears; a blank title
/// does nothing more; otherwise a new card with the trimmed title is added
/// to the focused column and selected, or the selected card is renamed.
pub open spec fn is_submitted(o: App, n: App, e: Effect) -> bool {
    let title = trimmed(o.input@);
    &&& n.mode == Mode::Normal
    &&& n.input@ == Seq::<char>::empty()
    &&& n.focused_column == o.focused_column
    &&& n.status == o.status
    &&& n.quit == o.quit
    &&& if title.len() == 0 || o.mode == Mode::Normal {
        n.board == o.board && n.selected_card == o.selected_card && e is Nothing
    } else if o.mode == Mode::NewCard {
        &&& n.board.cards@.len() == o.board.cards@.len() + 1
        &&& n.board.cards@.drop_last() == o.board.cards@
        &&& n.board.columns == o.board.columns && n.board.revision == o.board.revision
        &&& n.board.cards@.last().title@ == title
        &&& n.board.cards@.last().column@ == o.focused_column@
        &&& n.board.cards@.last().order == next_order(o.board.cards@, o.focused_column@)
        &&& opt_view(n.selected_card) == Some(n.board.cards@.last().id@)
        &&& e matches Effect::Persist { report_failure } && report_failure
    } else {
        &&& n.selected_card == o.selected_card
        &&& match o.selected_card {
            None => n.board == o.board && e is Nothing,
            Some(id) => {
                let k = card_index(o.board.cards@, id@);
                if k == -1 {
                    n.board == o.board && e is Nothing
                } else {
                    &&& n.board.cards@.len() == o.board.cards@.len()
                    &&& forall|j: int| 0 <= j < o.board.cards@.len() && j != k ==> #[trigger] n.board.cards@[j]
                        == o.board.cards@[j]
                    &&& n.board.cards@[k].title@ == title
                    &&& n.board.cards@[k].id == o.board.cards@[k].id
                    &&& n.board.cards@[k].column == o.board.cards@[k].column
                    &&& n.board.cards@[k].order == o.board.cards@[k].order
                    &&& n.board.columns == o.board.columns && n.board.revision == o.board.revision
                    &&& e matches Effect::Persist { report_failure } && report_failure
                }
            },
        }
    }
}

/// What a button or its key does.
pub open spec fn is_action_run(o: App, n: App, e: Effect, a: Action) -> bool {
    match a {
        Action::NewCard => is_input_started(o, n, Mode::NewCard, Seq::empty()) && e is Nothing,
        Action::MoveLeft => is_move_selected(o, n, e, -1),
        Action::MoveRight => is_move_selected(o, n, e, 1),
        Action::Edit => is_input_started(o, n, Mode::EditCard, edit_initial(o)) && e is Nothing,
        Action::Archive => is_archived(o, n, e),
        Action::FocusPane => is_focus_requested(o, n, e),
    }
}

/// What a key press does in the title editor.
pub open spec fn is_editor_key(o: App, n: App, e: Effect, k: KeyInput) -> bool {
    match k.key {
        Key::Esc => is_input_cancelled(o, n) && e is Nothing,
        Key::Enter => is_submitted(o, n, e),
        Key::Backspace => is_input_edited(o, n, if o.input@.len() == 0 { o.input@ } else { o.input@.drop_last() })
            && e is Nothing,
        Key::Char(c) => if !k.control && !k.other_modifiers {
            is_input_edited(o, n, o.input@.push(c)) && e is Nothing
        } else if c == 'h' && k.control {
            is_input_edited(o, n, if o.input@.len() == 0 { o.input@ } else { o.input@.drop_last() })
                && e is Nothing
        } else {
            n == o && e is Nothing
        },
        _ => n == o && e is Nothing,
    }
}

/// What a key press does on the board.
pub open spec fn is_board_key(o: App, n: App, e: Effect, k: KeyInput) -> bool {
    match k.key {
        Key::Char('q') | Key::Esc => n == (App { quit: true, ..o }) && e is Nothing,
        Key::Char('j') | Key::Down => is_selection_moved(o, n, 1) && e is Nothing,
        Key::Char('k') | Key::Up => is_selection_moved(o, n, -1) && e is Nothing,
        Key::Char('h') | Key::Left => is_move_selected(o, n, e, -1),
        Key::Char('l') | Key::Right => is_move_selected(o, n, e, 1),
        Key::Tab => is_focus_moved(o, n, if k.shift { -1 } else { 1 }) && e is Nothing,
        Key::Char('n') => is_action_run(o, n, e, Action::NewCard),
        Key::Char('e') => is_action_run(o, n, e, Action::Edit),
        Key::Char('d') | Key::Delete => is_archived(o, n, e),
        Key::Char('f') | Key::Enter => is_focus_requested(o, n, e),
        _ => n == o && e is Nothing,
    }
}

/// Index of the first region that contains `(x, y)`, or -1.
pub open spec fn first_hit<T>(regions: Seq<(T, Rect)>, x: u16, y: u16) -> int
    decreases regions.len(),
{
    if regions.len() == 0 {
        -1
    } else {
        let k = first_hit(regions.drop_last(), x, y);
        if k >= 0 {
            k
        } else if in_rect(regions.last().1, x, y) {
            regions.len() - 1
        } else {
            -1
        }
    }
}

/// What a left click does: a button runs its action; else a card is
/// selected (and its column focused); else a column is focused with its first
/// card selected.
pub open spec fn is_click(o: App, n: App, e: Effect, h: Hitmap, x: u16, y: u16) -> bool {
    let b = first_hit(h.buttons@, x, y);
    let c = first_hit(h.cards@, x, y);
    let col = first_hit(h.columns@, x, y);
    if b >= 0 {
        is_action_run(o, n, e, h.buttons@[b].0)
    } else if c >= 0 {
        let id = h.cards@[c].0;
        let k = card_index(o.board.cards@, id@);
        &&& keeps_board(o, n)
        &&& n.selected_card == Some(id)
        &&& n.focused_column == (if k >= 0 { o.board.cards@[k].column } else { o.focused_column })
        &&& n.mode == o.mode && n.input == o.input && n.status == o.status && n.quit == o.quit
        &&& e is Nothing
    } else if col >= 0 {
        let slug = h.columns@[col].0;
        &&& keeps_board(o, n)
        &&& n.focused_column == slug
        &&& opt_view(n.selected_card) == first_card_of(o.board, slug@)
        &&& n.mode == o.mode && n.input == o.input && n.status == o.status && n.quit == o.quit
        &&& e is Nothing
    } else {
        n == o && e is Nothing
    }
}

// ---------------------------------------------------------------------------
// Helpers
// ---------------------------------------------------------------------------

proof fn lemma_columns_fit(b: BoardState)
    requires
        lengths_fit(b),
    ensures
        forall|s: Seq<char>| #[trigger] slug_index(ordered(b.columns@), s) + 1 <= i64::MAX,
{
    lemma_stable_sorted_is_permutation(b.columns@, column_board_order());
    assert forall|s: Seq<char>| #[trigger] slug_index(ordered(b.columns@), s) + 1 <= i64::MAX by {
        lemma_slug_index_bound(ordered(b.columns@), s);
    }
}

proof fn lemma_slug_index_bound(cols: Seq<crate::state::Column>, slug: Seq<char>)
    ensures
        -1 <= slug_index(cols, slug) < cols.len(),
    decreases cols.len(),
{
    if cols.len() > 0 {
        lemma_slug_index_bound(cols.drop_last(), slug);
    }
}

proof fn lemma_first_hit_prefix<T>(regions: Seq<(T, Rect)>, x: u16, y: u16, k: int)
    requires
        0 <= k <= regions.len(),
        first_hit(regions.take(k), x, y) >= 0,
    ensures
        first_hit(regions, x, y) == first_hit(regions.take(k), x, y),
    decreases regions.len() - k,
{
    if k < regions.len() {
        assert(regions.drop_last().take(k) =~= regions.take(k));
        lemma_first_hit_prefix(regions.drop_last(), x, y, k);
    } else {
        assert(regions.take(k) =~= regions);
    }
}

/// Index of the first region containing `(x, y)`.
fn first_hit_index<T>(regions: &Vec<(T, Rect)>, x: u16, y: u16) -> (r: Option<usize>)
    ensures
        match r {
            Some(i) => i == first_hit(regions@, x, y) && i < regions@.len(),
            None => first_hit(regions@, x, y) == -1,
        },
{
    let n = regions.len();
    let mut i: usize = 0;
    assert(regions@.take(0) =~= Seq::<(T, Rect)>::empty());
    while i < n
        invariant
            n == regions@.len(),
            i <= n,
            first_hit(regions@.take(i as int), x, y) == -1,
        decreases n - i,
    {
        assert(regions@.take(i + 1).drop_last() =~= regions@.take(i as int));
        if rect_contains(regions[i].1, x, y) {
            proof {
                assert(regions@.take(i + 1).last() == regions@[i as int]);
                assert(first_hit(regions@.take(i + 1), x, y) == i);
                lemma_first_hit_prefix(regions@, x, y, i + 1);
            }
            return Some(i);
        }
        i = i + 1;
    }
    assert(regions@.take(n as int) =~= regions@);
    None
}

proof fn lemma_column_cards_len(b: BoardState, column: Seq<char>)
    ensures
        column_cards(b, column).len() <= b.cards@.len(),
{
    lemma_stable_sorted_is_permutation(cards_of_column(b.cards@, column), card_column_order());
    lemma_cards_of_column_len(b.cards@, column);
}

proof fn lemma_cards_of_column_len(cards: Seq<Card>, column: Seq<char>)
    ensures
        cards_of_column(cards, column).len() <= cards.len(),
    decreases cards.len(),
{
    if cards.len() > 0 {
        lemma_cards_of_column_len(cards.drop_last(), column);
    }
}

proof fn lemma_card_index_bound(cards: Seq<Card>, id: Seq<char>)
    ensures
        -1 <= card_index(cards, id) < cards.len(),
    decreases cards.len(),
{
    if cards.len() > 0 {
        lemma_card_index_bound(cards.drop_last(), id);
    }
}

proof fn lemma_selection_room(o: App)
    requires
        lengths_fit(o.board),
    ensures
        selected_position(o) >= 0 ==> i64::MIN <= selected_position(o) - 1 && selected_position(o) + 1 <= i64::MAX,
{
    lemma_column_cards_len(o.board, o.focused_column@);
    if o.selected_card is Some {
        lemma_card_index_bound(column_cards(o.board, o.focused_column@), o.selected_card->0@);
    }
}

proof fn lemma_focus_room(o: App)
    requires
        lengths_fit(o.board),
    ensures
        slug_index(ordered(o.board.columns@), o.focused_column@) + 1 <= i64::MAX,
{
    lemma_columns_fit(o.board);
}

/// Whether a card can be appended to `column`: its highest position is below
/// the largest one.
pub fn column_has_room(b: &BoardState, column: &str) -> (r: bool)
    ensures
        r == (next_order(b.cards@, column@) <= i64::MAX),
{
    proof {
        law_next_order_appends(b.cards@, column@);
    }
    let n = b.cards.len();
    let mut i: usize = 0;
    while i < n
        invariant
            n == b.cards@.len(),
            i <= n,
            forall|j: int| 0 <= j < i && #[trigger] b.cards@[j].column@ == column@ ==> b.cards@[j].order < i64::MAX,
        decreases n - i,
    {
        if b.cards[i].order == i64::MAX && text_eq(b.cards[i].column.as_str(), column) {
            proof {
                law_next_order_appends(b.cards@, column@);
                assert(b.cards@[i as int].column@ == column@);
            }
            return false;
        }
        i = i + 1;
    }
    proof {
        if column_max_order(b.cards@, column@) is Some {
            let w = choose|j: int| 0 <= j < b.cards@.len() && #[trigger] b.cards@[j].column@ == column@
                && b.cards@[j].order == next_order(b.cards@, column@) - 1;
            assert(b.cards@[w].order < i64::MAX);
        }
    }
    true
}

/// Whether the board's lists are shorter than the largest position.
pub fn lengths_fit_in(b: &BoardState) -> (r: bool)
    ensures
        r == lengths_fit(*b),
{
    (b.cards.len() as u128) < (i64::MAX as u128) && (b.columns.len() as u128) < (i64::MAX as u128)
}

/// Whether moving the selected card `step` columns has room.
pub fn move_has_room(app: &App, step: i64) -> (r: bool)
    requires
        -1 <= step <= 1,
    ensures
        r == move_room(*app, step as int),
{
    if !lengths_fit_in(&app.board) {
        return false;
    }
    match &app.selected_card {
        None => true,
        Some(id) => {
            proof {
                lemma_card_index(app.board.cards@, id@);
                lemma_columns_fit(app.board);
            }
            match find_card(&app.board.cards, id.as_str()) {
                None => true,
                Some(k) => match app.board.adjacent_column(app.board.cards[k].column.as_str(), step) {
                    None => true,
                    Some(to) => column_has_room(&app.board, to.as_str()),
                },
            }
        },
    }
}

/// Whether saving the editor's text has room.
pub fn submit_has_room(app: &App) -> (r: bool)
    ensures
        r == submit_room(*app),
{
    match app.mode {
        Mode::NewCard => {
            let t = trim_text(app.input.as_str());
            if t.as_str().is_empty() {
                true
            } else {
                column_has_room(&app.board, app.focused_column.as_str())
            }
        },
        _ => true,
    }
}

/// Whether an action has room.
pub fn action_has_room(app: &App, action: Action) -> (r: bool)
    ensures
        r == action_room(*app, action),
{
    match action {
        Action::MoveLeft => move_has_room(app, -1),
        Action::MoveRight => move_has_room(app, 1),
        _ => true,
    }
}

/// Whether a key's position arithmetic stays in range, so that
/// [`App::on_key`] can take it.
pub fn key_has_room(app: &App, key: KeyInput) -> (r: bool)
    ensures
        r == key_room(*app, key),
{
    if !key.press {
        return true;
    }
    match app.mode {
        Mode::Normal => match key.key {
            Key::Char('h') | Key::Left => move_has_room(app, -1),
            Key::Char('l') | Key::Right => move_has_room(app, 1),
            Key::Char('j') | Key::Down | Key::Char('k') | Key::Up | Key::Tab => lengths_fit_in(&app.board),
            _ => true,
        },
        _ => match key.key {
            Key::Enter => submit_has_room(app),
            _ => true,
        },
    }
}

/// Whether a click's action has room, so that [`App::on_mouse`] can take it.
pub fn click_has_room(app: &App, mouse: MouseInput, hitmap: &Hitmap) -> (r: bool)
    ensures
        r == click_room(*app, *hitmap, mouse),
{
    if !mouse.left_down {
        return true;
    }
    match first_hit_index(&hitmap.buttons, mouse.column, mouse.row) {
        Some(b) => action_has_room(app, hitmap.buttons[b].0),
        None => true,
    }
}

/// Id of the first card of `column` in display order.
fn first_card_id(b: &BoardState, column: &str) -> (r: Option<String>)
    ensures
        opt_view(r) == first_card_of(*b, column@),
{
    let cards = b.cards_in_column(column);
    assert(crate::state::card_derefs(cards@).len() == cards@.len());
    if cards.len() > 0 {
        assert(*cards@[0] == column_cards(*b, column@)[0]);
        Some(cards[0].id.clone())
    } else {
        None
    }
}

impl App {
    /// A fresh view of `board`: the first column in display order focused and
    /// its first card selected.
    pub fn new(board: BoardState) -> (r: App)
        ensures
            r.board == board,
            r.focused_column@ == (if ordered(board.columns@).len() > 0 {
                ordered(board.columns@)[0].slug@
            } else {
                Seq::<char>::empty()
            }),
            opt_view(r.selected_card) == first_card_of(board, r.focused_column@),
            r.mode == Mode::Normal,
            r.input@ == Seq::<char>::empty(),
            r.status is None,
            !r.quit,
    {
        let focused_column = {
            let columns = board.ordered_columns();
            assert(crate::state::column_derefs(columns@).len() == columns@.len());
            if columns.len() > 0 {
                assert(*columns@[0] == ordered(board.columns@)[0]);
                columns[0].slug.clone()
            } else {
                String::new()
            }
        };
        let selected_card = first_card_id(&board, focused_column.as_str());
        App {
            board,
            selected_card,
            focused_column,
            mode: Mode::Normal,
            input: String::new(),
            status: None,
            quit: false,
        }
    }

    /// Move focus to an adjacent column, re-selecting its first card.
    pub fn move_focus(&mut self, step: i64)
        requires
            slug_index(ordered(old(self).board.columns@), old(self).focused_column@) + step <= i64::MAX,
        ensures
            is_focus_moved(*old(self), *final(self), step as int),
    {
        let next = self.board.adjacent_column(self.focused_column.as_str(), step);
        match next {
            None => {},
            Some(slug) => {
                let selected = first_card_id(&self.board, slug.as_str());
                self.focused_column = slug;
                self.selected_card = selected;
                self.status = None;
            },
        }
    }

    /// Move the selection within the focused column by `delta`, wrapping
    /// around.
    pub fn select_delta(&mut self, delta: i64)
        requires
            selected_position(*old(self)) >= 0 ==> i64::MIN <= selected_position(*old(self)) + delta <= i64::MAX,
        ensures
            is_selection_moved(*old(self), *final(self), delta as int),
    {
        let cards = self.board.cards_in_column(self.focused_column.as_str());
        let ghost s = column_cards(self.board, self.focused_column@);
        assert(crate::state::card_derefs(cards@).len() == cards@.len());
        let len = cards.len();
        if len == 0 {
            self.selected_card = None;
            return;
        }
        let current: Option<usize> = match &self.selected_card {
            Some(id) => position_in(&cards, id.as_str()),
            None => None,
        };
        let next: usize = match current {
            Some(pos) => {
                let m = len as u128;
                let d: u128 = if delta >= 0 {
                    (delta as u128) % m
                } else {
                    let magnitude: u128 = if delta == i64::MIN { 9223372036854775808u128 } else { (-delta) as u128 };
                    (m - magnitude % m) % m
                };
                let wrapped = (pos as u128 + d) % m;
                proof {
                    lemma_wrap(pos as int, delta as int, m as int, d as int, wrapped as int);
                }
                wrapped as usize
            },
            None => if delta >= 0 {
                0
            } else {
                len - 1
            },
        };
        assert(s[next as int] == *cards@[next as int]);
        self.selected_card = Some(cards[next].id.clone());
    }

    /// Open the title editor in `mode` with `initial` text.
    pub fn start_input(&mut self, mode: Mode, initial: String)
        ensures
            is_input_started(*old(self), *final(self), mode, initial@),
    {
        self.mode = mode;
        self.input = initial;
        self.status = None;
    }

    /// Leave the title editor, discarding its text.
    pub fn cancel_input(&mut self)
        ensures
            is_input_cancelled(*old(self), *final(self)),
    {
        self.mode = Mode::Normal;
        self.input = String::new();
    }

    /// The text the title editor starts from when editing.
    fn selected_title(&self) -> (r: String)
        ensures
            r@ == edit_initial(*self),
    {
        proof {
            if self.selected_card is Some {
                lemma_card_index(self.board.cards@, self.selected_card->0@);
            }
        }
        match &self.selected_card {
            Some(id) => match self.board.card(id.as_str()) {
                Some(c) => c.title.clone(),
                None => String::new(),
            },
            None => String::new(),
        }
    }

    /// Archive (remove) the selected card.
    pub fn archive(&mut self) -> (e: Effect)
        ensures
            is_archived(*old(self), *final(self), e),
    {
        let id = match &self.selected_card {
            Some(id) => id.clone(),
            None => {
                self.status = Some("no card selected".to_owned());
                return Effect::Nothing;
            },
        };
        proof {
            lemma_card_index(self.board.cards@, id@);
        }
        if find_card(&self.board.cards, id.as_str()).is_none() {
            return Effect::Nothing;
        }
        self.board.remove_card(id.as_str());
        self.selected_card = None;
        Effect::Persist { report_failure: true }
    }

    /// Ask to focus the pane linked to the selected card.
    pub fn focus_pane(&mut self) -> (e: Effect)
        ensures
            is_focus_requested(*old(self), *final(self), e),
    {
        let id = match &self.selected_card {
            Some(id) => id.clone(),
            None => {
                self.status = Some("no card selected".to_owned());
                return Effect::Nothing;
            },
        };
        proof {
            lemma_card_index(self.board.cards@, id@);
        }
        let k = match find_card(&self.board.cards, id.as_str()) {
            Some(k) => k,
            None => {
                self.selected_card = None;
                return Effect::Nothing;
            },
        };
        match &self.board.cards[k].pane_id {
            Some(p) => Effect::Focus { pane_id: p.clone() },
            None => {
                let q = quoted_text(self.board.cards[k].title.as_str());
                let a = joined("card ", q.as_str());
                self.status = Some(joined(a.as_str(), " has no linked pane"));
                Effect::Nothing
            },
        }
    }

    /// Whether the looked-up pane is live; when it is not, or the lookup
    /// failed, the status line says why.
    pub fn pane_lookup(&mut self, panes: Result<Vec<Pane>, String>, pane_id: &str) -> (found: bool)
        ensures
            final(self).board == old(self).board,
            final(self).selected_card == old(self).selected_card,
            final(self).focused_column == old(self).focused_column,
            final(self).mode == old(self).mode,
            final(self).input == old(self).input,
            final(self).quit == old(self).quit,
            match panes {
                Err(e) => !found && opt_view(final(self).status) == Some("pane lookup failed: "@ + e@),
                Ok(ps) => if pane_listed(ps@, pane_id@) {
                    found && final(self).status == old(self).status
                } else {
                    !found && opt_view(final(self).status) == Some(
                        "pane lookup failed: pane not present in herdr pane list"@,
                    )
                },
            },
    {
        match panes {
            Err(e) => {
                self.status = Some(joined("pane lookup failed: ", e.as_str()));
                false
            },
            Ok(ps) => if pane_is_live(&ps, pane_id) {
                true
            } else {
                self.status = Some("pane lookup failed: pane not present in herdr pane list".to_owned());
                false
            },
        }
    }

    /// Record how focusing the pane went.
    pub fn focus_finished(&mut self, pane_id: &str, result: Result<(), String>)
        ensures
            final(self).board == old(self).board,
            final(self).selected_card == old(self).selected_card,
            final(self).focused_column == old(self).focused_column,
            final(self).mode == old(self).mode,
            final(self).input == old(self).input,
            final(self).quit == old(self).quit,
            match result {
                Ok(_) => opt_view(final(self).status) == Some("focused pane "@ + pane_id@),
                Err(e) => opt_view(final(self).status) == Some("focus failed: "@ + e@),
            },
    {
        match result {
            Ok(()) => {
                self.status = Some(joined("focused pane ", pane_id));
            },
            Err(e) => {
                self.status = Some(joined("focus failed: ", e.as_str()));
            },
        }
    }

    /// Record the end of a move: on success focus the target column, keep the
    /// card selected and show the dispatch status (the board is then saved,
    /// a save failure not reported); on failure show why.
    pub fn finish_move(&mut self, card_id: String, column: String, result: Result<String, BoardError>) -> (e: Effect)
        ensures
            final(self).board == old(self).board,
            final(self).mode == old(self).mode,
            final(self).input == old(self).input,
            final(self).quit == old(self).quit,
            match result {
                Ok(status) => {
                    &&& final(self).focused_column == column
                    &&& final(self).selected_card == Some(card_id)
                    &&& final(self).status == Some(status)
                    &&& e matches Effect::Persist { report_failure } && !report_failure
                },
                Err(err) => {
                    &&& final(self).focused_column == old(self).focused_column
                    &&& final(self).selected_card == old(self).selected_card
                    &&& opt_view(final(self).status) == Some("move failed: "@ + error_message(err))
                    &&& e is Nothing
                },
            },
    {
        match result {
            Ok(status) => {
                self.focused_column = column;
                self.selected_card = Some(card_id);
                self.status = Some(status);
                Effect::Persist { report_failure: false }
            },
            Err(err) => {
                let m = err.message();
                self.status = Some(joined("move failed: ", m.as_str()));
                Effect::Nothing
            },
        }
    }

    /// Report a failed save in the status line.
    pub fn save_failed(&mut self, message: &str)
        ensures
            opt_view(final(self).status) == Some("save failed: "@ + message@),
            final(self).board == old(self).board,
            final(self).selected_card == old(self).selected_card,
            final(self).focused_column == old(self).focused_column,
            final(self).mode == old(self).mode,
            final(self).input == old(self).input,
            final(self).quit == old(self).quit,
    {
        self.status = Some(joined("save failed: ", message));
    }

    /// Add a card titled `title` to the focused column and select it.
    fn new_card(&mut self, title: String) -> (e: Effect)
        requires
            next_order(old(self).board.cards@, old(self).focused_column@) <= i64::MAX,
        ensures
            final(self).board.cards@.len() == old(self).board.cards@.len() + 1,
            final(self).board.cards@.drop_last() == old(self).board.cards@,
            final(self).board.columns == old(self).board.columns,
            final(self).board.revision == old(self).board.revision,
            final(self).board.cards@.last().title == title,
            final(self).board.cards@.last().column@ == old(self).focused_column@,
            final(self).board.cards@.last().order == next_order(old(self).board.cards@, old(self).focused_column@),
            opt_view(final(self).selected_card) == Some(final(self).board.cards@.last().id@),
            final(self).focused_column == old(self).focused_column,
            final(self).mode == old(self).mode,
            final(self).input == old(self).input,
            final(self).status == old(self).status,
            final(self).quit == old(self).quit,
            e matches Effect::Persist { report_failure } && report_failure,
    {
        let column = self.focused_column.clone();
        let id = self.board.add_card(title, column.as_str());
        self.selected_card = Some(id);
        Effect::Persist { report_failure: true }
    }

    /// Rename the selected card.
    fn edit_card(&mut self, title: String) -> (e: Effect)
        ensures
            final(self).selected_card == old(self).selected_card,
            final(self).focused_column == old(self).focused_column,
            final(self).mode == old(self).mode,
            final(self).input == old(self).input,
            final(self).status == old(self).status,
            final(self).quit == old(self).quit,
            match old(self).selected_card {
                None => final(self).board == old(self).board && e is Nothing,
                Some(id) => {
                    let k = card_index(old(self).board.cards@, id@);
                    if k == -1 {
                        final(self).board == old(self).board && e is Nothing
                    } else {
                        &&& final(self).board.cards@.len() == old(self).board.cards@.len()
                        &&& forall|j: int| 0 <= j < old(self).board.cards@.len() && j != k
                            ==> #[trigger] final(self).board.cards@[j] == old(self).board.cards@[j]
                        &&& final(self).board.cards@[k].title == title
                        &&& final(self).board.cards@[k].id == old(self).board.cards@[k].id
                        &&& final(self).board.cards@[k].column == old(self).board.cards@[k].column
                        &&& final(self).board.cards@[k].order == old(self).board.cards@[k].order
                        &&& final(self).board.columns == old(self).board.columns
                        &&& final(self).board.revision == old(self).board.revision
                        &&& e matches Effect::Persist { report_failure } && report_failure
                    }
                },
            },
    {
        let id = match &self.selected_card {
            Some(id) => id.clone(),
            None => {
                return Effect::Nothing;
            },
        };
        proof {
            lemma_card_index(self.board.cards@, id@);
        }
        if find_card(&self.board.cards, id.as_str()).is_none() {
            return Effect::Nothing;
        }
        self.board.set_card_title(id.as_str(), title);
        Effect::Persist { report_failure: true }
    }

    /// Save the editor's text as a new card or a new title.
    pub fn submit_input(&mut self) -> (e: Effect)
        requires
            submit_room(*old(self)),
        ensures
            is_submitted(*old(self), *final(self), e),
    {
        let title = trim_text(self.input.as_str());
        let mode = self.mode;
        self.mode = Mode::Normal;
        self.input = String::new();
        if title.as_str().is_empty() {
            return Effect::Nothing;
        }
        match mode {
            Mode::NewCard => self.new_card(title),
            Mode::EditCard => self.edit_card(title),
            Mode::Normal => Effect::Nothing,
        }
    }

    /// Run a button action (also reachable by key).
    pub fn run_action(&mut self, action: Action) -> (e: Effect)
        requires
            action_room(*old(self), action),
        ensures
            is_action_run(*old(self), *final(self), e, action),
    {
        match action {
            Action::NewCard => {
                self.start_input(Mode::NewCard, String::new());
                Effect::Nothing
            },
            Action::MoveLeft => self.move_selected(-1),
            Action::MoveRight => self.move_selected(1),
            Action::Edit => {
                let title = self.selected_title();
                self.start_input(Mode::EditCard, title);
                Effect::Nothing
            },
            Action::Archive => self.archive(),
            Action::FocusPane => self.focus_pane(),
        }
    }

    /// Handle a key event.
    pub fn on_key(&mut self, key: KeyInput) -> (e: Effect)
        requires
            key_room(*old(self), key),
        ensures
            !key.press ==> *final(self) == *old(self) && e is Nothing,
            key.press && old(self).mode != Mode::Normal ==> is_editor_key(*old(self), *final(self), e, key),
            key.press && old(self).mode == Mode::Normal ==> is_board_key(*old(self), *final(self), e, key),
    {
        if !key.press {
            return Effect::Nothing;
        }
        if self.mode != Mode::Normal {
            match key.key {
                Key::Esc => {
                    self.cancel_input();
                    Effect::Nothing
                },
                Key::Enter => self.submit_input(),
                Key::Backspace => {
                    self.input = without_last_char(self.input.as_str());
                    Effect::Nothing
                },
                Key::Char(c) => {
                    if !key.control && !key.other_modifiers {
                        push_char(&mut self.input, c);
                    } else if c == 'h' && key.control {
                        self.input = without_last_char(self.input.as_str());
                    }
                    Effect::Nothing
                },
                _ => Effect::Nothing,
            }
        } else {
            match key.key {
                Key::Char('q') | Key::Esc => {
                    self.quit = true;
                    Effect::Nothing
                },
                Key::Char('j') | Key::Down => {
                    proof {
                        lemma_selection_room(*self);
                    }
                    self.select_delta(1);
                    Effect::Nothing
                },
                Key::Char('k') | Key::Up => {
                    proof {
                        lemma_selection_room(*self);
                    }
                    self.select_delta(-1);
                    Effect::Nothing
                },
                Key::Char('h') | Key::Left => self.move_selected(-1),
                Key::Char('l') | Key::Right => self.move_selected(1),
                Key::Tab => {
                    proof {
                        lemma_focus_room(*self);
                    }
                    let step: i64 = if key.shift { -1 } else { 1 };
                    self.move_focus(step);
                    Effect::Nothing
                },
                Key::Char('n') => self.run_action(Action::NewCard),
                Key::Char('e') => self.run_action(Action::Edit),
                Key::Char('d') | Key::Delete => self.archive(),
                Key::Char('f') | Key::Enter => self.focus_pane(),
                _ => Effect::Nothing,
            }
        }
    }

    /// Resolve a mouse click against the rendered regions.
    pub fn on_mouse(&mut self, mouse: MouseInput, hitmap: &Hitmap) -> (e: Effect)
        requires
            click_room(*old(self), *hitmap, mouse),
        ensures
            !mouse.left_down ==> *final(self) == *old(self) && e is Nothing,
            mouse.left_down ==> is_click(*old(self), *final(self), e, *hitmap, mouse.column, mouse.row),
    {
        if !mouse.left_down {
            return Effect::Nothing;
        }
        let x = mouse.column;
        let y = mouse.row;
        match first_hit_index(&hitmap.buttons, x, y) {
            Some(b) => {
                let action = hitmap.buttons[b].0;
                return self.run_action(action);
            },
            None => {},
        }
        match first_hit_index(&hitmap.cards, x, y) {
            Some(c) => {
                let id = hitmap.cards[c].0.clone();
                proof {
                    lemma_card_index(self.board.cards@, id@);
                }
                let column = match self.board.card(id.as_str()) {
                    Some(card) => Some(card.column.clone()),
                    None => None,
                };
                self.selected_card = Some(id);
                match column {
                    Some(col) => {
                        self.focused_column = col;
                    },
                    None => {},
                }
                return Effect::Nothing;
            },
            None => {},
        }
        match first_hit_index(&hitmap.columns, x, y) {
            Some(k) => {
                let slug = hitmap.columns[k].0.clone();
                let selected = first_card_id(&self.board, slug.as_str());
                self.focused_column = slug;
                self.selected_card = selected;
                Effect::Nothing
            },
            None => Effect::Nothing,
        }
    }

    /// Move the selected card to the adjacent column `step` places away,
    /// dispatching when that column asks for it. Without a selection the
    /// focus moves instead.
    pub fn move_selected(&mut self, step: i64) -> (e: Effect)
        requires
            move_room(*old(self), step as int),
            -1 <= step <= 1,
        ensures
            is_move_selected(*old(self), *final(self), e, step as int),
    {
        let id = match &self.selected_card {
            Some(id) => id.clone(),
            None => {
                proof {
                    lemma_columns_fit(self.board);
                }
                self.move_focus(step);
                return Effect::Nothing;
            },
        };
        proof {
            lemma_card_index(self.board.cards@, id@);
        }
        let current = match self.board.card(id.as_str()) {
            Some(c) => c.column.clone(),
            None => {
                self.selected_card = None;
                return Effect::Nothing;
            },
        };
        proof {
            lemma_columns_fit(self.board);
        }
        let next = match self.board.adjacent_column(current.as_str(), step) {
            Some(n) => n,
            None => {
                self.status = Some("card is already at the edge".to_owned());
                return Effect::Nothing;
            },
        };

        match move_card_dispatch(&mut self.board, id.as_str(), next.as_str()) {
            Ok(d) => {
                let done = match &d.step {
                    DispatchStep::Finished { status } => Some(status.clone()),
                    _ => None,
                };
                match done {
                    Some(status) => self.finish_move(id, next, Ok(status)),
                    None => Effect::Move { dispatch: d, card_id: id, column: next },
                }
            },
            Err(err) => self.finish_move(id, next, Err(err)),
        }
    }
}

proof fn lemma_wrap(pos: int, delta: int, m: int, d: int, wrapped: int)
    requires
        m > 0,
        0 <= pos < m,
        delta >= 0 ==> d == delta % m,
        delta < 0 ==> d == (m - (-delta) % m) % m,
        wrapped == (pos + d) % m,
    ensures
        wrapped == (pos + delta) % m,
{
    if delta >= 0 {
        vstd::arithmetic::div_mod::lemma_add_mod_noop(pos, delta, m);
        vstd::arithmetic::div_mod::lemma_small_mod(pos as nat, m as nat);
    } else {
        let a = -delta;
        vstd::arithmetic::div_mod::lemma_fundamental_div_mod(a, m);
        let q = a / m;
        let r = a % m;
        // delta = -(q * m + r), so (pos + delta) % m == (pos - r) % m == (pos + m - r) % m
        vstd::arithmetic::div_mod::lemma_mod_multiples_vanish(-q, pos - r, m);
        assert(pos + delta == -q * m + (pos - r)) by (nonlinear_arith)
            requires
                a == -delta,
                a == m * q + r,
        ;
        vstd::arithmetic::div_mod::lemma_mod_multiples_vanish(1, pos - r, m);
        assert(m + (pos - r) == 1 * m + (pos - r));
        vstd::arithmetic::div_mod::lemma_add_mod_noop(pos, (m - r) % m, m);
        vstd::arithmetic::div_mod::lemma_mod_twice(m - r, m);
        vstd::arithmetic::div_mod::lemma_add_mod_noop(pos, m - r, m);
        vstd::arithmetic::div_mod::lemma_small_mod(pos as nat, m as nat);
    }
}

/// Position of the first card with id `id` among `cards`.
fn position_in(cards: &Vec<&Card>, id: &str) -> (r: Option<usize>)
    ensures
        match r {
            Some(p) => p == card_index(crate::state::card_derefs(cards@), id@) && p < cards@.len(),
            None => card_index(crate::state::card_derefs(cards@), id@) == -1,
        },
{
    let ghost s = crate::state::card_derefs(cards@);
    let len = cards.len();
    assert(s.len() == len);
    let mut i: usize = 0;
    assert(s.take(0) =~= Seq::<Card>::empty());
    while i < len
        invariant
            len == cards@.len(),
            s == crate::state::card_derefs(cards@),
            s.len() == len,
            i <= len,
            card_index(s.take(i as int), id@) == -1,
        decreases len - i,
    {
        assert(s.take(i + 1).drop_last() =~= s.take(i as int));
        assert(s[i as int] == *cards@[i as int]);
        if text_eq(cards[i].id.as_str(), id) {
            proof {
                assert(s.take(i + 1).last() == s[i as int]);
                assert(card_index(s.take(i + 1), id@) == i);
                lemma_index_prefix(s, id@, i + 1);
            }
            return Some(i);
        }
        i = i + 1;
    }
    assert(s.take(len as int) =~= s);
    None
}

proof fn lemma_index_prefix(cards: Seq<Card>, id: Seq<char>, k: int)
    requires
        0 <= k <= cards.len(),
        card_index(cards.take(k), id) >= 0,
    ensures
        card_index(cards, id) == card_index(cards.take(k), id),
    decreases cards.len() - k,
{
    if k < cards.len() {
        assert(cards.drop_last().take(k) =~= cards.take(k));
        lemma_index_prefix(cards.drop_last(), id, k);
    } else {
        assert(cards.take(k) =~= cards);
    }
}

} // verus!
