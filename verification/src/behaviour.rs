//! What single operations do, stated apart from how they are computed: the
//! selection's steps, the title a pane lends a card, where a dispatch opens
//! its pane, which columns dispatch, and what typing in the title editor does.

use vstd::prelude::*;

use crate::commands::pane_title;
use crate::dispatch::{advance_outcome, dispatch_config, Dispatch, DispatchEvent};
use crate::herdr::{pane_listed, Pane};
use crate::state::{card_index, lemma_card_index, slug_index, BoardState, Card, Column};
use crate::tui::{column_cards, is_editor_key, is_selection_moved, opt_view, selected_position, App, Effect, Key, KeyInput};

verus! {

/// No two cards of the sequence share an id.
pub open spec fn ids_distinct(cards: Seq<Card>) -> bool {
    forall|i: int, j: int| 0 <= i < j < cards.len() ==> #[trigger] cards[i].id@ != #[trigger] cards[j].id@
}

proof fn lemma_index_of_distinct(cards: Seq<Card>, q: int)
    requires
        ids_distinct(cards),
        0 <= q < cards.len(),
    ensures
        card_index(cards, cards[q].id@) == q,
{
    lemma_card_index(cards, cards[q].id@);
    assert(crate::state::has_card(cards, cards[q].id@));
    let k = card_index(cards, cards[q].id@);
    if k < q {
        assert(cards[k].id@ == cards[q].id@);
    } else if k > q {
        assert(cards[q].id@ != cards[q].id@);
    }
}

/// Moving the selection back by one selects the card just before the
/// selected one in the focused column, the last one when the first was
/// selected; moving it forward again returns to the card first selected.
pub proof fn law_selection_steps_back(o: App, n: App, m: App)
    requires
        is_selection_moved(o, n, -1),
        is_selection_moved(n, m, 1),
        selected_position(o) >= 0,
        ids_distinct(column_cards(o.board, o.focused_column@)),
    ensures
        ({
            let cs = column_cards(o.board, o.focused_column@);
            let p = selected_position(o);
            &&& opt_view(n.selected_card) == Some(cs[if p == 0 { cs.len() - 1 } else { p - 1 }].id@)
            &&& opt_view(m.selected_card) == opt_view(o.selected_card)
        }),
{
    let cs = column_cards(o.board, o.focused_column@);
    let p = selected_position(o);
    let len = cs.len() as int;
    lemma_card_index(cs, o.selected_card->0@);
    let q = if p == 0 { len - 1 } else { p - 1 };
    if p == 0 {
        assert((0 + -1) % len == len - 1) by (nonlinear_arith)
            requires
                len > 0,
        ;
    } else {
        assert((p + -1) % len == p - 1) by (nonlinear_arith)
            requires
                0 < p < len,
        ;
    }
    lemma_index_of_distinct(cs, q);
    assert(selected_position(n) == q);
    assert((q + 1) % len == p) by (nonlinear_arith)
        requires
            0 <= p < len,
            q == (if p == 0 { len - 1 } else { p - 1 }),
    ;
    assert(cs[p].id@ == o.selected_card->0@);
}

/// Moving the selection forward by one selects the card just after the
/// selected one in the focused column, the first one when the last was
/// selected.
pub proof fn law_selection_steps_forward(o: App, n: App)
    requires
        is_selection_moved(o, n, 1),
        selected_position(o) >= 0,
    ensures
        ({
            let cs = column_cards(o.board, o.focused_column@);
            let p = selected_position(o);
            opt_view(n.selected_card) == Some(cs[if p == cs.len() - 1 { 0 } else { p + 1 }].id@)
        }),
{
    let cs = column_cards(o.board, o.focused_column@);
    let p = selected_position(o);
    let len = cs.len() as int;
    lemma_card_index(cs, o.selected_card->0@);
    assert((p + 1) % len == (if p == len - 1 { 0 } else { p + 1 })) by (nonlinear_arith)
        requires
            0 <= p < len,
    ;
}

/// The title a pane lends a card: its terminal title when it has one; else
/// its stripped title; else, only when it has neither, its working directory;
/// else its id.
pub proof fn law_pane_title_prefers_terminal_title(p: Pane)
    ensures
        p.terminal_title is Some ==> pane_title(p) == p.terminal_title->0,
        p.terminal_title is None && p.terminal_title_stripped is Some ==> pane_title(p)
            == p.terminal_title_stripped->0,
        p.terminal_title is None && p.terminal_title_stripped is None && p.cwd is Some ==> pane_title(p)
            == p.cwd->0,
        p.terminal_title is None && p.terminal_title_stripped is None && p.cwd is None ==> pane_title(p)
            == p.pane_id,
{
}

/// When no live pane can be reused, the dispatch opens its pane where the
/// column says: a new tab for `tab`, a split in the configured direction for
/// any other, and a downward split when none is configured.
pub proof fn law_pane_opens_in_configured_direction(
    d: Dispatch,
    panes: Vec<Pane>,
    nd: Dispatch,
    b: BoardState,
    nb: BoardState,
    r: Result<(), crate::error::BoardError>,
)
    requires
        d.step is ListPanes,
        advance_outcome(d, DispatchEvent::PanesListed(Ok(panes)), nd, b, nb, r),
        !(d.existing_pane is Some && pane_listed(panes@, d.existing_pane->0@)),
    ensures
        match d.split_direction {
            Some(s) => if s@ == "tab"@ {
                nd.step is CreateTab
            } else {
                nd.step is SplitPane && nd.step->direction@ == s@
            },
            None => nd.step is SplitPane && nd.step->direction@ == "down"@,
        },
{
}

/// A column whose dispatch flag is off, or a slug no column carries,
/// triggers no dispatch whatever configuration the column holds; a
/// dispatch-enabled column triggers its configuration when it names an
/// agent.
pub proof fn law_only_enabled_columns_dispatch(columns: Seq<Column>, column: Seq<char>)
    ensures
        ({
            let i = slug_index(columns, column);
            &&& (i < 0 || !columns[i].dispatch_enabled) ==> dispatch_config(columns, column) is None
            &&& (i >= 0 && columns[i].dispatch_enabled && columns[i].dispatch is Some
                && columns[i].dispatch->0.agent@.len() > 0) ==> dispatch_config(columns, column)
                == columns[i].dispatch
        }),
{
}

/// In the title editor a character pressed without Control or another
/// modifier, Shift held or not, is appended to the text, and nothing else
/// changes.
pub proof fn law_editor_appends_typed_characters(o: App, n: App, e: Effect, k: KeyInput, c: char)
    requires
        is_editor_key(o, n, e, k),
        k.key == Key::Char(c),
        !k.control,
        !k.other_modifiers,
    ensures
        n.input@ == o.input@.push(c),
        n.board == o.board,
        n.mode == o.mode,
        n.selected_card == o.selected_card,
        n.focused_column == o.focused_column,
        e is Nothing,
{
}

} // verus!
