//! Properties of the board that span its operations.

use vstd::prelude::*;

use crate::commands::{agent_listed, is_refreshed, link_is_live, refresh_changes};
use crate::herdr::{pane_listed, Agent, Pane};
use crate::persist::saved_revision;
use crate::sorting::{
    is_ordered_by, lemma_stable_sorted_is_ordered, lemma_stable_sorted_is_permutation,
    lemma_stable_sorted_of_ordered, stable_sorted,
};
use crate::state::{
    adjacent_slug, card_board_lt, card_board_order, card_column_order, cards_of_column,
    cards_without, column_board_order, column_max_order, column_position_order, has_card,
    lemma_card_board_order_strict, lemma_card_column_order_strict, lemma_column_board_order_strict,
    next_order, ordered, slug_index, Card, Column,
};
use crate::dispatch::{placement_kept, step_rank, Dispatch};
use crate::state::BoardState;
use crate::tui::{is_action_run, is_board_key, Action, App, Effect, Key, KeyInput, Mode};

verus! {

/// Sorting the cards into board order yields the same cards, each as often,
/// ordered by column, then position, then id; sorting them again changes
/// nothing.
pub proof fn law_card_sort_orders_and_keeps_cards(cards: Seq<Card>)
    ensures
        is_ordered_by(stable_sorted(cards, card_board_order()), card_board_order()),
        stable_sorted(cards, card_board_order()).to_multiset() == cards.to_multiset(),
        stable_sorted(stable_sorted(cards, card_board_order()), card_board_order()) == stable_sorted(
            cards,
            card_board_order(),
        ),
{
    lemma_card_board_order_strict();
    lemma_stable_sorted_is_ordered(cards, card_board_order());
    lemma_stable_sorted_is_permutation(cards, card_board_order());
    lemma_stable_sorted_of_ordered(stable_sorted(cards, card_board_order()), card_board_order());
}

/// The cards of a column, as listed, are exactly that column's cards, ordered
/// by position then id.
pub proof fn law_column_cards_ordered(cards: Seq<Card>, column: Seq<char>)
    ensures
        is_ordered_by(stable_sorted(cards_of_column(cards, column), card_column_order()), card_column_order()),
        stable_sorted(cards_of_column(cards, column), card_column_order()).to_multiset()
            == cards_of_column(cards, column).to_multiset(),
        forall|i: int| 0 <= i < cards_of_column(cards, column).len()
            ==> (#[trigger] cards_of_column(cards, column)[i]).column@ == column,
{
    lemma_card_column_order_strict();
    lemma_stable_sorted_is_ordered(cards_of_column(cards, column), card_column_order());
    lemma_stable_sorted_is_permutation(cards_of_column(cards, column), card_column_order());
    lemma_cards_of_column_members(cards, column);
}

proof fn lemma_cards_of_column_members(cards: Seq<Card>, column: Seq<char>)
    ensures
        forall|i: int| 0 <= i < cards_of_column(cards, column).len()
            ==> (#[trigger] cards_of_column(cards, column)[i]).column@ == column,
    decreases cards.len(),
{
    if cards.len() > 0 {
        lemma_cards_of_column_members(cards.drop_last(), column);
    }
}

/// The display order of columns holds every column, each as often, ordered
/// by position then slug; ordering again changes nothing. Sorting by position
/// alone likewise keeps the columns and orders them.
pub proof fn law_column_orders(columns: Seq<Column>)
    ensures
        is_ordered_by(ordered(columns), column_board_order()),
        ordered(columns).to_multiset() == columns.to_multiset(),
        ordered(ordered(columns)) == ordered(columns),
        is_ordered_by(stable_sorted(columns, column_position_order()), column_position_order()),
        stable_sorted(columns, column_position_order()).to_multiset() == columns.to_multiset(),
{
    lemma_column_board_order_strict();
    lemma_stable_sorted_is_ordered(columns, column_board_order());
    lemma_stable_sorted_is_permutation(columns, column_board_order());
    lemma_stable_sorted_of_ordered(ordered(columns), column_board_order());
    lemma_stable_sorted_is_ordered(columns, column_position_order());
    lemma_stable_sorted_is_permutation(columns, column_position_order());
}

/// The position given to a card appended to a column is above that of every
/// card already in the column, and only one above the highest; a column
/// without cards starts at 0.
#[verifier::spinoff_prover]
pub proof fn law_next_order_appends(cards: Seq<Card>, column: Seq<char>)
    ensures
        forall|i: int| 0 <= i < cards.len() && #[trigger] cards[i].column@ == column ==> cards[i].order
            < next_order(cards, column),
        column_max_order(cards, column) is Some ==> exists|i: int| 0 <= i < cards.len() && #[trigger] cards[i].column@
            == column && cards[i].order == next_order(cards, column) - 1,
        column_max_order(cards, column) is None ==> next_order(cards, column) == 0 && forall|i: int| 0 <= i < cards.len()
            ==> #[trigger] cards[i].column@ != column,
    decreases cards.len(),
{
    if cards.len() > 0 {
        let init = cards.drop_last();
        law_next_order_appends(init, column);
        assert forall|i: int| 0 <= i < init.len() implies #[trigger] init[i] == cards[i] by {}
        let last = cards.last();
        assert(cards[cards.len() - 1] == last);
        match column_max_order(init, column) {
            Some(m) => {
                let w = choose|i: int| 0 <= i < init.len() && #[trigger] init[i].column@ == column && init[i].order
                    == next_order(init, column) - 1;
                assert(cards[w] == init[w]);
                if last.column@ == column && last.order > m {
                    assert(cards[cards.len() - 1].order == next_order(cards, column) - 1);
                }
            },
            None => {},
        }
        if column_max_order(init, column) is Some {
            assert(next_order(init, column) <= next_order(cards, column));
        }
        assert forall|i: int| 0 <= i < cards.len() && #[trigger] cards[i].column@ == column implies cards[i].order
            < next_order(cards, column) by {
            if i < init.len() {
                assert(init[i] == cards[i]);
                assert(init[i].column@ == column);
                assert(column_max_order(init, column) is Some);
                assert(init[i].order < next_order(init, column));
                assert(next_order(init, column) <= next_order(cards, column));
            } else {
                assert(cards[i] == last);
                assert(column_max_order(cards, column) is Some);
            }
        }
        if column_max_order(cards, column) is None {
            assert(last.column@ != column);
            assert(column_max_order(init, column) is None);
            assert forall|i: int| 0 <= i < cards.len() implies #[trigger] cards[i].column@ != column by {
                if i < init.len() {
                    assert(init[i] == cards[i]);
                    assert(init[i].column@ != column);
                } else {
                    assert(cards[i] == last);
                }
            }
        }
    }
}

/// After removing the cards with id `id` none is left, every other card stays
/// in its order, and removing again changes nothing.
#[verifier::spinoff_prover]
pub proof fn law_remove_card(cards: Seq<Card>, id: Seq<char>)
    ensures
        !has_card(cards_without(cards, id), id),
        cards_without(cards_without(cards, id), id) == cards_without(cards, id),
        !has_card(cards, id) ==> cards_without(cards, id) == cards,
    decreases cards.len(),
{
    if cards.len() > 0 {
        let init = cards.drop_last();
        law_remove_card(init, id);
        let rest = cards_without(init, id);
        if cards.last().id@ != id {
            let r = rest.push(cards.last());
            assert(r.drop_last() =~= rest);
            assert forall|i: int| 0 <= i < r.len() implies #[trigger] r[i].id@ != id by {
                if i < rest.len() {
                    assert(r[i] == rest[i]);
                }
            }
        }
        if !has_card(cards, id) {
            assert forall|i: int| 0 <= i < init.len() implies #[trigger] init[i].id@ != id by {
                assert(init[i] == cards[i]);
            }
            assert(cards.last().id@ != id) by {
                assert(cards[cards.len() - 1] == cards.last());
            }
            assert(init.push(cards.last()) =~= cards);
        }
    }
}

proof fn lemma_slug_index_of_distinct(cols: Seq<Column>, i: int)
    requires
        0 <= i < cols.len(),
        forall|a: int, b: int| 0 <= a < b < cols.len() ==> #[trigger] cols[a].slug@ != #[trigger] cols[b].slug@,
    ensures
        slug_index(cols, cols[i].slug@) == i,
    decreases cols.len(),
{
    let init = cols.drop_last();
    if i < cols.len() - 1 {
        assert forall|a: int, b: int| 0 <= a < b < init.len() implies #[trigger] init[a].slug@ != #[trigger] init[b].slug@ by {
            assert(init[a] == cols[a] && init[b] == cols[b]);
        }
        assert(init[i] == cols[i]);
        lemma_slug_index_of_distinct(init, i);
    } else {
        lemma_slug_index_absent(init, cols[i].slug@);
    }
}

proof fn lemma_slug_index_absent(cols: Seq<Column>, slug: Seq<char>)
    requires
        forall|a: int| 0 <= a < cols.len() ==> #[trigger] cols[a].slug@ != slug,
    ensures
        slug_index(cols, slug) == -1,
    decreases cols.len(),
{
    if cols.len() > 0 {
        let init = cols.drop_last();
        assert forall|a: int| 0 <= a < init.len() implies #[trigger] init[a].slug@ != slug by {
            assert(init[a] == cols[a]);
        }
        lemma_slug_index_absent(init, slug);
        assert(cols[cols.len() - 1] == cols.last());
    }
}

proof fn lemma_slug_index_found(cols: Seq<Column>, slug: Seq<char>)
    ensures
        -1 <= slug_index(cols, slug) < cols.len(),
        slug_index(cols, slug) >= 0 ==> cols[slug_index(cols, slug)].slug@ == slug,
    decreases cols.len(),
{
    if cols.len() > 0 {
        lemma_slug_index_found(cols.drop_last(), slug);
    }
}

/// On a board whose slugs are distinct, stepping back from the neighbour a
/// step away returns to the start: moving a card right then left puts it
/// back in its column.
pub proof fn law_adjacent_column_round_trip(columns: Seq<Column>, slug: Seq<char>, step: int, other: Seq<char>)
    requires
        forall|a: int, b: int| 0 <= a < b < columns.len() ==> #[trigger] columns[a].slug@ != #[trigger] columns[b].slug@,
        adjacent_slug(columns, slug, step) == Some(other),
    ensures
        adjacent_slug(columns, other, -step) == Some(slug),
{
    let cols = ordered(columns);
    lemma_column_board_order_strict();
    lemma_stable_sorted_is_permutation(columns, column_board_order());
    lemma_ordered_slugs_distinct(columns);
    lemma_slug_index_found(cols, slug);
    let pos = slug_index(cols, slug);
    lemma_slug_index_of_distinct(cols, pos + step);
}

/// The display order keeps slugs distinct when the columns' slugs are.
proof fn lemma_ordered_slugs_distinct(columns: Seq<Column>)
    requires
        forall|a: int, b: int| 0 <= a < b < columns.len() ==> #[trigger] columns[a].slug@ != #[trigger] columns[b].slug@,
    ensures
        forall|a: int, b: int| 0 <= a < b < ordered(columns).len() ==> #[trigger] ordered(columns)[a].slug@
            != #[trigger] ordered(columns)[b].slug@,
{
    let cols = ordered(columns);
    lemma_stable_sorted_is_permutation(columns, column_board_order());
    assert forall|a: int, b: int| 0 <= a < b < cols.len() implies #[trigger] cols[a].slug@ != #[trigger] cols[b].slug@ by {
        lemma_multiset_two_positions(columns, cols, a, b);
    }
}

/// A permutation of columns with distinct slugs has distinct slugs.
proof fn lemma_multiset_two_positions(s: Seq<Column>, t: Seq<Column>, a: int, b: int)
    requires
        t.to_multiset() == s.to_multiset(),
        0 <= a < b < t.len(),
        forall|x: int, y: int| 0 <= x < y < s.len() ==> #[trigger] s[x].slug@ != #[trigger] s[y].slug@,
    ensures
        t[a].slug@ != t[b].slug@,
{
    let slug = t[a].slug@;
    lemma_count_matching_le_one(s, slug);
    lemma_count_matching_multiset(s, t, slug);
    if t[b].slug@ == slug {
        lemma_count_matching_ge_two(t, slug, a, b);
    }
}

/// Number of columns with slug `slug`.
spec fn count_slug(s: Seq<Column>, slug: Seq<char>) -> nat
    decreases s.len(),
{
    if s.len() == 0 {
        0
    } else {
        count_slug(s.drop_last(), slug) + if s.last().slug@ == slug { 1nat } else { 0nat }
    }
}

proof fn lemma_count_matching_le_one(s: Seq<Column>, slug: Seq<char>)
    requires
        forall|x: int, y: int| 0 <= x < y < s.len() ==> #[trigger] s[x].slug@ != #[trigger] s[y].slug@,
    ensures
        count_slug(s, slug) <= 1,
        count_slug(s, slug) == 1 ==> exists|x: int| 0 <= x < s.len() && #[trigger] s[x].slug@ == slug,
    decreases s.len(),
{
    if s.len() > 0 {
        let init = s.drop_last();
        assert forall|x: int, y: int| 0 <= x < y < init.len() implies #[trigger] init[x].slug@ != #[trigger] init[y].slug@ by {
            assert(init[x] == s[x] && init[y] == s[y]);
        }
        lemma_count_matching_le_one(init, slug);
        if count_slug(init, slug) == 1 {
            let x = choose|x: int| 0 <= x < init.len() && #[trigger] init[x].slug@ == slug;
            assert(s[x] == init[x]);
            assert(s[s.len() - 1] == s.last());
        }
        if s.last().slug@ == slug {
            assert(s[s.len() - 1] == s.last());
        }
        if count_slug(init, slug) == 0 && s.last().slug@ != slug {
        }
    }
}

proof fn lemma_count_positive(s: Seq<Column>, slug: Seq<char>, x: int)
    requires
        0 <= x < s.len(),
        s[x].slug@ == slug,
    ensures
        count_slug(s, slug) >= 1,
        count_slug(s.take(x), slug) + 1 <= count_slug(s, slug),
    decreases s.len(),
{
    if x < s.len() - 1 {
        let init = s.drop_last();
        assert(init[x] == s[x]);
        assert(init.take(x) =~= s.take(x));
        lemma_count_positive(init, slug, x);
    } else {
        assert(s.drop_last() =~= s.take(x));
    }
}

proof fn lemma_count_matching_ge_two(t: Seq<Column>, slug: Seq<char>, a: int, b: int)
    requires
        0 <= a < b < t.len(),
        t[a].slug@ == slug,
        t[b].slug@ == slug,
    ensures
        count_slug(t, slug) >= 2,
{
    let pre = t.take(b);
    assert(pre[a] == t[a]);
    lemma_count_positive(pre, slug, a);
    lemma_count_positive(t, slug, b);
}

/// The number of columns with a slug is what the multiset counts of them.
proof fn lemma_count_slug_multiset(s: Seq<Column>, slug: Seq<char>)
    ensures
        count_slug(s, slug) == s.to_multiset().filter(|c: Column| c.slug@ == slug).len(),
    decreases s.len(),
{
    broadcast use vstd::seq_lib::group_to_multiset_ensures;
    broadcast use vstd::multiset::group_multiset_axioms;
    let f = |c: Column| c.slug@ == slug;
    if s.len() == 0 {
        assert(s.to_multiset() =~= vstd::multiset::Multiset::empty());
        assert(s.to_multiset().filter(f) =~= vstd::multiset::Multiset::empty());
    } else {
        let init = s.drop_last();
        lemma_count_slug_multiset(init, slug);
        assert(init.push(s.last()) =~= s);
        assert(s.to_multiset() == init.to_multiset().insert(s.last()));
        if f(s.last()) {
            assert(s.to_multiset().filter(f) =~= init.to_multiset().filter(f).insert(s.last()));
        } else {
            assert(s.to_multiset().filter(f) =~= init.to_multiset().filter(f));
        }
    }
}

proof fn lemma_count_matching_multiset(s: Seq<Column>, t: Seq<Column>, slug: Seq<char>)
    requires
        t.to_multiset() == s.to_multiset(),
    ensures
        count_slug(s, slug) == count_slug(t, slug),
{
    lemma_count_slug_multiset(s, slug);
    lemma_count_slug_multiset(t, slug);
}

/// A save succeeds exactly when the stored revision is the loaded one, and
/// then moves the revision strictly forward (but at `u64::MAX`, where it
/// stays).
pub proof fn law_save_advances_revision(loaded: u64, on_disk: u64)
    ensures
        saved_revision(loaded, on_disk) is Some <==> on_disk == loaded,
        saved_revision(loaded, on_disk) matches Some(n) ==> (n > loaded || loaded == u64::MAX),
{
}

/// Two writers that loaded the same revision cannot both save: once the
/// first has saved, the second is refused as a concurrent modification.
pub proof fn law_stale_save_rejected(base: u64)
    requires
        base < u64::MAX,
    ensures
        saved_revision(base, base) matches Some(n) && saved_revision(base, n) is None,
{
}

/// After a refresh every card's pane link is live, and an agent name is kept
/// only on a live link and for an agent that is still listed; refreshing again
/// changes nothing.
pub proof fn law_refresh_leaves_live_links(old: Card, new: Card, panes: Seq<Pane>, agents: Seq<Agent>)
    requires
        is_refreshed(old, new, panes, agents),
    ensures
        new.pane_id matches Some(p) ==> pane_listed(panes, p@),
        new.agent_name matches Some(n) ==> agent_listed(agents, n@) && link_is_live(new, panes),
        !refresh_changes(new, panes, agents),
{
}

/// The plain key press that runs an on-screen button's action.
pub open spec fn action_key(a: Action) -> KeyInput {
    let c = match a {
        Action::NewCard => 'n',
        Action::MoveLeft => 'h',
        Action::MoveRight => 'l',
        Action::Edit => 'e',
        Action::Archive => 'd',
        Action::FocusPane => 'f',
    };
    KeyInput { key: Key::Char(c), press: true, shift: false, control: false, other_modifiers: false }
}

/// Every on-screen button's action is reachable by the keyboard alone: on
/// the board, pressing the action's key does exactly what the button does.
pub proof fn law_every_action_has_a_key(o: App, n: App, e: Effect, a: Action)
    requires
        o.mode == Mode::Normal,
    ensures
        is_board_key(o, n, e, action_key(a)) == is_action_run(o, n, e, a),
{
}

/// However many steps a dispatch takes and whatever Herdr reports in them,
/// every card keeps the id, column and position it had when the dispatch
/// began: a moved card stays moved.
pub proof fn law_dispatch_keeps_placement(boards: Seq<BoardState>)
    requires
        boards.len() > 0,
        forall|i: int| 0 <= i < boards.len() - 1 ==> placement_kept(#[trigger] boards[i], boards[i + 1]),
    ensures
        placement_kept(boards[0], boards.last()),
    decreases boards.len(),
{
    if boards.len() > 1 {
        let init = boards.drop_last();
        assert forall|i: int| 0 <= i < init.len() - 1 implies placement_kept(#[trigger] init[i], init[i + 1]) by {
            assert(init[i] == boards[i] && init[i + 1] == boards[i + 1]);
        }
        law_dispatch_keeps_placement(init);
        assert(placement_kept(boards[boards.len() - 2], boards.last()));
        let a = boards[0];
        let b = boards[boards.len() - 2];
        let c = boards.last();
        assert forall|j: int| 0 <= j < a.cards@.len() implies {
            &&& (#[trigger] c.cards@[j]).id == a.cards@[j].id
            &&& c.cards@[j].column == a.cards@[j].column
            &&& c.cards@[j].order == a.cards@[j].order
        } by {
            assert(b.cards@[j].id == a.cards@[j].id);
        }
    }
}

/// A dispatch ends: along a run of dispatch states in which each awaited
/// event was handled without an error, the run is at most six states long.
pub proof fn law_dispatch_ends(run: Seq<Dispatch>)
    requires
        forall|i: int| 0 <= i < run.len() - 1 ==> step_rank((#[trigger] run[i + 1]).step) < step_rank(run[i].step),
    ensures
        run.len() > 0 ==> run.len() <= step_rank(run[0].step) + 1,
        run.len() <= 6,
    decreases run.len(),
{
    if run.len() > 1 {
        let rest = run.drop_first();
        assert forall|i: int| 0 <= i < rest.len() - 1 implies step_rank((#[trigger] rest[i + 1]).step) < step_rank(
            rest[i].step,
        ) by {
            assert(rest[i + 1] == run[i + 2] && rest[i] == run[i + 1]);
        }
        law_dispatch_ends(rest);
        assert(rest[0] == run[1]);
        assert(step_rank(run[1].step) < step_rank(run[0].step));
        assert(step_rank(run[0].step) <= 5);
    } else if run.len() == 1 {
        assert(step_rank(run[0].step) <= 5);
    }
}

} // verus!
