//! The board: cards, columns, their ordering and the operations on them.

use vstd::prelude::*;

use crate::clock::unix_time;
use crate::error::BoardError;
use crate::sorting::{
    is_ordered_by, is_strict_order, lemma_stable_sorted_is_ordered,
    lemma_stable_sorted_is_permutation, lemma_stable_sorted_map, lemma_stable_sorted_of_ordered,
    sort_stable, stable_sorted,
};
use crate::text::{copy_text_opt, hex_digits, hex_text, joined, lemma_text_lt_irreflexive,
    lemma_text_lt_transitive, text_eq, text_less, text_lt};

verus! {

/// A single card on the board.
#[derive(Debug, PartialEq, Eq)]
pub struct Card {
    pub id: String,
    pub title: String,
    /// Slug of the column the card belongs to.
    pub column: String,
    /// Position of the card within its column (lower sorts first).
    pub order: i64,
    /// Associated Herdr pane id, if any.
    pub pane_id: Option<String>,
    /// Associated agent name, if any.
    pub agent_name: Option<String>,
    /// Agent kind that overrides the column's configured agent on dispatch.
    pub target_agent: Option<String>,
    /// Command run in the pane before the agent starts on dispatch.
    pub pre_command: Option<String>,
    /// Long-form description used as dispatch prompt content.
    pub description: String,
    /// Unix epoch seconds.
    pub created_at: u64,
    /// Unix epoch seconds.
    pub updated_at: u64,
}

/// Per-column agent dispatch configuration.
#[derive(Debug, PartialEq, Eq)]
pub struct DispatchConfig {
    /// Agent kind to start (e.g. `codex`, `copilot`).
    pub agent: String,
    /// Prompt template; `{title}` and `{description}` are substituted from the
    /// card. Without one, the card's title and description are sent.
    pub prompt: Option<String>,
    /// Where a new pane is opened: `tab` for a new tab, otherwise a split
    /// direction (`down` when absent).
    pub split_direction: Option<String>,
    /// Command run in the pane before the agent starts.
    pub pre_command: Option<String>,
}

/// A column on the board.
#[derive(Debug, PartialEq, Eq)]
pub struct Column {
    pub slug: String,
    pub title: String,
    pub dispatch_enabled: bool,
    /// Dispatch configuration applied when `dispatch_enabled` is set. A column
    /// that is enabled but has no configuration, or an empty agent, dispatches
    /// nothing.
    pub dispatch: Option<DispatchConfig>,
    /// Position of the column on the board (lower sorts first).
    pub order: i64,
}

/// The whole board as it is persisted.
#[derive(Debug, PartialEq, Eq)]
pub struct BoardState {
    /// Monotonic revision counter used for optimistic concurrency.
    pub revision: u64,
    pub cards: Vec<Card>,
    pub columns: Vec<Column>,
}

impl Clone for Card {
    fn clone(&self) -> (r: Self)
        ensures
            r == *self,
    {
        Card {
            id: self.id.clone(),
            title: self.title.clone(),
            column: self.column.clone(),
            order: self.order,
            pane_id: copy_text_opt(&self.pane_id),
            agent_name: copy_text_opt(&self.agent_name),
            target_agent: copy_text_opt(&self.target_agent),
            pre_command: copy_text_opt(&self.pre_command),
            description: self.description.clone(),
            created_at: self.created_at,
            updated_at: self.updated_at,
        }
    }
}

impl Clone for DispatchConfig {
    fn clone(&self) -> (r: Self)
        ensures
            r == *self,
    {
        DispatchConfig {
            agent: self.agent.clone(),
            prompt: copy_text_opt(&self.prompt),
            split_direction: copy_text_opt(&self.split_direction),
            pre_command: copy_text_opt(&self.pre_command),
        }
    }
}

impl Clone for Column {
    fn clone(&self) -> (r: Self)
        ensures
            r == *self,
    {
        Column {
            slug: self.slug.clone(),
            title: self.title.clone(),
            dispatch_enabled: self.dispatch_enabled,
            dispatch: match &self.dispatch {
                Some(d) => Some(d.clone()),
                None => None,
            },
            order: self.order,
        }
    }
}

// ---------------------------------------------------------------------------
// Orders
// ---------------------------------------------------------------------------

/// Board order of cards: by column slug, then position, then id.
pub open spec fn card_board_lt(a: Card, b: Card) -> bool {
    ||| text_lt(a.column@, b.column@)
    ||| a.column@ == b.column@ && a.order < b.order
    ||| a.column@ == b.column@ && a.order == b.order && text_lt(a.id@, b.id@)
}

/// Order of cards within a column: by position, then id.
pub open spec fn card_column_lt(a: Card, b: Card) -> bool {
    ||| a.order < b.order
    ||| a.order == b.order && text_lt(a.id@, b.id@)
}

/// Display order of columns: by position, then slug.
pub open spec fn column_board_lt(a: Column, b: Column) -> bool {
    ||| a.order < b.order
    ||| a.order == b.order && text_lt(a.slug@, b.slug@)
}

/// Order of columns by position alone.
pub open spec fn column_position_lt(a: Column, b: Column) -> bool {
    a.order < b.order
}

pub open spec fn card_board_order() -> spec_fn(Card, Card) -> bool {
    |a: Card, b: Card| card_board_lt(a, b)
}

pub open spec fn card_column_order() -> spec_fn(Card, Card) -> bool {
    |a: Card, b: Card| card_column_lt(a, b)
}

pub open spec fn column_board_order() -> spec_fn(Column, Column) -> bool {
    |a: Column, b: Column| column_board_lt(a, b)
}

pub open spec fn column_position_order() -> spec_fn(Column, Column) -> bool {
    |a: Column, b: Column| column_position_lt(a, b)
}

pub proof fn lemma_card_board_order_strict()
    ensures
        is_strict_order(card_board_order()),
{
    let lt = card_board_order();
    assert forall|a: Card| !#[trigger] lt(a, a) by {
        lemma_text_lt_irreflexive(a.column@);
        lemma_text_lt_irreflexive(a.id@);
    }
    assert forall|a: Card, b: Card, c: Card| #[trigger] lt(a, b) && #[trigger] lt(b, c) implies lt(a, c) by {
        if text_lt(a.column@, b.column@) && text_lt(b.column@, c.column@) {
            lemma_text_lt_transitive(a.column@, b.column@, c.column@);
        }
        if a.column@ == b.column@ && b.column@ == c.column@ && a.order == b.order && b.order == c.order
            && text_lt(a.id@, b.id@) && text_lt(b.id@, c.id@) {
            lemma_text_lt_transitive(a.id@, b.id@, c.id@);
        }
    }
}

pub proof fn lemma_card_column_order_strict()
    ensures
        is_strict_order(card_column_order()),
{
    let lt = card_column_order();
    assert forall|a: Card| !#[trigger] lt(a, a) by {
        lemma_text_lt_irreflexive(a.id@);
    }
    assert forall|a: Card, b: Card, c: Card| #[trigger] lt(a, b) && #[trigger] lt(b, c) implies lt(a, c) by {
        if a.order == b.order && b.order == c.order && text_lt(a.id@, b.id@) && text_lt(b.id@, c.id@) {
            lemma_text_lt_transitive(a.id@, b.id@, c.id@);
        }
    }
}

pub proof fn lemma_column_board_order_strict()
    ensures
        is_strict_order(column_board_order()),
{
    let lt = column_board_order();
    assert forall|a: Column| !#[trigger] lt(a, a) by {
        lemma_text_lt_irreflexive(a.slug@);
    }
    assert forall|a: Column, b: Column, c: Column| #[trigger] lt(a, b) && #[trigger] lt(b, c) implies lt(a, c) by {
        if a.order == b.order && b.order == c.order && text_lt(a.slug@, b.slug@) && text_lt(b.slug@, c.slug@) {
            lemma_text_lt_transitive(a.slug@, b.slug@, c.slug@);
        }
    }
}

fn card_board_less(a: &Card, b: &Card) -> (r: bool)
    ensures
        r == card_board_lt(*a, *b),
{
    if text_less(a.column.as_str(), b.column.as_str()) {
        true
    } else if text_eq(a.column.as_str(), b.column.as_str()) {
        a.order < b.order || (a.order == b.order && text_less(a.id.as_str(), b.id.as_str()))
    } else {
        false
    }
}

fn card_column_less(a: &Card, b: &Card) -> (r: bool)
    ensures
        r == card_column_lt(*a, *b),
{
    a.order < b.order || (a.order == b.order && text_less(a.id.as_str(), b.id.as_str()))
}

fn column_position_less(a: &Column, b: &Column) -> (r: bool)
    ensures
        r == column_position_lt(*a, *b),
{
    a.order < b.order
}

fn column_ref_board_less(a: &&Column, b: &&Column) -> (r: bool)
    ensures
        r == column_board_lt(**a, **b),
{
    column_board_less(*a, *b)
}

fn card_ref_column_less(a: &&Card, b: &&Card) -> (r: bool)
    ensures
        r == card_column_lt(**a, **b),
{
    card_column_less(*a, *b)
}

fn column_board_less(a: &Column, b: &Column) -> (r: bool)
    ensures
        r == column_board_lt(*a, *b),
{
    a.order < b.order || (a.order == b.order && text_less(a.slug.as_str(), b.slug.as_str()))
}

// ---------------------------------------------------------------------------
// Views over the cards
// ---------------------------------------------------------------------------

/// The largest position among the cards of `column`, if it has any.
pub open spec fn column_max_order(cards: Seq<Card>, column: Seq<char>) -> Option<i64>
    decreases cards.len(),
{
    if cards.len() == 0 {
        None
    } else {
        let rest = column_max_order(cards.drop_last(), column);
        let c = cards.last();
        if c.column@ == column {
            match rest {
                Some(m) => Some(if c.order > m { c.order } else { m }),
                None => Some(c.order),
            }
        } else {
            rest
        }
    }
}

/// The position a card appended to `column` receives: one past the largest
/// position in the column, or 0 for an empty column.
pub open spec fn next_order(cards: Seq<Card>, column: Seq<char>) -> int {
    match column_max_order(cards, column) {
        Some(m) => m + 1,
        None => 0,
    }
}

/// Index of the first card with id `id`, or -1 when there is none.
pub open spec fn card_index(cards: Seq<Card>, id: Seq<char>) -> int
    decreases cards.len(),
{
    if cards.len() == 0 {
        -1
    } else {
        let k = card_index(cards.drop_last(), id);
        if k >= 0 {
            k
        } else if cards.last().id@ == id {
            cards.len() - 1
        } else {
            -1
        }
    }
}

/// Whether some card carries id `id`.
pub open spec fn has_card(cards: Seq<Card>, id: Seq<char>) -> bool {
    exists|i: int| 0 <= i < cards.len() && #[trigger] cards[i].id@ == id
}

/// The cards of `column`, in board order of storage.
pub open spec fn cards_of_column(cards: Seq<Card>, column: Seq<char>) -> Seq<Card>
    decreases cards.len(),
{
    if cards.len() == 0 {
        cards
    } else {
        let rest = cards_of_column(cards.drop_last(), column);
        if cards.last().column@ == column {
            rest.push(cards.last())
        } else {
            rest
        }
    }
}

/// The cards whose id is not `id`, in their order.
pub open spec fn cards_without(cards: Seq<Card>, id: Seq<char>) -> Seq<Card>
    decreases cards.len(),
{
    if cards.len() == 0 {
        cards
    } else {
        let rest = cards_without(cards.drop_last(), id);
        if cards.last().id@ == id {
            rest
        } else {
            rest.push(cards.last())
        }
    }
}

pub open spec fn card_derefs<'a>(s: Seq<&'a Card>) -> Seq<Card> {
    s.map_values(|r: &'a Card| *r)
}

pub open spec fn column_derefs<'a>(s: Seq<&'a Column>) -> Seq<Column> {
    s.map_values(|r: &'a Column| *r)
}

/// Columns in display order.
pub open spec fn ordered(columns: Seq<Column>) -> Seq<Column> {
    stable_sorted(columns, column_board_order())
}

/// Index of the first column with slug `slug` in `columns`, or -1.
pub open spec fn slug_index(columns: Seq<Column>, slug: Seq<char>) -> int
    decreases columns.len(),
{
    if columns.len() == 0 {
        -1
    } else {
        let k = slug_index(columns.drop_last(), slug);
        if k >= 0 {
            k
        } else if columns.last().slug@ == slug {
            columns.len() - 1
        } else {
            -1
        }
    }
}

/// The slug of the column `step` places away from `slug` in display order.
pub open spec fn adjacent_slug(columns: Seq<Column>, slug: Seq<char>, step: int) -> Option<Seq<char>> {
    let cols = ordered(columns);
    let pos = slug_index(cols, slug);
    if pos < 0 || pos + step < 0 || pos + step >= cols.len() {
        None
    } else {
        Some(cols[pos + step].slug@)
    }
}

pub proof fn lemma_card_index(cards: Seq<Card>, id: Seq<char>)
    ensures
        -1 <= card_index(cards, id) < cards.len(),
        card_index(cards, id) >= 0 ==> cards[card_index(cards, id)].id@ == id,
        forall|j: int| 0 <= j < card_index(cards, id) ==> #[trigger] cards[j].id@ != id,
        card_index(cards, id) == -1 <==> !has_card(cards, id),
    decreases cards.len(),
{
    if cards.len() > 0 {
        let init = cards.drop_last();
        lemma_card_index(init, id);
        assert forall|j: int| 0 <= j < init.len() implies #[trigger] init[j] == cards[j] by {}
        if card_index(init, id) == -1 && cards.last().id@ != id {
            assert forall|i: int| 0 <= i < cards.len() implies #[trigger] cards[i].id@ != id by {
                if i < init.len() {
                    assert(init[i] == cards[i]);
                    assert(!has_card(init, id));
                }
            }
        }
        if card_index(init, id) == -1 && cards.last().id@ == id {
            assert forall|j: int| 0 <= j < cards.len() - 1 implies #[trigger] cards[j].id@ != id by {
                assert(init[j] == cards[j]);
                assert(!has_card(init, id));
            }
        }
        if card_index(init, id) >= 0 {
            let k = card_index(init, id);
            assert forall|j: int| 0 <= j < k implies #[trigger] cards[j].id@ != id by {
                assert(init[j] == cards[j]);
            }
            assert(has_card(cards, id)) by {
                let k = card_index(init, id);
                assert(cards[k].id@ == id);
            }
        }
    }
}

proof fn lemma_card_index_prefix(cards: Seq<Card>, id: Seq<char>, k: int)
    requires
        0 <= k <= cards.len(),
        card_index(cards.take(k), id) >= 0,
    ensures
        card_index(cards, id) == card_index(cards.take(k), id),
    decreases cards.len() - k,
{
    if k < cards.len() {
        let init = cards.drop_last();
        assert(init.take(k) =~= cards.take(k));
        lemma_card_index_prefix(init, id, k);
    } else {
        assert(cards.take(k) =~= cards);
    }
}

pub(crate) proof fn lemma_slug_index_prefix(columns: Seq<Column>, slug: Seq<char>, k: int)
    requires
        0 <= k <= columns.len(),
        slug_index(columns.take(k), slug) >= 0,
    ensures
        slug_index(columns, slug) == slug_index(columns.take(k), slug),
    decreases columns.len() - k,
{
    if k < columns.len() {
        let init = columns.drop_last();
        assert(init.take(k) =~= columns.take(k));
        lemma_slug_index_prefix(init, slug, k);
    } else {
        assert(columns.take(k) =~= columns);
    }
}

/// Finds the first card whose id is `id`.
pub(crate) fn find_card(cards: &Vec<Card>, id: &str) -> (r: Option<usize>)
    ensures
        match r {
            Some(i) => i == card_index(cards@, id@),
            None => card_index(cards@, id@) == -1,
        },
{
    let n = cards.len();
    let mut i: usize = 0;
    assert(cards@.take(0) =~= Seq::<Card>::empty());
    while i < n
        invariant
            n == cards@.len(),
            i <= n,
            card_index(cards@.take(i as int), id@) == -1,
        decreases n - i,
    {
        assert(cards@.take(i + 1).drop_last() =~= cards@.take(i as int));
        if text_eq(cards[i].id.as_str(), id) {
            proof {
                lemma_card_index_prefix(cards@, id@, i + 1);
            }
            return Some(i);
        }
        i = i + 1;
    }
    assert(cards@.take(n as int) =~= cards@);
    None
}

/// Finds the first column whose slug is `slug`.
pub(crate) fn find_column(columns: &Vec<Column>, slug: &str) -> (r: Option<usize>)
    ensures
        match r {
            Some(i) => i == slug_index(columns@, slug@) && i < columns@.len(),
            None => slug_index(columns@, slug@) == -1,
        },
{
    let n = columns.len();
    let mut i: usize = 0;
    assert(columns@.take(0) =~= Seq::<Column>::empty());
    while i < n
        invariant
            n == columns@.len(),
            i <= n,
            slug_index(columns@.take(i as int), slug@) == -1,
        decreases n - i,
    {
        assert(columns@.take(i + 1).drop_last() =~= columns@.take(i as int));
        if text_eq(columns[i].slug.as_str(), slug) {
            proof {
                assert(columns@.take(i + 1).last() == columns@[i as int]);
                lemma_slug_index_prefix(columns@, slug@, i + 1);
            }
            return Some(i);
        }
        i = i + 1;
    }
    assert(columns@.take(n as int) =~= columns@);
    None
}

pub(crate) fn now_epoch() -> (r: u64) {
    match unix_time() {
        Ok(t) => t.0,
        Err(_) => 0,
    }
}

/// Text of a card id made from a count of nanoseconds.
pub open spec fn card_id_text(nanos: nat) -> Seq<char> {
    "card-"@ + hex_digits(nanos)
}

/// Nanoseconds since the Unix epoch of a clock reading (seconds and the
/// nanoseconds beyond them), zero when the clock stood before the epoch.
pub open spec fn clock_nanos(now: Option<(u64, u32)>) -> nat {
    match now {
        Some(t) => (t.0 * 1_000_000_000 + t.1) as nat,
        None => 0,
    }
}

/// Whole seconds since the Unix epoch of a clock reading, zero when the clock
/// stood before the epoch.
pub open spec fn clock_secs(now: Option<(u64, u32)>) -> u64 {
    match now {
        Some(t) => t.0,
        None => 0,
    }
}

/// The card id for the clock reading `now`: `card-` followed by its
/// nanoseconds since the Unix epoch in lower-case hexadecimal.
pub fn card_id_at(now: Option<(u64, u32)>) -> (r: String)
    ensures
        r@ == card_id_text(clock_nanos(now)),
{
    let nanos: u128 = match now {
        Some(t) => t.0 as u128 * 1_000_000_000u128 + t.1 as u128,
        None => 0,
    };
    let digits = hex_text(nanos);
    joined("card-", digits.as_str())
}

/// A card id derived from the current time: `card-` followed by the
/// nanoseconds since the Unix epoch in lower-case hexadecimal (zero when the
/// clock stands before the epoch).
pub fn next_id() -> (r: String)
    ensures
        exists|n: nat| r@ == card_id_text(n),
{
    let now = match unix_time() {
        Ok(t) => Some(t),
        Err(_) => None,
    };
    let r = card_id_at(now);
    assert(r@ == card_id_text(clock_nanos(now)));
    r
}

// ---------------------------------------------------------------------------
// The default board
// ---------------------------------------------------------------------------

/// The dispatch configuration of a built-in column: the agent and nothing else.
pub open spec fn is_plain_agent(d: Option<DispatchConfig>, agent: Seq<char>) -> bool {
    &&& d matches Some(c)
    &&& c.agent@ == agent
    &&& c.prompt is None
    &&& c.split_direction is None
    &&& c.pre_command is None
}

/// The built-in columns of a new board: To Do (`todo`, dispatching `copilot`),
/// Doing (`doing`, dispatching `codex`) and Done (`done`, no dispatch), at
/// positions 0, 1 and 2.
pub open spec fn is_default_layout(columns: Seq<Column>) -> bool {
    &&& columns.len() == 3
    &&& columns[0].slug@ == "todo"@ && columns[0].title@ == "To Do"@ && columns[0].dispatch_enabled
        && is_plain_agent(columns[0].dispatch, "copilot"@) && columns[0].order == 0
    &&& columns[1].slug@ == "doing"@ && columns[1].title@ == "Doing"@ && columns[1].dispatch_enabled
        && is_plain_agent(columns[1].dispatch, "codex"@) && columns[1].order == 1
    &&& columns[2].slug@ == "done"@ && columns[2].title@ == "Done"@ && !columns[2].dispatch_enabled
        && columns[2].dispatch is None && columns[2].order == 2
}

fn plain_agent(agent: &str) -> (r: Option<DispatchConfig>)
    ensures
        is_plain_agent(r, agent@),
{
    Some(DispatchConfig { agent: agent.to_owned(), prompt: None, split_direction: None, pre_command: None })
}

/// Built-in columns for a brand-new board.
pub fn default_columns() -> (r: Vec<Column>)
    ensures
        is_default_layout(r@),
{
    let mut v: Vec<Column> = Vec::new();
    v.push(Column { slug: "todo".to_owned(), title: "To Do".to_owned(), dispatch_enabled: true, dispatch: plain_agent("copilot"), order: 0 });
    v.push(Column { slug: "doing".to_owned(), title: "Doing".to_owned(), dispatch_enabled: true, dispatch: plain_agent("codex"), order: 1 });
    v.push(Column { slug: "done".to_owned(), title: "Done".to_owned(), dispatch_enabled: false, dispatch: None, order: 2 });
    v
}

impl Default for BoardState {
    fn default() -> (r: Self)
        ensures
            r.revision == 0,
            r.cards@.len() == 0,
            is_default_layout(r.columns@),
    {
        BoardState { revision: 0, cards: Vec::new(), columns: default_columns() }
    }
}

/// `new` is `old` placed at position `order` of `column`, every other field
/// kept but the update time.
pub open spec fn is_moved(old: Card, new: Card, column: Seq<char>, order: int) -> bool {
    &&& new.id == old.id
    &&& new.title == old.title
    &&& new.column@ == column
    &&& new.order == order
    &&& new.pane_id == old.pane_id
    &&& new.agent_name == old.agent_name
    &&& new.target_agent == old.target_agent
    &&& new.pre_command == old.pre_command
    &&& new.description == old.description
    &&& new.created_at == old.created_at
}

/// `new` is `old` with title `title`, every other field kept but the update
/// time.
pub open spec fn is_retitled(old: Card, new: Card, title: String) -> bool {
    &&& new.id == old.id
    &&& new.title == title
    &&& new.column == old.column
    &&& new.order == old.order
    &&& new.pane_id == old.pane_id
    &&& new.agent_name == old.agent_name
    &&& new.target_agent == old.target_agent
    &&& new.pre_command == old.pre_command
    &&& new.description == old.description
    &&& new.created_at == old.created_at
}

/// A fresh card: id `id`, title `title`, in `column` at `order`, with no
/// links, no override, no pre-command, an empty description, and equal
/// creation and update times.
pub open spec fn is_fresh_card(c: Card, id: Seq<char>, title: String, column: Seq<char>, order: int) -> bool {
    &&& c.id@ == id
    &&& c.title == title
    &&& c.column@ == column
    &&& c.order == order
    &&& c.pane_id is None
    &&& c.agent_name is None
    &&& c.target_agent is None
    &&& c.pre_command is None
    &&& c.description@ == Seq::<char>::empty()
    &&& c.created_at == c.updated_at
}

impl BoardState {
    /// Sort cards by column, then position, then id (stable).
    pub fn sort_cards(&mut self)
        ensures
            final(self).cards@ == stable_sorted(old(self).cards@, card_board_order()),
            final(self).columns == old(self).columns,
            final(self).revision == old(self).revision,
    {
        let mut cards: Vec<Card> = Vec::new();
        std::mem::swap(&mut cards, &mut self.cards);
        let sorted = sort_stable(
            cards,
            card_board_less,
            Ghost(card_board_order()),
        );
        self.cards = sorted;
    }

    /// Sort columns by position (stable).
    pub fn sort_columns(&mut self)
        ensures
            final(self).columns@ == stable_sorted(old(self).columns@, column_position_order()),
            final(self).cards == old(self).cards,
            final(self).revision == old(self).revision,
    {
        let mut columns: Vec<Column> = Vec::new();
        std::mem::swap(&mut columns, &mut self.columns);
        let sorted = sort_stable(
            columns,
            column_position_less,
            Ghost(column_position_order()),
        );
        self.columns = sorted;
    }

    /// The position to use when appending a card to `column`.
    pub fn next_order_in_column(&self, column: &str) -> (r: i64)
        requires
            next_order(self.cards@, column@) <= i64::MAX,
        ensures
            r == next_order(self.cards@, column@),
    {
        let n = self.cards.len();
        let mut max: Option<i64> = None;
        let mut i: usize = 0;
        assert(self.cards@.take(0) =~= Seq::<Card>::empty());
        while i < n
            invariant
                n == self.cards@.len(),
                i <= n,
                max == column_max_order(self.cards@.take(i as int), column@),
            decreases n - i,
        {
            assert(self.cards@.take(i + 1).drop_last() =~= self.cards@.take(i as int));
            let c = &self.cards[i];
            if text_eq(c.column.as_str(), column) {
                max = match max {
                    Some(m) => Some(if c.order > m { c.order } else { m }),
                    None => Some(c.order),
                };
            }
            i = i + 1;
        }
        assert(self.cards@.take(n as int) =~= self.cards@);
        match max {
            Some(m) => m + 1,
            None => 0,
        }
    }

    /// The first card with the given id.
    pub fn card(&self, id: &str) -> (r: Option<&Card>)
        ensures
            match r {
                Some(c) => card_index(self.cards@, id@) >= 0 && *c == self.cards@[card_index(self.cards@, id@)],
                None => card_index(self.cards@, id@) == -1,
            },
    {
        proof {
            lemma_card_index(self.cards@, id@);
        }
        match find_card(&self.cards, id) {
            Some(i) => Some(&self.cards[i]),
            None => None,
        }
    }

    /// Mutable access to the first card with the given id.
    pub fn card_mut(&mut self, id: &str) -> (r: Option<&mut Card>)
        ensures
            match r {
                Some(c) => {
                    let k = card_index(old(self).cards@, id@);
                    &&& k >= 0
                    &&& *c == old(self).cards@[k]
                    &&& final(self).cards@ == old(self).cards@.update(k, *final(c))
                },
                None => card_index(old(self).cards@, id@) == -1 && final(self).cards == old(self).cards,
            },
            final(self).columns == old(self).columns,
            final(self).revision == old(self).revision,
    {
        proof {
            lemma_card_index(self.cards@, id@);
        }
        match find_card(&self.cards, id) {
            Some(i) => Some(&mut self.cards[i]),
            None => None,
        }
    }

    /// The columns in display order: by position, then slug.
    pub fn ordered_columns(&self) -> (r: Vec<&Column>)
        ensures
            column_derefs(r@) == ordered(self.columns@),
    {
        let mut refs: Vec<&Column> = Vec::new();
        let n = self.columns.len();
        for i in 0..n
            invariant
                n == self.columns@.len(),
                refs@.len() == i,
                column_derefs(refs@) == self.columns@.take(i as int),
        {
            let ghost prev = refs@;
            refs.push(&self.columns[i]);
            assert(refs@ == prev.push(&self.columns@[i as int]));
            assert(column_derefs(refs@) =~= self.columns@.take(i + 1));
        }
        assert(self.columns@.take(n as int) =~= self.columns@);
        let ghost lt_ref = |a: &Column, b: &Column| column_board_lt(*a, *b);
        let ghost before = refs@;
        let sorted = sort_stable(
            refs,
            column_ref_board_less,
            Ghost(lt_ref),
        );
        proof {
            lemma_stable_sorted_map(before, |r: &Column| *r, lt_ref, column_board_order());
        }
        sorted
    }

    /// The cards of `column`, ordered by position then id.
    pub fn cards_in_column(&self, column: &str) -> (r: Vec<&Card>)
        ensures
            card_derefs(r@) == stable_sorted(cards_of_column(self.cards@, column@), card_column_order()),
    {
        let mut refs: Vec<&Card> = Vec::new();
        let n = self.cards.len();
        assert(self.cards@.take(0) =~= Seq::<Card>::empty());
        for i in 0..n
            invariant
                n == self.cards@.len(),
                card_derefs(refs@) == cards_of_column(self.cards@.take(i as int), column@),
        {
            assert(self.cards@.take(i + 1).drop_last() =~= self.cards@.take(i as int));
            if text_eq(self.cards[i].column.as_str(), column) {
                let ghost prev = refs@;
                refs.push(&self.cards[i]);
                assert(refs@ == prev.push(&self.cards@[i as int]));
                assert(card_derefs(refs@) =~= card_derefs(prev).push(self.cards@[i as int]));
            }
        }
        assert(self.cards@.take(n as int) =~= self.cards@);
        let ghost lt_ref = |a: &Card, b: &Card| card_column_lt(*a, *b);
        let ghost before = refs@;
        let sorted = sort_stable(
            refs,
            card_ref_column_less,
            Ghost(lt_ref),
        );
        proof {
            lemma_stable_sorted_map(before, |r: &Card| *r, lt_ref, card_column_order());
        }
        sorted
    }

    /// Append a new card to `column` and return its id, with `now` as the
    /// clock reading: the id is made from it and it stamps the card.
    pub fn add_card_at(&mut self, title: String, column: &str, now: Option<(u64, u32)>) -> (r: String)
        requires
            next_order(old(self).cards@, column@) <= i64::MAX,
        ensures
            r@ == card_id_text(clock_nanos(now)),
            final(self).cards@.len() == old(self).cards@.len() + 1,
            final(self).cards@.drop_last() == old(self).cards@,
            is_fresh_card(final(self).cards@.last(), r@, title, column@, next_order(old(self).cards@, column@)),
            final(self).cards@.last().created_at == clock_secs(now),
            final(self).columns == old(self).columns,
            final(self).revision == old(self).revision,
    {
        let id = card_id_at(now);
        let order = self.next_order_in_column(column);
        let ts: u64 = match now {
            Some(t) => t.0,
            None => 0,
        };
        let empty = String::new();
        self.cards.push(Card {
            id: id.clone(),
            title,
            column: column.to_owned(),
            order,
            pane_id: None,
            agent_name: None,
            target_agent: None,
            pre_command: None,
            description: empty,
            created_at: ts,
            updated_at: ts,
        });
        assert(self.cards@.drop_last() =~= old(self).cards@);
        id
    }

    /// Append a new card to `column` and return its id.
    pub fn add_card(&mut self, title: String, column: &str) -> (r: String)
        requires
            next_order(old(self).cards@, column@) <= i64::MAX,
        ensures
            exists|n: nat| r@ == card_id_text(n),
            final(self).cards@.len() == old(self).cards@.len() + 1,
            final(self).cards@.drop_last() == old(self).cards@,
            is_fresh_card(final(self).cards@.last(), r@, title, column@, next_order(old(self).cards@, column@)),
            final(self).columns == old(self).columns,
            final(self).revision == old(self).revision,
    {
        let now = match unix_time() {
            Ok(t) => Some(t),
            Err(_) => None,
        };
        let id = self.add_card_at(title, column, now);
        assert(id@ == card_id_text(clock_nanos(now)));
        id
    }

    /// Move a card into `column`, after the cards already there, stamping it
    /// with `now`.
    pub fn move_card_at(&mut self, id: &str, column: &str, now: u64) -> (r: Result<(), BoardError>)
        requires
            next_order(old(self).cards@, column@) <= i64::MAX,
        ensures
            ({
                let k = card_index(old(self).cards@, id@);
                if k == -1 {
                    &&& r matches Err(BoardError::CardNotFound { id: e }) && e@ == id@
                    &&& final(self).cards == old(self).cards
                } else {
                    &&& r is Ok
                    &&& final(self).cards@.len() == old(self).cards@.len()
                    &&& forall|j: int| 0 <= j < old(self).cards@.len() && j != k
                        ==> #[trigger] final(self).cards@[j] == old(self).cards@[j]
                    &&& is_moved(old(self).cards@[k], final(self).cards@[k], column@,
                        next_order(old(self).cards@, column@))
                    &&& final(self).cards@[k].updated_at == now
                }
            }),
            final(self).columns == old(self).columns,
            final(self).revision == old(self).revision,
    {
        let order = self.next_order_in_column(column);
        proof {
            lemma_card_index(old(self).cards@, id@);
        }
        match self.card_mut(id) {
            Some(card) => {
                card.column = column.to_owned();
                card.order = order;
                card.updated_at = now;
                Ok(())
            },
            None => Err(BoardError::CardNotFound { id: id.to_owned() }),
        }
    }

    /// Move a card into `column`, after the cards already there.
    pub fn move_card(&mut self, id: &str, column: &str) -> (r: Result<(), BoardError>)
        requires
            next_order(old(self).cards@, column@) <= i64::MAX,
        ensures
            ({
                let k = card_index(old(self).cards@, id@);
                if k == -1 {
                    &&& r matches Err(BoardError::CardNotFound { id: e }) && e@ == id@
                    &&& final(self).cards == old(self).cards
                } else {
                    &&& r is Ok
                    &&& final(self).cards@.len() == old(self).cards@.len()
                    &&& forall|j: int| 0 <= j < old(self).cards@.len() && j != k
                        ==> #[trigger] final(self).cards@[j] == old(self).cards@[j]
                    &&& is_moved(old(self).cards@[k], final(self).cards@[k], column@,
                        next_order(old(self).cards@, column@))
                }
            }),
            final(self).columns == old(self).columns,
            final(self).revision == old(self).revision,
    {
        let now = now_epoch();
        self.move_card_at(id, column, now)
    }

    /// Remove (archive) the card with `id`; returns whether it existed.
    pub fn remove_card(&mut self, id: &str) -> (r: bool)
        ensures
            r == has_card(old(self).cards@, id@),
            final(self).cards@ == cards_without(old(self).cards@, id@),
            final(self).columns == old(self).columns,
            final(self).revision == old(self).revision,
    {
        let mut rest: Vec<Card> = Vec::new();
        std::mem::swap(&mut rest, &mut self.cards);
        let ghost s = rest@;
        let n = rest.len();
        let mut kept: Vec<Card> = Vec::new();
        let mut found = false;
        let mut i: usize = 0;
        assert(s.take(0) =~= Seq::<Card>::empty());
        assert(s.skip(0) =~= s);
        while i < n
            invariant
                n == s.len(),
                i <= n,
                rest@ == s.skip(i as int),
                kept@ == cards_without(s.take(i as int), id@),
                found == has_card(s.take(i as int), id@),
            decreases n - i,
        {
            let c = rest.remove(0);
            assert(c == s[i as int]);
            assert(rest@ =~= s.skip(i + 1));
            assert(s.take(i + 1).drop_last() =~= s.take(i as int));
            assert(s.take(i + 1).last() == c);
            if text_eq(c.id.as_str(), id) {
                found = true;
                assert(s.take(i + 1)[i as int].id@ == id@);
            } else {
                kept.push(c);
                assert forall|j: int| 0 <= j < i + 1 && #[trigger] s.take(i + 1)[j].id@ == id@
                    implies s.take(i as int)[j].id@ == id@ by {
                    if j < i {
                        assert(s.take(i + 1)[j] == s.take(i as int)[j]);
                    }
                }
            }
            proof {
                if has_card(s.take(i as int), id@) {
                    let w = choose|j: int| 0 <= j < s.take(i as int).len() && #[trigger] s.take(i as int)[j].id@ == id@;
                    assert(s.take(i + 1)[w] == s.take(i as int)[w]);
                }
            }
            i = i + 1;
        }
        assert(s.take(n as int) =~= s);
        self.cards = kept;
        found
    }

    /// Rename a card, stamping it with `now`; returns whether the card
    /// existed.
    pub fn set_card_title_at(&mut self, id: &str, title: String, now: u64) -> (r: bool)
        ensures
            r == has_card(old(self).cards@, id@),
            ({
                let k = card_index(old(self).cards@, id@);
                if k == -1 {
                    final(self).cards == old(self).cards
                } else {
                    &&& final(self).cards@.len() == old(self).cards@.len()
                    &&& forall|j: int| 0 <= j < old(self).cards@.len() && j != k
                        ==> #[trigger] final(self).cards@[j] == old(self).cards@[j]
                    &&& is_retitled(old(self).cards@[k], final(self).cards@[k], title)
                    &&& final(self).cards@[k].updated_at == now
                }
            }),
            final(self).columns == old(self).columns,
            final(self).revision == old(self).revision,
    {
        proof {
            lemma_card_index(old(self).cards@, id@);
        }
        match self.card_mut(id) {
            Some(card) => {
                card.title = title;
                card.updated_at = now;
                true
            },
            None => false,
        }
    }

    /// Rename a card; returns whether the card existed.
    pub fn set_card_title(&mut self, id: &str, title: String) -> (r: bool)
        ensures
            r == has_card(old(self).cards@, id@),
            ({
                let k = card_index(old(self).cards@, id@);
                if k == -1 {
                    final(self).cards == old(self).cards
                } else {
                    &&& final(self).cards@.len() == old(self).cards@.len()
                    &&& forall|j: int| 0 <= j < old(self).cards@.len() && j != k
                        ==> #[trigger] final(self).cards@[j] == old(self).cards@[j]
                    &&& is_retitled(old(self).cards@[k], final(self).cards@[k], title)
                }
            }),
            final(self).columns == old(self).columns,
            final(self).revision == old(self).revision,
    {
        let now = now_epoch();
        self.set_card_title_at(id, title, now)
    }

    /// Slug of the column `step` places from `slug` in display order (`-1`
    /// for the left neighbour, `+1` for the right one).
    pub fn adjacent_column(&self, slug: &str, step: i64) -> (r: Option<String>)
        requires
            slug_index(ordered(self.columns@), slug@) + step <= i64::MAX,
        ensures
            match r {
                Some(s) => adjacent_slug(self.columns@, slug@, step as int) == Some(s@),
                None => adjacent_slug(self.columns@, slug@, step as int) is None,
            },
    {
        let columns = self.ordered_columns();
        let ghost cols = ordered(self.columns@);
        proof {
            lemma_stable_sorted_is_permutation(self.columns@, column_board_order());
        }
        let n = columns.len();
        assert(column_derefs(columns@).len() == columns@.len());
        let mut i: usize = 0;
        assert(cols.take(0) =~= Seq::<Column>::empty());
        while i < n
            invariant
                n == columns@.len(),
                column_derefs(columns@) == cols,
                cols == ordered(self.columns@),
                cols.len() == n,
                i <= n,
                slug_index(cols.take(i as int), slug@) == -1,
            decreases n - i,
        {
            assert(cols.take(i + 1).drop_last() =~= cols.take(i as int));
            assert(cols[i as int] == *columns@[i as int]);
            if text_eq(columns[i].slug.as_str(), slug) {
                proof {
                    assert(cols.take(i + 1).last() == cols[i as int]);
                    assert(slug_index(cols.take(i + 1), slug@) == i);
                    lemma_slug_index_prefix(cols, slug@, i + 1);
                }
                let target: i128 = i as i128 + step as i128;
                if target < 0 || target >= n as i128 {
                    return None;
                }
                let t = target as usize;
                assert(cols[t as int] == *columns@[t as int]);
                return Some(columns[t].slug.clone());
            }
            i = i + 1;
        }
        assert(cols.take(n as int) =~= cols);
        None
    }
}

} // verus!