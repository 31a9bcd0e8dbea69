//! The decisions behind the command-line subcommands: opening the board
//! overlay, adding cards (also from the invoking pane), focusing a card's
//! pane, refreshing stale links and listing the cards.

use vstd::prelude::*;

use crate::clock::unix_time;
use crate::error::BoardError;
use crate::herdr::{pane_listed, Agent, Pane};
use crate::state::{
    card_board_order, card_id_at, card_id_text, card_index, clock_nanos, find_card, lemma_card_index,
    next_order, BoardState, Card,
};
use crate::sorting::stable_sorted;
use crate::text::{copy_text_opt, joined, signed_decimal, signed_decimal_text, text_eq};

verus! {

/// Pane title that identifies the board overlay pane.
pub open spec fn board_title() -> Seq<char> {
    "Windows Board"@
}

/// Whether a pane carries the board's title, plain or stripped.
pub open spec fn is_board_pane(p: Pane) -> bool {
    ||| p.terminal_title matches Some(t) && t@ == board_title()
    ||| p.terminal_title_stripped matches Some(t) && t@ == board_title()
}

/// Whether a pane carries the board's known title.
pub fn board_title_matches(pane: &Pane) -> (r: bool)
    ensures
        r == is_board_pane(*pane),
{
    let title = "Windows Board";
    let plain = match &pane.terminal_title {
        Some(t) => text_eq(t.as_str(), title),
        None => false,
    };
    let stripped = match &pane.terminal_title_stripped {
        Some(t) => text_eq(t.as_str(), title),
        None => false,
    };
    plain || stripped
}

/// What `open` does.
#[derive(Debug)]
pub enum OpenRequest {
    /// Open the target in the system's default handler.
    InShell { target: String },
    /// Summon the board overlay: list the panes, then act on
    /// [`board_open_action`].
    Board,
}

/// `open`: with a target, open it in the default handler; without one, summon
/// the board overlay.
pub fn open(target: Option<String>) -> (r: OpenRequest)
    ensures
        match target {
            Some(t) => r matches OpenRequest::InShell { target: u } && u == t,
            None => r is Board,
        },
{
    match target {
        Some(t) => OpenRequest::InShell { target: t },
        None => OpenRequest::Board,
    }
}

/// What summoning the board does with the pane list.
#[derive(Debug)]
pub enum BoardOpen {
    /// The board pane is focused: close it.
    Close { pane_id: String },
    /// The board pane exists but is not focused: focus it.
    Focus { pane_id: String },
    /// There is no board pane: open one as a focused overlay.
    Open,
    /// Herdr could not be reached: run the board in this process.
    RunInProcess,
}

/// Index of the first board pane, or -1.
pub open spec fn board_pane_index(panes: Seq<Pane>) -> int
    decreases panes.len(),
{
    if panes.len() == 0 {
        -1
    } else {
        let k = board_pane_index(panes.drop_last());
        if k >= 0 {
            k
        } else if is_board_pane(panes.last()) {
            panes.len() - 1
        } else {
            -1
        }
    }
}

proof fn lemma_board_pane_index_prefix(panes: Seq<Pane>, k: int)
    requires
        0 <= k <= panes.len(),
        board_pane_index(panes.take(k)) >= 0,
    ensures
        board_pane_index(panes) == board_pane_index(panes.take(k)),
    decreases panes.len() - k,
{
    if k < panes.len() {
        assert(panes.drop_last().take(k) =~= panes.take(k));
        lemma_board_pane_index_prefix(panes.drop_last(), k);
    } else {
        assert(panes.take(k) =~= panes);
    }
}

/// Summoning the board is idempotent in effect: the first pane titled as the
/// board is closed when focused and focused otherwise; without such a pane an
/// overlay is opened; when the pane list failed the board runs in-process.
pub fn board_open_action(panes: Result<Vec<Pane>, String>) -> (r: BoardOpen)
    ensures
        match panes {
            Err(_) => r is RunInProcess,
            Ok(ps) => {
                let k = board_pane_index(ps@);
                if k == -1 {
                    r is Open
                } else if ps@[k].focused {
                    r matches BoardOpen::Close { pane_id } && pane_id == ps@[k].pane_id
                } else {
                    r matches BoardOpen::Focus { pane_id } && pane_id == ps@[k].pane_id
                }
            },
        },
{
    let ps = match panes {
        Ok(ps) => ps,
        Err(_) => {
            return BoardOpen::RunInProcess;
        },
    };
    let n = ps.len();
    let mut i: usize = 0;
    assert(ps@.take(0) =~= Seq::<Pane>::empty());
    while i < n
        invariant
            n == ps@.len(),
            i <= n,
            board_pane_index(ps@.take(i as int)) == -1,
            panes == Ok::<Vec<Pane>, String>(ps),
        decreases n - i,
    {
        assert(ps@.take(i + 1).drop_last() =~= ps@.take(i as int));
        if board_title_matches(&ps[i]) {
            proof {
                assert(ps@.take(i + 1).last() == ps@[i as int]);
                assert(board_pane_index(ps@.take(i + 1)) == i);
                lemma_board_pane_index_prefix(ps@, i + 1);
            }
            if ps[i].focused {
                return BoardOpen::Close { pane_id: ps[i].pane_id.clone() };
            } else {
                return BoardOpen::Focus { pane_id: ps[i].pane_id.clone() };
            }
        }
        i = i + 1;
    }
    assert(ps@.take(n as int) =~= ps@);
    BoardOpen::Open
}

// ---------------------------------------------------------------------------
// Adding cards
// ---------------------------------------------------------------------------

/// `c` is a new card with the given fields, an empty description and equal
/// creation and update times.
pub open spec fn is_new_card(
    c: Card,
    id: Seq<char>,
    title: String,
    column: Seq<char>,
    order: int,
    pane_id: Option<String>,
    agent_name: Option<String>,
    target_agent: Option<String>,
    pre_command: Option<String>,
) -> bool {
    &&& c.id@ == id
    &&& c.title == title
    &&& c.column@ == column
    &&& c.order == order
    &&& c.pane_id == pane_id
    &&& c.agent_name == agent_name
    &&& c.target_agent == target_agent
    &&& c.pre_command == pre_command
    &&& c.description@ == Seq::<char>::empty()
    &&& c.created_at == c.updated_at
}

/// Appends a card to `column`, as `card add` and `card add-from-pane` do,
/// with `now` as the clock reading, and returns its id. Fails, adding
/// nothing, exactly when the reading says the clock stands before the Unix
/// epoch (the error carries the clock's message); otherwise the card is
/// stamped with the reading's seconds and its id is made from the reading.
pub fn add_card_at(
    board: &mut BoardState,
    title: String,
    column: &str,
    pane_id: Option<String>,
    agent_name: Option<String>,
    target_agent: Option<String>,
    pre_command: Option<String>,
    now: Result<(u64, u32), String>,
) -> (r: Result<String, BoardError>)
    requires
        next_order(old(board).cards@, column@) <= i64::MAX,
    ensures
        final(board).columns == old(board).columns,
        final(board).revision == old(board).revision,
        match now {
            Err(cause) => {
                &&& r == Err::<String, BoardError>(BoardError::ClockBeforeEpoch { cause })
                &&& final(board).cards == old(board).cards
            },
            Ok(t) => r matches Ok(id) && {
                &&& id@ == card_id_text(clock_nanos(Some(t)))
                &&& final(board).cards@.len() == old(board).cards@.len() + 1
                &&& final(board).cards@.drop_last() == old(board).cards@
                &&& is_new_card(final(board).cards@.last(), id@, title, column@,
                    next_order(old(board).cards@, column@), pane_id, agent_name, target_agent, pre_command)
                &&& final(board).cards@.last().created_at == t.0
            },
        },
{
    let order = board.next_order_in_column(column);
    let t = match now {
        Ok(t) => t,
        Err(cause) => {
            return Err(BoardError::ClockBeforeEpoch { cause });
        },
    };
    let ts = t.0;
    let id = card_id_at(Some(t));
    board.cards.push(Card {
        id: id.clone(),
        title,
        column: column.to_owned(),
        order,
        pane_id,
        agent_name,
        target_agent,
        pre_command,
        description: String::new(),
        created_at: ts,
        updated_at: ts,
    });
    assert(board.cards@.drop_last() =~= old(board).cards@);
    Ok(id)
}

/// Appends a card to `column`, as `card add` and `card add-from-pane` do, and
/// returns its id. Fails, adding nothing, only when the clock stands before
/// the Unix epoch.
pub fn add_card_with(
    board: &mut BoardState,
    title: String,
    column: &str,
    pane_id: Option<String>,
    agent_name: Option<String>,
    target_agent: Option<String>,
    pre_command: Option<String>,
) -> (r: Result<String, BoardError>)
    requires
        next_order(old(board).cards@, column@) <= i64::MAX,
    ensures
        final(board).columns == old(board).columns,
        final(board).revision == old(board).revision,
        match r {
            Err(e) => e is ClockBeforeEpoch && final(board).cards == old(board).cards,
            Ok(id) => {
                &&& exists|n: nat| id@ == card_id_text(n)
                &&& final(board).cards@.len() == old(board).cards@.len() + 1
                &&& final(board).cards@.drop_last() == old(board).cards@
                &&& is_new_card(final(board).cards@.last(), id@, title, column@,
                    next_order(old(board).cards@, column@), pane_id, agent_name, target_agent, pre_command)
            },
        },
{
    let now = unix_time();
    let r = add_card_at(board, title, column, pane_id, agent_name, target_agent, pre_command, now);
    proof {
        if let Ok(id) = &r {
            assert(id@ == card_id_text(clock_nanos(Some(now->Ok_0))));
        }
    }
    r
}

/// The title a pane lends a card: its terminal title, else its stripped
/// title, else its working directory, else its id.
pub open spec fn pane_title(p: Pane) -> String {
    match p.terminal_title {
        Some(t) => t,
        None => match p.terminal_title_stripped {
            Some(t) => t,
            None => match p.cwd {
                Some(t) => t,
                None => p.pane_id,
            },
        },
    }
}

/// Title, pane and agent of a card added from the invoking pane: an explicit
/// title wins over the pane's; without a pane a title is required.
pub fn resolve_from_pane(title: Option<String>, pane: Option<Pane>) -> (r: Result<(String, Option<String>, Option<String>), BoardError>)
    ensures
        match pane {
            Some(p) => r matches Ok(t) && t.0 == (match title {
                Some(u) => u,
                None => pane_title(p),
            }) && t.1 == Some(p.pane_id) && t.2 == p.agent,
            None => match title {
                Some(u) => r matches Ok(t) && t.0 == u && t.1 is None && t.2 is None,
                None => r matches Err(BoardError::NoTitle),
            },
        },
{
    match pane {
        Some(p) => {
            let Pane { pane_id, terminal_title, terminal_title_stripped, cwd, agent, .. } = p;
            let resolved = match title {
                Some(u) => u,
                None => match terminal_title {
                    Some(t) => t,
                    None => match terminal_title_stripped {
                        Some(t) => t,
                        None => match cwd {
                            Some(t) => t,
                            None => pane_id.clone(),
                        },
                    },
                },
            };
            Ok((resolved, Some(pane_id), agent))
        },
        None => match title {
            Some(u) => Ok((u, None, None)),
            None => Err(BoardError::NoTitle),
        },
    }
}

// ---------------------------------------------------------------------------
// Focus
// ---------------------------------------------------------------------------

/// The pane linked to card `id`: an error when there is no such card or it
/// has no linked pane.
pub fn focus_target(board: &BoardState, id: &str) -> (r: Result<String, BoardError>)
    ensures
        ({
            let k = card_index(board.cards@, id@);
            if k == -1 {
                r matches Err(BoardError::CardNotFound { id: e }) && e@ == id@
            } else {
                match board.cards@[k].pane_id {
                    Some(p) => r matches Ok(q) && q@ == p@,
                    None => r matches Err(BoardError::NoLinkedPane { id: e }) && e@ == id@,
                }
            }
        }),
{
    proof {
        lemma_card_index(board.cards@, id@);
    }
    match find_card(&board.cards, id) {
        Some(k) => match &board.cards[k].pane_id {
            Some(p) => Ok(p.clone()),
            None => Err(BoardError::NoLinkedPane { id: id.to_owned() }),
        },
        None => Err(BoardError::CardNotFound { id: id.to_owned() }),
    }
}

/// Whether some pane in `panes` has id `id`.
pub fn pane_is_live(panes: &Vec<Pane>, id: &str) -> (r: bool)
    ensures
        r == pane_listed(panes@, id@),
{
    let n = panes.len();
    let mut i: usize = 0;
    while i < n
        invariant
            n == panes@.len(),
            i <= n,
            forall|j: int| 0 <= j < i ==> #[trigger] panes@[j].pane_id@ != id@,
        decreases n - i,
    {
        if text_eq(panes[i].pane_id.as_str(), id) {
            return true;
        }
        i = i + 1;
    }
    false
}

/// Refuses to focus a linked pane that is no longer among the live panes.
pub fn ensure_pane_live(panes: &Vec<Pane>, pane_id: &str, id: &str) -> (r: Result<(), BoardError>)
    ensures
        pane_listed(panes@, pane_id@) ==> r is Ok,
        !pane_listed(panes@, pane_id@) ==> (r matches Err(BoardError::PaneGone { pane_id: p, id: c })
            && p@ == pane_id@ && c@ == id@),
{
    if pane_is_live(panes, pane_id) {
        Ok(())
    } else {
        Err(BoardError::PaneGone { pane_id: pane_id.to_owned(), id: id.to_owned() })
    }
}

// ---------------------------------------------------------------------------
// Refresh
// ---------------------------------------------------------------------------

/// Whether some agent in `agents` is named `name`.
pub open spec fn agent_listed(agents: Seq<Agent>, name: Seq<char>) -> bool {
    exists|i: int| 0 <= i < agents.len() && #[trigger] agents[i].agent@ == name
}

/// Whether the card's pane link is live.
pub open spec fn link_is_live(c: Card, panes: Seq<Pane>) -> bool {
    c.pane_id matches Some(p) && pane_listed(panes, p@)
}

/// Whether refreshing changes the card: a dead link with a pane or agent
/// recorded, or a live link naming an agent that is gone.
pub open spec fn refresh_changes(c: Card, panes: Seq<Pane>, agents: Seq<Agent>) -> bool {
    if !link_is_live(c, panes) {
        c.pane_id is Some || c.agent_name is Some
    } else {
        c.agent_name matches Some(n) && !agent_listed(agents, n@)
    }
}

/// The card after refreshing: a dead link loses its pane and agent; a live
/// link loses an agent that is gone; everything else is kept.
pub open spec fn is_refreshed(old: Card, new: Card, panes: Seq<Pane>, agents: Seq<Agent>) -> bool {
    &&& new.id == old.id
    &&& new.title == old.title
    &&& new.column == old.column
    &&& new.order == old.order
    &&& new.target_agent == old.target_agent
    &&& new.pre_command == old.pre_command
    &&& new.description == old.description
    &&& new.created_at == old.created_at
    &&& new.updated_at == old.updated_at
    &&& if !link_is_live(old, panes) {
        new.pane_id is None && new.agent_name is None
    } else {
        &&& new.pane_id == old.pane_id
        &&& new.agent_name == (match old.agent_name {
            Some(n) => if agent_listed(agents, n@) { old.agent_name } else { None },
            None => None,
        })
    }
}

/// The ids of the cards that refreshing changes, in card order.
pub open spec fn refreshed_ids(cards: Seq<Card>, panes: Seq<Pane>, agents: Seq<Agent>) -> Seq<Seq<char>>
    decreases cards.len(),
{
    if cards.len() == 0 {
        Seq::empty()
    } else {
        let rest = refreshed_ids(cards.drop_last(), panes, agents);
        if refresh_changes(cards.last(), panes, agents) {
            rest.push(cards.last().id@)
        } else {
            rest
        }
    }
}

/// Whether some agent in `agents` is named `name`.
fn agent_is_listed(agents: &Vec<Agent>, name: &str) -> (r: bool)
    ensures
        r == agent_listed(agents@, name@),
{
    let n = agents.len();
    let mut i: usize = 0;
    while i < n
        invariant
            n == agents@.len(),
            i <= n,
            forall|j: int| 0 <= j < i ==> #[trigger] agents@[j].agent@ != name@,
        decreases n - i,
    {
        if text_eq(agents[i].agent.as_str(), name) {
            return true;
        }
        i = i + 1;
    }
    false
}

/// Clears stale pane and agent links given the live panes and agents, and
/// returns the ids of the cards it changed.
pub fn refresh_links(board: &mut BoardState, panes: &Vec<Pane>, agents: &Vec<Agent>) -> (r: Vec<String>)
    ensures
        final(board).columns == old(board).columns,
        final(board).revision == old(board).revision,
        final(board).cards@.len() == old(board).cards@.len(),
        forall|j: int| 0 <= j < old(board).cards@.len() ==> is_refreshed(
            old(board).cards@[j],
            #[trigger] final(board).cards@[j],
            panes@,
            agents@,
        ),
        r@.map_values(|s: String| s@) == refreshed_ids(old(board).cards@, panes@, agents@),
{
    let ghost cards0 = board.cards@;
    let n = board.cards.len();
    let mut changed: Vec<String> = Vec::new();
    let mut i: usize = 0;
    assert(cards0.take(0) =~= Seq::<Card>::empty());
    while i < n
        invariant
            n == cards0.len(),
            n == board.cards@.len(),
            i <= n,
            board.columns == old(board).columns,
            board.revision == old(board).revision,
            cards0 == old(board).cards@,
            forall|j: int| 0 <= j < i ==> is_refreshed(cards0[j], #[trigger] board.cards@[j], panes@, agents@),
            forall|j: int| i <= j < n ==> #[trigger] board.cards@[j] == cards0[j],
            changed@.map_values(|s: String| s@) == refreshed_ids(cards0.take(i as int), panes@, agents@),
        decreases n - i,
    {
        assert(cards0.take(i + 1).drop_last() =~= cards0.take(i as int));
        assert(cards0.take(i + 1).last() == cards0[i as int]);
        let ghost before = changed@;
        let live = match &board.cards[i].pane_id {
            Some(p) => pane_is_live(panes, p.as_str()),
            None => false,
        };
        let c = &mut board.cards[i];
        if !live {
            if c.pane_id.is_some() || c.agent_name.is_some() {
                changed.push(c.id.clone());
            }
            c.pane_id = None;
            c.agent_name = None;
        } else {
            let keep = match &c.agent_name {
                Some(name) => agent_is_listed(agents, name.as_str()),
                None => true,
            };
            if !keep {
                c.agent_name = None;
                changed.push(c.id.clone());
            }
        }
        assert(changed@.map_values(|s: String| s@) =~= refreshed_ids(cards0.take(i + 1), panes@, agents@)) by {
            if changed@.len() > before.len() {
                assert(changed@ == before.push(changed@.last()));
            } else {
                assert(changed@ == before);
            }
        }
        i = i + 1;
    }
    assert(cards0.take(n as int) =~= cards0);
    changed
}

// ---------------------------------------------------------------------------
// Listing
// ---------------------------------------------------------------------------

/// The line that lists a card: `[{column}] #{order} {id} ({title})`.
pub open spec fn list_line(c: Card) -> Seq<char> {
    "["@ + c.column@ + "] #"@ + signed_decimal(c.order as int) + " "@ + c.id@ + " ("@ + c.title@ + ")"@
}

fn list_line_text(c: &Card) -> (r: String)
    ensures
        r@ == list_line(*c),
{
    let order = signed_decimal_text(c.order);
    let a = joined("[", c.column.as_str());
    let b = joined(a.as_str(), "] #");
    let d = joined(b.as_str(), order.as_str());
    let e = joined(d.as_str(), " ");
    let f = joined(e.as_str(), c.id.as_str());
    let g = joined(f.as_str(), " (");
    let h = joined(g.as_str(), c.title.as_str());
    joined(h.as_str(), ")")
}

/// `card list`: sorts the cards into board order and returns the lines to
/// print, `no cards` when there is none.
pub fn card_list_lines(board: &mut BoardState) -> (r: Vec<String>)
    ensures
        final(board).cards@ == stable_sorted(old(board).cards@, card_board_order()),
        final(board).columns == old(board).columns,
        final(board).revision == old(board).revision,
        final(board).cards@.len() == 0 ==> r@.len() == 1 && r@[0]@ == "no cards"@,
        final(board).cards@.len() > 0 ==> r@.len() == final(board).cards@.len()
            && forall|j: int| 0 <= j < r@.len() ==> #[trigger] r@[j]@ == list_line(final(board).cards@[j]),
{
    board.sort_cards();
    let mut lines: Vec<String> = Vec::new();
    let n = board.cards.len();
    if n == 0 {
        lines.push("no cards".to_owned());
        return lines;
    }
    for i in 0..n
        invariant
            n == board.cards@.len(),
            lines@.len() == i,
            forall|j: int| 0 <= j < i ==> #[trigger] lines@[j]@ == list_line(board.cards@[j]),
    {
        lines.push(list_line_text(&board.cards[i]));
    }
    lines
}

} // verus!
