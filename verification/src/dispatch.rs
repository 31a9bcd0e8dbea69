//! Column-triggered dispatch: moving a card into a dispatch-enabled column
//! opens (or reuses) a pane, starts the column's agent there and prompts it
//! with the card.
//!
//! The protocol alternates Herdr calls and decisions. [`move_card_dispatch`]
//! moves the card and returns a [`Dispatch`] whose [`Dispatch::step`] names
//! the next Herdr call to make; the caller makes it and hands the outcome back
//! to [`Dispatch::advance`], until the step is [`DispatchStep::Finished`] with
//! the status line. Dispatch is best effort: a failed call ends it with a
//! status that names the failure, and the card stays moved.

use vstd::prelude::*;

use crate::clock::unix_time;
use crate::error::BoardError;
use crate::herdr::{pane_listed, AgentStart, Pane};
use crate::state::{
    card_index, find_card, find_column, is_moved, lemma_card_index, next_order, now_epoch,
    slug_index, BoardState, Card, Column, DispatchConfig,
};
use crate::text::{copy_text_opt, joined, replace_text, replaced, text_eq, trim_text, trimmed};

verus! {

/// The next Herdr call a dispatch waits for, or its end.
#[derive(Debug)]
pub enum DispatchStep {
    /// List the live panes (`herdr pane list`).
    ListPanes,
    /// Open a new tab and take its pane.
    CreateTab,
    /// Split the current pane in `direction` (`herdr pane split`).
    SplitPane { direction: String },
    /// Run `command` in the pane before the agent starts.
    RunInPane { pane_id: String, command: String },
    /// Start an agent named `name` of kind `kind` in the pane.
    StartAgent { name: String, kind: String, pane_id: String },
    /// Send `text` to the agent in the pane.
    Prompt { pane_id: String, text: String },
    /// The dispatch is over; `status` tells how it went.
    Finished { status: String },
}

/// The outcome of the Herdr call a dispatch asked for; an error is its message.
#[derive(Debug)]
pub enum DispatchEvent {
    PanesListed(Result<Vec<Pane>, String>),
    PaneOpened(Result<Pane, String>),
    CommandRan(Result<(), String>),
    AgentStarted(Result<AgentStart, String>),
    Prompted(Result<(), String>),
}

/// A dispatch under way for one card.
#[derive(Debug)]
pub struct Dispatch {
    /// Id of the moved card.
    pub card_id: String,
    /// Slug of the column the card moved into.
    pub column: String,
    /// Agent kind to start, which is also the agent's name.
    pub kind: String,
    /// Prompt template of the column.
    pub template: Option<String>,
    /// Where a new pane is opened.
    pub split_direction: Option<String>,
    /// Command to run in the pane before the agent starts.
    pub pre_command: Option<String>,
    /// Title of the card when it moved.
    pub title: String,
    /// Description of the card when it moved.
    pub description: String,
    /// Pane the card was linked to when it moved.
    pub existing_pane: Option<String>,
    /// Pane the agent goes into, once known.
    pub pane_id: Option<String>,
    /// What the dispatch waits for.
    pub step: DispatchStep,
}

// ---------------------------------------------------------------------------
// Status lines
// ---------------------------------------------------------------------------

pub open spec fn moved_text(id: Seq<char>, column: Seq<char>) -> Seq<char> {
    "moved "@ + id + " to '"@ + column + "'"@
}

pub open spec fn skipped_text(id: Seq<char>, column: Seq<char>, what: Seq<char>, err: Seq<char>) -> Seq<char> {
    moved_text(id, column) + "; dispatch skipped ("@ + what + ": "@ + err + ")"@
}

pub open spec fn started_text(id: Seq<char>, column: Seq<char>, kind: Seq<char>, pane: Seq<char>) -> Seq<char> {
    moved_text(id, column) + "; started "@ + kind + " agent in pane "@ + pane
}

pub open spec fn deferred_text(id: Seq<char>, column: Seq<char>, kind: Seq<char>, pane: Seq<char>) -> Seq<char> {
    started_text(id, column, kind, pane) + " (still initializing, prompt deferred)"@
}

pub open spec fn prompt_failed_text(id: Seq<char>, column: Seq<char>, kind: Seq<char>, pane: Seq<char>, err: Seq<char>) -> Seq<char> {
    started_text(id, column, kind, pane) + " but prompt failed ("@ + err + ")"@
}

fn moved_status(id: &str, column: &str) -> (r: String)
    ensures
        r@ == moved_text(id@, column@),
{
    let a = joined("moved ", id);
    let b = joined(a.as_str(), " to '");
    let c = joined(b.as_str(), column);
    joined(c.as_str(), "'")
}

fn skipped_status(id: &str, column: &str, what: &str, err: &str) -> (r: String)
    ensures
        r@ == skipped_text(id@, column@, what@, err@),
{
    let m = moved_status(id, column);
    let a = joined(m.as_str(), "; dispatch skipped (");
    let b = joined(a.as_str(), what);
    let c = joined(b.as_str(), ": ");
    let d = joined(c.as_str(), err);
    joined(d.as_str(), ")")
}

fn started_status(id: &str, column: &str, kind: &str, pane: &str) -> (r: String)
    ensures
        r@ == started_text(id@, column@, kind@, pane@),
{
    let m = moved_status(id, column);
    let a = joined(m.as_str(), "; started ");
    let b = joined(a.as_str(), kind);
    let c = joined(b.as_str(), " agent in pane ");
    joined(c.as_str(), pane)
}

// ---------------------------------------------------------------------------
// Plan
// ---------------------------------------------------------------------------

/// The dispatch configuration that moving a card into `column` triggers: that
/// of the first column with this slug, when it is dispatch-enabled and names
/// a non-empty agent.
pub open spec fn dispatch_config(columns: Seq<Column>, column: Seq<char>) -> Option<DispatchConfig> {
    let i = slug_index(columns, column);
    if i >= 0 && columns[i].dispatch_enabled {
        match columns[i].dispatch {
            Some(d) => if d.agent@.len() > 0 { Some(d) } else { None },
            None => None,
        }
    } else {
        None
    }
}

/// The agent kind to start: the card's override when it is not blank
/// (trimmed), else the column's agent.
pub open spec fn effective_kind(agent: Seq<char>, target: Option<String>) -> Seq<char> {
    match target {
        Some(t) => if trimmed(t@).len() > 0 { trimmed(t@) } else { agent },
        None => agent,
    }
}

/// The command run before the agent starts: the card's when it is not blank,
/// else the column's.
pub open spec fn effective_pre_command(card: Option<String>, column: Option<String>) -> Option<String> {
    match card {
        Some(c) => if trimmed(c@).len() > 0 { Some(c) } else { column },
        None => column,
    }
}

/// The prompt sent to a ready agent: the template (when not empty) with
/// `{title}` and then `{description}` replaced, else the trimmed title
/// followed, when the trimmed description is not empty, by a newline and that
/// description.
pub open spec fn prompt_text(template: Option<String>, title: Seq<char>, description: Seq<char>) -> Seq<char> {
    match template {
        Some(t) => if t@.len() > 0 {
            replaced(replaced(t@, "{title}"@, title), "{description}"@, description)
        } else {
            plain_prompt(title, description)
        },
        None => plain_prompt(title, description),
    }
}

pub open spec fn plain_prompt(title: Seq<char>, description: Seq<char>) -> Seq<char> {
    if trimmed(description).len() > 0 {
        trimmed(title) + seq!['\n'] + trimmed(description)
    } else {
        trimmed(title)
    }
}

fn compose_prompt(template: &Option<String>, title: &str, description: &str) -> (r: String)
    ensures
        r@ == prompt_text(*template, title@, description@),
{
    match template {
        Some(t) => {
            if !t.as_str().is_empty() {
                let pat_title = "{title}";
                let pat_description = "{description}";
                proof {
                    reveal_strlit("{title}");
                    reveal_strlit("{description}");
                }
                let once = replace_text(t.as_str(), pat_title, title);
                return replace_text(once.as_str(), pat_description, description);
            }
        },
        None => {},
    }
    let t = trim_text(title);
    let d = trim_text(description);
    if d.as_str().is_empty() {
        t
    } else {
        let newline = "\n";
        proof {
            reveal_strlit("\n");
        }
        let a = joined(t.as_str(), newline);
        joined(a.as_str(), d.as_str())
    }
}

// ---------------------------------------------------------------------------
// Step predicates
// ---------------------------------------------------------------------------

pub open spec fn is_finished(step: DispatchStep, status: Seq<char>) -> bool {
    step matches DispatchStep::Finished { status: s } && s@ == status
}

pub open spec fn is_start_step(step: DispatchStep, kind: Seq<char>, pane: Seq<char>) -> bool {
    step matches DispatchStep::StartAgent { name, kind: k, pane_id } && name@ == kind && k@ == kind
        && pane_id@ == pane
}

/// What follows once the pane is known: the pre-command, when there is a
/// non-blank one, else the agent start.
pub open spec fn is_step_after_pane(step: DispatchStep, d: Dispatch, pane: Seq<char>) -> bool {
    match d.pre_command {
        Some(cmd) => if trimmed(cmd@).len() > 0 {
            step matches DispatchStep::RunInPane { pane_id, command } && pane_id@ == pane && command == cmd
        } else {
            is_start_step(step, d.kind@, pane)
        },
        None => is_start_step(step, d.kind@, pane),
    }
}

/// Everything but the pane and the step is kept.
pub open spec fn same_plan(a: Dispatch, b: Dispatch) -> bool {
    &&& a.card_id == b.card_id
    &&& a.column == b.column
    &&& a.kind == b.kind
    &&& a.template == b.template
    &&& a.split_direction == b.split_direction
    &&& a.pre_command == b.pre_command
    &&& a.title == b.title
    &&& a.description == b.description
    &&& a.existing_pane == b.existing_pane
}

/// `new` is `old` with the dispatched pane and agent linked.
pub open spec fn is_linked(old: Card, new: Card, pane: Seq<char>, kind: Seq<char>) -> bool {
    &&& new.id == old.id
    &&& new.title == old.title
    &&& new.column == old.column
    &&& new.order == old.order
    &&& new.pane_id matches Some(p) && p@ == pane
    &&& new.agent_name matches Some(a) && a@ == kind
    &&& new.target_agent == old.target_agent
    &&& new.pre_command == old.pre_command
    &&& new.description == old.description
    &&& new.created_at == old.created_at
}

/// Linking the card `id` to `pane` and `kind`: when the card is gone the board
/// stays and the error says so; otherwise the card is linked (its update time
/// refreshed), every other card kept, and the only possible error is a clock
/// before the epoch.
pub open spec fn link_outcome(
    old: BoardState,
    new: BoardState,
    id: Seq<char>,
    pane: Seq<char>,
    kind: Seq<char>,
    r: Result<(), BoardError>,
) -> bool {
    let k = card_index(old.cards@, id);
    &&& new.columns == old.columns
    &&& new.revision == old.revision
    &&& if k == -1 {
        &&& r matches Err(BoardError::CardVanished { id: e }) && e@ == id
        &&& new.cards == old.cards
    } else {
        &&& (r is Ok || (r matches Err(e) && e is ClockBeforeEpoch))
        &&& new.cards@.len() == old.cards@.len()
        &&& forall|j: int| 0 <= j < old.cards@.len() && j != k ==> #[trigger] new.cards@[j] == old.cards@[j]
        &&& is_linked(old.cards@[k], new.cards@[k], pane, kind)
    }
}

/// The board is as it was.
pub open spec fn board_kept(old: BoardState, new: BoardState) -> bool {
    &&& new.cards == old.cards
    &&& new.columns == old.columns
    &&& new.revision == old.revision
}

/// Every card keeps its id, column and position.
pub open spec fn placement_kept(old: BoardState, new: BoardState) -> bool {
    &&& new.cards@.len() == old.cards@.len()
    &&& forall|j: int| 0 <= j < old.cards@.len() ==> {
        &&& (#[trigger] new.cards@[j]).id == old.cards@[j].id
        &&& new.cards@[j].column == old.cards@[j].column
        &&& new.cards@[j].order == old.cards@[j].order
    }
}

// ---------------------------------------------------------------------------
// Start
// ---------------------------------------------------------------------------

/// Moves card `id` into `column`, after the cards already there, stamps it
/// with the clock reading `now` and plans the dispatch that the column
/// triggers. When the clock could not be read (it stands before the Unix
/// epoch) the card is moved but not stamped, and the move fails with the
/// clock's message.
///
/// When the column triggers no dispatch, the dispatch is finished at once
/// with the status `moved {id} to '{column}'`; otherwise it waits for the
/// pane list.
pub fn move_card_dispatch_at(
    board: &mut BoardState,
    id: &str,
    column: &str,
    now: Result<u64, String>,
) -> (r: Result<Dispatch, BoardError>)
    requires
        next_order(old(board).cards@, column@) <= i64::MAX,
    ensures
        final(board).columns == old(board).columns,
        final(board).revision == old(board).revision,
        ({
            let k = card_index(old(board).cards@, id@);
            if k == -1 {
                &&& r matches Err(BoardError::CardNotFound { id: e }) && e@ == id@
                &&& final(board).cards == old(board).cards
            } else {
                let card = old(board).cards@[k];
                &&& final(board).cards@.len() == old(board).cards@.len()
                &&& forall|j: int| 0 <= j < old(board).cards@.len() && j != k
                    ==> #[trigger] final(board).cards@[j] == old(board).cards@[j]
                &&& is_moved(card, final(board).cards@[k], column@, next_order(old(board).cards@, column@))
                &&& r matches Err(e) ==> e is ClockBeforeEpoch
                &&& r matches Ok(d) ==> {
                    &&& d.card_id@ == id@
                    &&& d.column@ == column@
                    &&& d.title == card.title
                    &&& d.description == card.description
                    &&& d.existing_pane == card.pane_id
                    &&& d.pane_id is None
                    &&& match dispatch_config(old(board).columns@, column@) {
                        None => is_finished(d.step, moved_text(id@, column@)),
                        Some(cfg) => {
                            &&& d.step is ListPanes
                            &&& d.kind@ == effective_kind(cfg.agent@, card.target_agent)
                            &&& d.template == cfg.prompt
                            &&& d.split_direction == cfg.split_direction
                            &&& d.pre_command == effective_pre_command(card.pre_command, cfg.pre_command)
                        },
                    }
                }
            }
        }),
        ({
            let k = card_index(old(board).cards@, id@);
            k != -1 ==> match now {
                Ok(t) => r is Ok && final(board).cards@[k].updated_at == t,
                Err(cause) => {
                    &&& r matches Err(e) && e == (BoardError::ClockBeforeEpoch { cause })
                    &&& final(board).cards@[k].updated_at == old(board).cards@[k].updated_at
                },
            }
        }),
{
    proof {
        lemma_card_index(board.cards@, id@);
    }
    let plan: Option<DispatchConfig> = match find_column(&board.columns, column) {
        Some(i) => {
            let col = &board.columns[i];
            if col.dispatch_enabled {
                match &col.dispatch {
                    Some(d) => if !d.agent.as_str().is_empty() {
                        Some(d.clone())
                    } else {
                        None
                    },
                    None => None,
                }
            } else {
                None
            }
        },
        None => None,
    };
    let k = match find_card(&board.cards, id) {
        Some(k) => k,
        None => {
            return Err(BoardError::CardNotFound { id: id.to_owned() });
        },
    };
    let title = board.cards[k].title.clone();
    let description = board.cards[k].description.clone();
    let existing_pane = copy_text_opt(&board.cards[k].pane_id);
    let target_agent = copy_text_opt(&board.cards[k].target_agent);
    let card_pre_command = copy_text_opt(&board.cards[k].pre_command);

    let order = board.next_order_in_column(column);
    match board.card_mut(id) {
        Some(card) => {
            card.column = column.to_owned();
            card.order = order;
            match now {
                Ok(t) => {
                    card.updated_at = t;
                },
                Err(cause) => {
                    return Err(BoardError::ClockBeforeEpoch { cause });
                },
            }
        },
        None => {
            return Err(BoardError::CardNotFound { id: id.to_owned() });
        },
    }

    match plan {
        None => Ok(Dispatch {
            card_id: id.to_owned(),
            column: column.to_owned(),
            kind: String::new(),
            template: None,
            split_direction: None,
            pre_command: None,
            title,
            description,
            existing_pane,
            pane_id: None,
            step: DispatchStep::Finished { status: moved_status(id, column) },
        }),
        Some(cfg) => {
            let kind = match &target_agent {
                Some(t) => {
                    let trimmed_target = trim_text(t.as_str());
                    if !trimmed_target.as_str().is_empty() {
                        trimmed_target
                    } else {
                        cfg.agent.clone()
                    }
                },
                None => cfg.agent.clone(),
            };
            let pre_command = match card_pre_command {
                Some(c) => {
                    let t = trim_text(c.as_str());
                    if !t.as_str().is_empty() {
                        Some(c)
                    } else {
                        copy_text_opt(&cfg.pre_command)
                    }
                },
                None => copy_text_opt(&cfg.pre_command),
            };
            Ok(Dispatch {
                card_id: id.to_owned(),
                column: column.to_owned(),
                kind,
                template: copy_text_opt(&cfg.prompt),
                split_direction: copy_text_opt(&cfg.split_direction),
                pre_command,
                title,
                description,
                existing_pane,
                pane_id: None,
                step: DispatchStep::ListPanes,
            })
        },
    }
}

/// Moves card `id` into `column`, after the cards already there, and plans
/// the dispatch that the column triggers.
///
/// When the column triggers none, the dispatch is finished at once with the
/// status `moved {id} to '{column}'`; otherwise it waits for the pane list.
pub fn move_card_dispatch(board: &mut BoardState, id: &str, column: &str) -> (r: Result<Dispatch, BoardError>)
    requires
        next_order(old(board).cards@, column@) <= i64::MAX,
    ensures
        final(board).columns == old(board).columns,
        final(board).revision == old(board).revision,
        ({
            let k = card_index(old(board).cards@, id@);
            if k == -1 {
                &&& r matches Err(BoardError::CardNotFound { id: e }) && e@ == id@
                &&& final(board).cards == old(board).cards
            } else {
                let card = old(board).cards@[k];
                &&& final(board).cards@.len() == old(board).cards@.len()
                &&& forall|j: int| 0 <= j < old(board).cards@.len() && j != k
                    ==> #[trigger] final(board).cards@[j] == old(board).cards@[j]
                &&& is_moved(card, final(board).cards@[k], column@, next_order(old(board).cards@, column@))
                &&& r matches Err(e) ==> e is ClockBeforeEpoch
                &&& r matches Ok(d) ==> {
                    &&& d.card_id@ == id@
                    &&& d.column@ == column@
                    &&& d.title == card.title
                    &&& d.description == card.description
                    &&& d.existing_pane == card.pane_id
                    &&& d.pane_id is None
                    &&& match dispatch_config(old(board).columns@, column@) {
                        None => is_finished(d.step, moved_text(id@, column@)),
                        Some(cfg) => {
                            &&& d.step is ListPanes
                            &&& d.kind@ == effective_kind(cfg.agent@, card.target_agent)
                            &&& d.template == cfg.prompt
                            &&& d.split_direction == cfg.split_direction
                            &&& d.pre_command == effective_pre_command(card.pre_command, cfg.pre_command)
                        },
                    }
                }
            }
        }),
{
    let now = clock_seconds();
    move_card_dispatch_at(board, id, column, now)
}

// ---------------------------------------------------------------------------
// Steps
// ---------------------------------------------------------------------------

/// Whether the step waits for this kind of event.
pub open spec fn awaits(step: DispatchStep, event: DispatchEvent) -> bool {
    match (step, event) {
        (DispatchStep::ListPanes, DispatchEvent::PanesListed(_)) => true,
        (DispatchStep::CreateTab, DispatchEvent::PaneOpened(_)) => true,
        (DispatchStep::SplitPane { .. }, DispatchEvent::PaneOpened(_)) => true,
        (DispatchStep::RunInPane { .. }, DispatchEvent::CommandRan(_)) => true,
        (DispatchStep::StartAgent { .. }, DispatchEvent::AgentStarted(_)) => true,
        (DispatchStep::Prompt { .. }, DispatchEvent::Prompted(_)) => true,
        _ => false,
    }
}

/// The pane the step works in, for the steps that have one.
pub open spec fn step_pane(step: DispatchStep) -> Seq<char> {
    match step {
        DispatchStep::RunInPane { pane_id, .. } => pane_id@,
        DispatchStep::StartAgent { pane_id, .. } => pane_id@,
        DispatchStep::Prompt { pane_id, .. } => pane_id@,
        _ => Seq::empty(),
    }
}

/// What one event does to the dispatch `d` and the board, given the outcome
/// `r`: the contract of [`Dispatch::advance`].
pub open spec fn advance_outcome(
    d: Dispatch,
    event: DispatchEvent,
    nd: Dispatch,
    board: BoardState,
    nboard: BoardState,
    r: Result<(), BoardError>,
) -> bool {
    let id = d.card_id@;
    let col = d.column@;
    let kind = d.kind@;
    let pane = step_pane(d.step);
    if !awaits(d.step, event) {
        nd == d && board_kept(board, nboard) && r is Ok
    } else {
        &&& same_plan(d, nd)
        &&& match event {
            DispatchEvent::PanesListed(Err(e)) => {
                &&& is_finished(nd.step, skipped_text(id, col, "pane list failed"@, e@))
                &&& nd.pane_id == d.pane_id
                &&& board_kept(board, nboard) && r is Ok
            },
            DispatchEvent::PanesListed(Ok(panes)) => {
                &&& board_kept(board, nboard) && r is Ok
                &&& match d.existing_pane {
                    Some(p) => if pane_listed(panes@, p@) {
                        nd.pane_id == d.existing_pane && is_step_after_pane(nd.step, d, p@)
                    } else {
                        nd.pane_id == d.pane_id && opens_pane(nd.step, d.split_direction)
                    },
                    None => nd.pane_id == d.pane_id && opens_pane(nd.step, d.split_direction),
                }
            },
            DispatchEvent::PaneOpened(Err(e)) => {
                &&& is_finished(nd.step, skipped_text(id, col,
                    if d.step is CreateTab { "tab create failed"@ } else { "pane split failed"@ }, e@))
                &&& nd.pane_id == d.pane_id
                &&& board_kept(board, nboard) && r is Ok
            },
            DispatchEvent::PaneOpened(Ok(p)) => {
                &&& nd.pane_id matches Some(q) && q@ == p.pane_id@
                &&& is_step_after_pane(nd.step, d, p.pane_id@)
                &&& board_kept(board, nboard) && r is Ok
            },
            DispatchEvent::CommandRan(Err(e)) => {
                &&& is_finished(nd.step, skipped_text(id, col, "pre-command failed"@, e@))
                &&& nd.pane_id == d.pane_id
                &&& board_kept(board, nboard) && r is Ok
            },
            DispatchEvent::CommandRan(Ok(_)) => {
                &&& is_start_step(nd.step, kind, pane)
                &&& nd.pane_id == d.pane_id
                &&& board_kept(board, nboard) && r is Ok
            },
            DispatchEvent::AgentStarted(Err(e)) => {
                &&& is_finished(nd.step, skipped_text(id, col, "agent start failed"@, e@))
                &&& nd.pane_id == d.pane_id
                &&& board_kept(board, nboard) && r is Ok
            },
            DispatchEvent::AgentStarted(Ok(AgentStart::Initializing)) => {
                &&& link_outcome(board, nboard, id, pane, kind, r)
                &&& nd.pane_id == d.pane_id
                &&& r is Ok ==> is_finished(nd.step, deferred_text(id, col, kind, pane))
                &&& r is Err ==> nd.step == d.step
            },
            DispatchEvent::AgentStarted(Ok(AgentStart::Ready)) => {
                let text = prompt_text(d.template, d.title@, d.description@);
                &&& nd.pane_id == d.pane_id
                &&& if text.len() == 0 {
                    &&& link_outcome(board, nboard, id, pane, kind, r)
                    &&& r is Ok ==> is_finished(nd.step, started_text(id, col, kind, pane))
                    &&& r is Err ==> nd.step == d.step
                } else {
                    &&& nd.step matches DispatchStep::Prompt { pane_id, text: t } && pane_id@ == pane && t@ == text
                    &&& board_kept(board, nboard) && r is Ok
                }
            },
            DispatchEvent::Prompted(Err(e)) => {
                &&& is_finished(nd.step, prompt_failed_text(id, col, kind, pane, e@))
                &&& nd.pane_id == d.pane_id
                &&& board_kept(board, nboard) && r is Ok
            },
            DispatchEvent::Prompted(Ok(_)) => {
                &&& link_outcome(board, nboard, id, pane, kind, r)
                &&& nd.pane_id == d.pane_id
                &&& r is Ok ==> is_finished(nd.step, started_text(id, col, kind, pane))
                &&& r is Err ==> nd.step == d.step
            },
        }
    }
}

/// The step that opens a new pane: a new tab when the split direction is
/// `tab`, otherwise a split in that direction (`down` when there is none).
pub open spec fn opens_pane(step: DispatchStep, split: Option<String>) -> bool {
    match split {
        Some(s) => if s@ == "tab"@ {
            step is CreateTab
        } else {
            step matches DispatchStep::SplitPane { direction } && direction@ == s@
        },
        None => step matches DispatchStep::SplitPane { direction } && direction@ == "down"@,
    }
}

/// Whether some pane in `panes` has id `id`.
fn pane_is_listed(panes: &Vec<Pane>, id: &str) -> (r: bool)
    ensures
        r == pane_listed(panes@, id@),
{
    let n = panes.len();
    let mut i: usize = 0;
    while i < n
        invariant
            n == panes@.len(),
            i <= n,
            forall|j: int| 0 <= j < i ==> #[trigger] panes@[j].pane_id@ != id@,
        decreases n - i,
    {
        if text_eq(panes[i].pane_id.as_str(), id) {
            return true;
        }
        i = i + 1;
    }
    false
}

/// How far a step stands from the end of the dispatch: every awaited event
/// that is handled without an error brings the dispatch strictly closer to
/// its end, so a dispatch that is handed the events it awaits ends.
pub open spec fn step_rank(step: DispatchStep) -> nat {
    match step {
        DispatchStep::ListPanes => 5,
        DispatchStep::CreateTab => 4,
        DispatchStep::SplitPane { .. } => 4,
        DispatchStep::RunInPane { .. } => 3,
        DispatchStep::StartAgent { .. } => 2,
        DispatchStep::Prompt { .. } => 1,
        DispatchStep::Finished { .. } => 0,
    }
}

/// Whether handling `event` links the card to its pane and agent: an agent
/// that is still starting, a ready agent with nothing to prompt, or a prompt
/// that was sent.
pub open spec fn links_card(d: Dispatch, event: DispatchEvent) -> bool {
    &&& awaits(d.step, event)
    &&& match event {
        DispatchEvent::AgentStarted(Ok(AgentStart::Initializing)) => true,
        DispatchEvent::AgentStarted(Ok(AgentStart::Ready)) => prompt_text(d.template, d.title@, d.description@).len()
            == 0,
        DispatchEvent::Prompted(Ok(_)) => true,
        _ => false,
    }
}

/// The link's time stamp: with a clock reading the link succeeds and stamps
/// the card; without one (the clock stands before the Unix epoch) it fails
/// with the clock's message and the card keeps its update time.
pub open spec fn link_stamped(
    old: BoardState,
    new: BoardState,
    id: Seq<char>,
    r: Result<(), BoardError>,
    now: Result<u64, String>,
) -> bool {
    let k = card_index(old.cards@, id);
    k != -1 ==> match now {
        Ok(t) => r is Ok && new.cards@[k].updated_at == t,
        Err(cause) => {
            &&& r == Err::<(), BoardError>(BoardError::ClockBeforeEpoch { cause })
            &&& new.cards@[k].updated_at == old.cards@[k].updated_at
        },
    }
}

/// Link card `id` to `pane` and agent `kind`, stamping it with the clock
/// reading `now`.
fn apply_link(
    board: &mut BoardState,
    id: &str,
    pane: &str,
    kind: &str,
    now: Result<u64, String>,
) -> (r: Result<(), BoardError>)
    ensures
        link_outcome(*old(board), *final(board), id@, pane@, kind@, r),
        link_stamped(*old(board), *final(board), id@, r, now),
{
    proof {
        lemma_card_index(board.cards@, id@);
    }
    match board.card_mut(id) {
        Some(c) => {
            c.pane_id = Some(pane.to_owned());
            c.agent_name = Some(kind.to_owned());
            match now {
                Ok(t) => {
                    c.updated_at = t;
                    Ok(())
                },
                Err(cause) => Err(BoardError::ClockBeforeEpoch { cause }),
            }
        },
        None => Err(BoardError::CardVanished { id: id.to_owned() }),
    }
}

/// The clock's whole seconds since the Unix epoch, or, before it, why it
/// could not be read.
fn clock_seconds() -> (r: Result<u64, String>) {
    match unix_time() {
        Ok(t) => Ok(t.0),
        Err(e) => Err(e),
    }
}

impl Dispatch {
    /// The step that follows once the pane is known.
    fn after_pane(&self, pane: &str) -> (r: DispatchStep)
        ensures
            is_step_after_pane(r, *self, pane@),
    {
        match &self.pre_command {
            Some(cmd) => {
                let t = trim_text(cmd.as_str());
                if !t.as_str().is_empty() {
                    return DispatchStep::RunInPane { pane_id: pane.to_owned(), command: cmd.clone() };
                }
            },
            None => {},
        }
        DispatchStep::StartAgent { name: self.kind.clone(), kind: self.kind.clone(), pane_id: pane.to_owned() }
    }

    /// The step that opens a new pane.
    fn open_step(&self) -> (r: DispatchStep)
        ensures
            opens_pane(r, self.split_direction),
    {
        let tab = "tab";
        proof {
            reveal_strlit("tab");
        }
        match &self.split_direction {
            Some(s) => if text_eq(s.as_str(), tab) {
                DispatchStep::CreateTab
            } else {
                DispatchStep::SplitPane { direction: s.clone() }
            },
            None => DispatchStep::SplitPane { direction: "down".to_owned() },
        }
    }

    fn finish(&mut self, status: String)
        ensures
            same_plan(*old(self), *final(self)),
            final(self).pane_id == old(self).pane_id,
            is_finished(final(self).step, status@),
    {
        self.step = DispatchStep::Finished { status };
    }

    /// Hands the outcome of the awaited Herdr call to the dispatch, which
    /// decides the next step and, once the agent runs, links the card to its
    /// pane and agent, stamping it with the clock reading `now`; the link
    /// fails, with the clock's message, exactly when there is no reading. An event of another kind than
    /// the awaited one changes nothing. Every card keeps its column and
    /// position whatever happens, and each awaited event handled without an
    /// error moves the dispatch closer to its end.
    pub fn advance_at(
        &mut self,
        board: &mut BoardState,
        event: DispatchEvent,
        now: Result<u64, String>,
    ) -> (r: Result<(), BoardError>)
        ensures
            advance_outcome(*old(self), event, *final(self), *old(board), *final(board), r),
            links_card(*old(self), event) ==> link_stamped(*old(board), *final(board), old(self).card_id@, r, now),
            placement_kept(*old(board), *final(board)),
            awaits(old(self).step, event) && r is Ok ==> step_rank(final(self).step) < step_rank(old(self).step),
    {
        let ghost d0 = *self;
        let ghost b0 = *board;
        let waiting = match (&self.step, &event) {
            (DispatchStep::ListPanes, DispatchEvent::PanesListed(_)) => true,
            (DispatchStep::CreateTab, DispatchEvent::PaneOpened(_)) => true,
            (DispatchStep::SplitPane { .. }, DispatchEvent::PaneOpened(_)) => true,
            (DispatchStep::RunInPane { .. }, DispatchEvent::CommandRan(_)) => true,
            (DispatchStep::StartAgent { .. }, DispatchEvent::AgentStarted(_)) => true,
            (DispatchStep::Prompt { .. }, DispatchEvent::Prompted(_)) => true,
            _ => false,
        };
        if !waiting {
            return Ok(());
        }
        let is_tab = match &self.step {
            DispatchStep::CreateTab => true,
            _ => false,
        };
        let pane: String = match &self.step {
            DispatchStep::RunInPane { pane_id, .. } => pane_id.clone(),
            DispatchStep::StartAgent { pane_id, .. } => pane_id.clone(),
            DispatchStep::Prompt { pane_id, .. } => pane_id.clone(),
            _ => String::new(),
        };
        assert(pane@ == step_pane(d0.step));
        match event {
            DispatchEvent::PanesListed(Err(e)) => {
                let status = skipped_status(self.card_id.as_str(), self.column.as_str(), "pane list failed", e.as_str());
                self.finish(status);
                Ok(())
            },
            DispatchEvent::PanesListed(Ok(panes)) => {
                let live = match &self.existing_pane {
                    Some(p) => pane_is_listed(&panes, p.as_str()),
                    None => false,
                };
                if live {
                    let p = match &self.existing_pane {
                        Some(p) => p.clone(),
                        None => String::new(),
                    };
                    let next = self.after_pane(p.as_str());
                    self.pane_id = Some(p);
                    self.step = next;
                } else {
                    let next = self.open_step();
                    self.step = next;
                }
                Ok(())
            },
            DispatchEvent::PaneOpened(Err(e)) => {
                let what = if is_tab { "tab create failed" } else { "pane split failed" };
                let status = skipped_status(self.card_id.as_str(), self.column.as_str(), what, e.as_str());
                self.finish(status);
                Ok(())
            },
            DispatchEvent::PaneOpened(Ok(p)) => {
                let next = self.after_pane(p.pane_id.as_str());
                self.pane_id = Some(p.pane_id);
                self.step = next;
                Ok(())
            },
            DispatchEvent::CommandRan(Err(e)) => {
                let status = skipped_status(self.card_id.as_str(), self.column.as_str(), "pre-command failed", e.as_str());
                self.finish(status);
                Ok(())
            },
            DispatchEvent::CommandRan(Ok(_)) => {
                self.step = DispatchStep::StartAgent { name: self.kind.clone(), kind: self.kind.clone(), pane_id: pane };
                Ok(())
            },
            DispatchEvent::AgentStarted(Err(e)) => {
                let status = skipped_status(self.card_id.as_str(), self.column.as_str(), "agent start failed", e.as_str());
                self.finish(status);
                Ok(())
            },
            DispatchEvent::AgentStarted(Ok(AgentStart::Initializing)) => {
                let linked = apply_link(board, self.card_id.as_str(), pane.as_str(), self.kind.as_str(), now);
                match linked {
                    Ok(()) => {
                        let started = started_status(self.card_id.as_str(), self.column.as_str(), self.kind.as_str(), pane.as_str());
                        let status = joined(started.as_str(), " (still initializing, prompt deferred)");
                        self.finish(status);
                        Ok(())
                    },
                    Err(err) => Err(err),
                }
            },
            DispatchEvent::AgentStarted(Ok(AgentStart::Ready)) => {
                let text = compose_prompt(&self.template, self.title.as_str(), self.description.as_str());
                if text.as_str().is_empty() {
                    let linked = apply_link(board, self.card_id.as_str(), pane.as_str(), self.kind.as_str(), now);
                    match linked {
                        Ok(()) => {
                            let status = started_status(self.card_id.as_str(), self.column.as_str(), self.kind.as_str(), pane.as_str());
                            self.finish(status);
                            Ok(())
                        },
                        Err(err) => Err(err),
                    }
                } else {
                    self.step = DispatchStep::Prompt { pane_id: pane, text };
                    Ok(())
                }
            },
            DispatchEvent::Prompted(Err(e)) => {
                let started = started_status(self.card_id.as_str(), self.column.as_str(), self.kind.as_str(), pane.as_str());
                let a = joined(started.as_str(), " but prompt failed (");
                let b = joined(a.as_str(), e.as_str());
                let status = joined(b.as_str(), ")");
                self.finish(status);
                Ok(())
            },
            DispatchEvent::Prompted(Ok(_)) => {
                let linked = apply_link(board, self.card_id.as_str(), pane.as_str(), self.kind.as_str(), now);
                match linked {
                    Ok(()) => {
                        let status = started_status(self.card_id.as_str(), self.column.as_str(), self.kind.as_str(), pane.as_str());
                        self.finish(status);
                        Ok(())
                    },
                    Err(err) => Err(err),
                }
            },
        }
    }

    /// Hands the outcome of the awaited Herdr call to the dispatch, reading
    /// the clock for the link's time stamp; see [`Dispatch::advance_at`].
    pub fn advance(&mut self, board: &mut BoardState, event: DispatchEvent) -> (r: Result<(), BoardError>)
        ensures
            advance_outcome(*old(self), event, *final(self), *old(board), *final(board), r),
            placement_kept(*old(board), *final(board)),
            awaits(old(self).step, event) && r is Ok ==> step_rank(final(self).step) < step_rank(old(self).step),
    {
        let now = clock_seconds();
        self.advance_at(board, event, now)
    }
}

} // verus!
