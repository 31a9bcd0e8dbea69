//! What the board screen shows, apart from where the layout puts its panels:
//! the title line, the body of a column (where each card goes and what it
//! reads), and the title editor's box.

use vstd::prelude::*;

use crate::state::{
    card_derefs, card_index, column_derefs, find_card, lemma_card_index, lemma_slug_index_prefix, ordered,
    slug_index, Card,
};
use crate::text::{decimal_digits, decimal_text, joined, text_eq};
use crate::tui::{column_cards, opt_view, App, Mode, Rect};

verus! {

// ---------------------------------------------------------------------------
// Title line
// ---------------------------------------------------------------------------

/// Title of the focused column (the first with its slug in display order),
/// or `-`.
pub open spec fn focused_title(app: App) -> Seq<char> {
    let os = ordered(app.board.columns@);
    let i = slug_index(os, app.focused_column@);
    if i >= 0 {
        os[i].title@
    } else {
        "-"@
    }
}

/// Title of the selected card, or `-`.
pub open spec fn selected_title(app: App) -> Seq<char> {
    match app.selected_card {
        Some(id) => {
            let k = card_index(app.board.cards@, id@);
            if k >= 0 {
                app.board.cards@[k].title@
            } else {
                "-"@
            }
        },
        None => "-"@,
    }
}

/// The text beside the board's name in the title bar.
pub open spec fn title_text(app: App) -> Seq<char> {
    "    focused: "@ + focused_title(app) + "    selected: "@ + selected_title(app) + "    revision: "@
        + decimal_digits(app.board.revision as nat)
}

fn focused_column_title(app: &App) -> (r: String)
    ensures
        r@ == focused_title(*app),
{
    let columns = app.board.ordered_columns();
    let ghost os = column_derefs(columns@);
    let ghost slug = app.focused_column@;
    let n = columns.len();
    let mut i: usize = 0;
    assert(os.take(0) =~= Seq::<crate::state::Column>::empty());
    while i < n
        invariant
            n == columns@.len(),
            os == column_derefs(columns@),
            os == ordered(app.board.columns@),
            slug == app.focused_column@,
            i <= n,
            slug_index(os.take(i as int), slug) == -1,
        decreases n - i,
    {
        assert(os.take(i + 1).drop_last() =~= os.take(i as int));
        assert(os[i as int] == *columns@[i as int]);
        if text_eq(columns[i].slug.as_str(), app.focused_column.as_str()) {
            proof {
                assert(os.take(i + 1).last() == os[i as int]);
                assert(slug_index(os.take(i + 1), slug) == i);
                lemma_slug_index_prefix(os, slug, i + 1);
            }
            return columns[i].title.clone();
        }
        i = i + 1;
    }
    assert(os.take(n as int) =~= os);
    "-".to_owned()
}

fn selected_card_title(app: &App) -> (r: String)
    ensures
        r@ == selected_title(*app),
{
    match &app.selected_card {
        Some(id) => match find_card(&app.board.cards, id.as_str()) {
            Some(k) => {
                proof {
                    lemma_card_index(app.board.cards@, id@);
                }
                app.board.cards[k].title.clone()
            },
            None => "-".to_owned(),
        },
        None => "-".to_owned(),
    }
}

/// The text beside the board's name in the title bar: the focused column's
/// title, the selected card's title and the board's revision.
pub fn title_line(app: &App) -> (r: String)
    ensures
        r@ == title_text(*app),
{
    let f = focused_column_title(app);
    let s = selected_card_title(app);
    let v = decimal_text(app.board.revision);
    let a = joined("    focused: ", f.as_str());
    let b = joined(a.as_str(), "    selected: ");
    let c = joined(b.as_str(), s.as_str());
    let d = joined(c.as_str(), "    revision: ");
    joined(d.as_str(), v.as_str())
}

// ---------------------------------------------------------------------------
// Regions
// ---------------------------------------------------------------------------

/// `r` shrunk by `vertical` rows and `horizontal` columns on each side, or the
/// empty region at the origin when it is too small for that.
pub open spec fn shrunk(r: Rect, vertical: u16, horizontal: u16) -> Rect {
    let dh = if 2 * horizontal > u16::MAX { u16::MAX as int } else { 2 * horizontal };
    let dv = if 2 * vertical > u16::MAX { u16::MAX as int } else { 2 * vertical };
    if r.width < dh || r.height < dv {
        Rect { x: 0, y: 0, width: 0, height: 0 }
    } else {
        Rect {
            x: (if r.x + horizontal > u16::MAX { u16::MAX as int } else { r.x + horizontal }) as u16,
            y: (if r.y + vertical > u16::MAX { u16::MAX as int } else { r.y + vertical }) as u16,
            width: (r.width - dh) as u16,
            height: (r.height - dv) as u16,
        }
    }
}

/// The region inside a margin, as ratatui's `Rect::inner` computes it.
pub fn inner_rect(r: Rect, vertical: u16, horizontal: u16) -> (s: Rect)
    ensures
        s == shrunk(r, vertical, horizontal),
{
    let dh: u16 = if horizontal > 32767 { u16::MAX } else { 2 * horizontal };
    let dv: u16 = if vertical > 32767 { u16::MAX } else { 2 * vertical };
    if r.width < dh || r.height < dv {
        Rect { x: 0, y: 0, width: 0, height: 0 }
    } else {
        Rect {
            x: r.x.saturating_add(horizontal),
            y: r.y.saturating_add(vertical),
            width: r.width - dh,
            height: r.height - dv,
        }
    }
}

// ---------------------------------------------------------------------------
// Column body
// ---------------------------------------------------------------------------

/// A card as the board shows it.
#[derive(Debug)]
pub struct CardBox {
    pub id: String,
    /// Where the card's box is drawn.
    pub rect: Rect,
    /// The first line: a marker when selected, then the title.
    pub heading: String,
    /// The second line: the linked pane, else the agent, when there is one.
    pub detail: Option<String>,
    pub selected: bool,
}

/// The cards of a column as shown in its body.
#[derive(Debug)]
pub struct ColumnBody {
    /// The cards that fit, from the top.
    pub cards: Vec<CardBox>,
    /// How many cards did not fit.
    pub hidden: usize,
    /// The row below the last card shown.
    pub next_row: u16,
}

/// Rows a card takes: one more when it shows a pane or agent.
pub open spec fn card_rows(c: Card) -> int {
    if c.pane_id is Some || c.agent_name is Some {
        4
    } else {
        3
    }
}

/// Top row of the `i`-th card: the cards before it stacked from `top`.
pub open spec fn card_top(cards: Seq<Card>, top: int, i: int) -> int
    decreases i,
{
    if i <= 0 {
        top
    } else {
        card_top(cards, top, i - 1) + card_rows(cards[i - 1])
    }
}

/// The bottom edge of a region, held at the terminal's limit.
pub open spec fn bottom_edge(r: Rect) -> int {
    if r.y + r.height > u16::MAX {
        u16::MAX as int
    } else {
        r.y + r.height
    }
}

/// How many cards are shown from the `i`-th on: cards are placed in turn and
/// the first one that would end below the bottom edge stops the column.
pub open spec fn shown_from(cards: Seq<Card>, area: Rect, i: int) -> int
    decreases cards.len() - i,
{
    if i < 0 || i >= cards.len() {
        cards.len() as int
    } else if card_top(cards, area.y as int, i) + card_rows(cards[i]) > bottom_edge(area) {
        i
    } else {
        shown_from(cards, area, i + 1)
    }
}

/// The second line of a card.
pub open spec fn detail_text(c: Card) -> Option<Seq<char>> {
    match c.pane_id {
        Some(p) => Some("  pane "@ + p@),
        None => match c.agent_name {
            Some(a) => Some("  agent "@ + a@),
            None => None,
        },
    }
}

/// The first line of a card: a marker when it is selected, then its title.
pub open spec fn heading_text(selected: bool, title: Seq<char>) -> Seq<char> {
    (if selected {
        "\u{25B8} "@
    } else {
        "  "@
    }) + title
}

/// `b` shows card `c` with its top at `top`, selected when its id is `sel`.
pub open spec fn is_card_box(b: CardBox, c: Card, area: Rect, top: int, sel: Option<Seq<char>>) -> bool {
    let selected = sel == Some(c.id@);
    &&& b.id == c.id
    &&& b.rect == Rect { x: area.x, y: top as u16, width: area.width, height: card_rows(c) as u16 }
    &&& b.selected == selected
    &&& b.heading@ == heading_text(selected, c.title@)
    &&& opt_view(b.detail) == detail_text(c)
}

fn card_box(c: &Card, area: Rect, top: u16, rows: u16, selected: bool) -> (b: CardBox)
    requires
        rows == card_rows(*c),
    ensures
        b.id == c.id,
        b.rect == (Rect { x: area.x, y: top, width: area.width, height: rows }),
        b.selected == selected,
        b.heading@ == heading_text(selected, c.title@),
        opt_view(b.detail) == detail_text(*c),
{
    let prefix = if selected { "\u{25B8} " } else { "  " };
    let heading = joined(prefix, c.title.as_str());
    let detail = match &c.pane_id {
        Some(p) => Some(joined("  pane ", p.as_str())),
        None => match &c.agent_name {
            Some(a) => Some(joined("  agent ", a.as_str())),
            None => None,
        },
    };
    CardBox {
        id: c.id.clone(),
        rect: Rect { x: area.x, y: top, width: area.width, height: rows },
        heading,
        detail,
        selected,
    }
}

/// The body of column `slug` drawn in `area`: its cards in display order,
/// stacked from the top of `area` as long as they fit, with how many did not
/// fit and the row below the last one shown.
pub fn column_body(app: &App, slug: &str, area: Rect) -> (r: ColumnBody)
    ensures
        ({
            let cs = column_cards(app.board, slug@);
            let k = shown_from(cs, area, 0);
            &&& r.cards@.len() == k
            &&& forall|i: int|
                0 <= i < k ==> is_card_box(
                    #[trigger] r.cards@[i],
                    cs[i],
                    area,
                    card_top(cs, area.y as int, i),
                    opt_view(app.selected_card),
                )
            &&& r.hidden == cs.len() - k
            &&& r.next_row == card_top(cs, area.y as int, k)
        }),
{
    let cards = app.board.cards_in_column(slug);
    let ghost cs = card_derefs(cards@);
    assert(cs == column_cards(app.board, slug@));
    let n = cards.len();
    let bottom: u32 = if (area.y as u32) + (area.height as u32) > 65535 {
        65535
    } else {
        (area.y as u32) + (area.height as u32)
    };
    let mut boxes: Vec<CardBox> = Vec::new();
    let mut y: u32 = area.y as u32;
    let mut i: usize = 0;
    while i < n
        invariant
            n == cards@.len(),
            cs == card_derefs(cards@),
            cs.len() == n,
            i <= n,
            bottom == bottom_edge(area),
            y == card_top(cs, area.y as int, i as int),
            y <= 65535,
            shown_from(cs, area, 0) == shown_from(cs, area, i as int),
            boxes@.len() == i,
            forall|j: int|
                0 <= j < i ==> is_card_box(
                    #[trigger] boxes@[j],
                    cs[j],
                    area,
                    card_top(cs, area.y as int, j),
                    opt_view(app.selected_card),
                ),
        ensures
            shown_from(cs, area, 0) == i,
            boxes@.len() == i,
            y == card_top(cs, area.y as int, i as int),
            y <= 65535,
            forall|j: int|
                0 <= j < i ==> is_card_box(
                    #[trigger] boxes@[j],
                    cs[j],
                    area,
                    card_top(cs, area.y as int, j),
                    opt_view(app.selected_card),
                ),
        decreases n - i,
    {
        let c: &Card = cards[i];
        assert(*c == cs[i as int]);
        let rows: u32 = if c.pane_id.is_some() || c.agent_name.is_some() {
            4
        } else {
            3
        };
        if y + rows > bottom {
            break;
        }
        let selected = match &app.selected_card {
            Some(s) => text_eq(s.as_str(), c.id.as_str()),
            None => false,
        };
        assert(selected == (opt_view(app.selected_card) == Some(c.id@)));
        let b = card_box(c, area, y as u16, rows as u16, selected);
        boxes.push(b);
        y = y + rows;
        i = i + 1;
    }
    ColumnBody { cards: boxes, hidden: n - i, next_row: y as u16 }
}

// ---------------------------------------------------------------------------
// Title editor
// ---------------------------------------------------------------------------

/// The title editor's box: three rows high, as wide as the screen less four
/// columns but at most 60 and at least 10, centred.
pub open spec fn editor_box(area: Rect) -> Rect {
    let w0 = if area.width >= 4 { area.width - 4 } else { 0 };
    let w1 = if w0 < 60 { w0 } else { 60 };
    let width = if w1 > 10 { w1 } else { 10 };
    let dx = if area.width >= width { area.width - width } else { 0 };
    let dy = if area.height >= 3 { area.height - 3 } else { 0 };
    Rect { x: (area.x + dx / 2) as u16, y: (area.y + dy / 2) as u16, width: width as u16, height: 3 }
}

/// Where the title editor is drawn on a screen of `area`.
pub fn editor_rect(area: Rect) -> (r: Rect)
    requires
        area.x + area.width <= u16::MAX,
        area.y + area.height <= u16::MAX,
    ensures
        r == editor_box(area),
{
    let w0: u16 = if area.width >= 4 { area.width - 4 } else { 0 };
    let w1: u16 = if w0 < 60 { w0 } else { 60 };
    let width: u16 = if w1 > 10 { w1 } else { 10 };
    let dx: u16 = if area.width >= width { area.width - width } else { 0 };
    let dy: u16 = if area.height >= 3 { area.height - 3 } else { 0 };
    Rect { x: area.x + dx / 2, y: area.y + dy / 2, width, height: 3 }
}

/// The title editor's caption in each mode.
pub open spec fn editor_caption(mode: Mode) -> Seq<char> {
    match mode {
        Mode::NewCard => " New card title (Enter to save, Esc to cancel) "@,
        Mode::EditCard => " Edit card title (Enter to save, Esc to cancel) "@,
        Mode::Normal => " "@,
    }
}

/// The title editor's caption.
pub fn editor_prompt(mode: Mode) -> (r: &'static str)
    ensures
        r@ == editor_caption(mode),
{
    match mode {
        Mode::NewCard => " New card title (Enter to save, Esc to cancel) ",
        Mode::EditCard => " Edit card title (Enter to save, Esc to cancel) ",
        Mode::Normal => " ",
    }
}

} // verus!
