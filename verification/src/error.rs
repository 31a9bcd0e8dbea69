//! Errors of board operations and their messages.

use vstd::prelude::*;

use crate::text::{decimal_digits, decimal_text, joined};

verus! {

/// The text that `{:?}` (std's `Debug` for `str`) gives for a string: the
/// string between double quotes, with escapes.
pub uninterp spec fn debug_text(s: Seq<char>) -> Seq<char>;

/// Formats `s` with `{:?}`, std's `Debug` for `str`. Which characters it
/// escapes follows std's tables of printable and grapheme-extending
/// characters, so the contract names the result rather than spelling it out;
/// nothing more is claimed of it.
#[verifier::external_body]
fn debug_quoted(s: &str) -> (r: String)
    ensures
        r@ == debug_text(s@),
{
    format!("{:?}", s)
}

/// `s` quoted as `{:?}` writes it.
pub fn quoted_text(s: &str) -> (r: String)
    ensures
        r@ == debug_text(s@),
{
    debug_quoted(s)
}

/// Why a board operation was refused.
#[derive(Debug)]
pub enum BoardError {
    /// No card carries the id.
    CardNotFound { id: String },
    /// The card disappeared while its dispatch was under way.
    CardVanished { id: String },
    /// Another writer advanced the stored revision since the board was loaded.
    ConcurrentModification { on_disk: u64, loaded: u64 },
    /// The system clock stands before the Unix epoch; `cause` is the clock's
    /// own message.
    ClockBeforeEpoch { cause: String },
    /// No title was given and no invoking pane was found to take one from.
    NoTitle,
    /// The card has no linked pane.
    NoLinkedPane { id: String },
    /// The card's linked pane is not among the live panes.
    PaneGone { pane_id: String, id: String },
}

/// The message that describes an error, with `first` and `second` standing
/// for its quoted fields (the card id, or the pane id then the card id).
pub open spec fn error_text(e: BoardError, first: Seq<char>, second: Seq<char>) -> Seq<char> {
    match e {
        BoardError::CardNotFound { .. } => "card "@ + first + " not found"@,
        BoardError::CardVanished { .. } => "card "@ + first + " vanished during dispatch"@,
        BoardError::ConcurrentModification { on_disk, loaded } => "concurrent modification detected (on-disk revision "@
            + decimal_digits(on_disk as nat) + ", loaded revision "@ + decimal_digits(loaded as nat)
            + ")"@,
        BoardError::ClockBeforeEpoch { cause } => "system clock before unix epoch: "@ + cause@,
        BoardError::NoTitle => "no title given and no focused/invoking pane detected (run from a Herdr pane or pass an explicit title)"@,
        BoardError::NoLinkedPane { .. } => "card "@ + first + " has no linked pane"@,
        BoardError::PaneGone { .. } => "linked pane "@ + first + " for card "@ + second + " no longer exists"@,
    }
}

/// The fields of an error that its message quotes: the card id, or the pane
/// id then the card id.
pub open spec fn quoted_fields(e: BoardError) -> (Seq<char>, Seq<char>) {
    match e {
        BoardError::CardNotFound { id } => (id@, Seq::empty()),
        BoardError::CardVanished { id } => (id@, Seq::empty()),
        BoardError::NoLinkedPane { id } => (id@, Seq::empty()),
        BoardError::PaneGone { pane_id, id } => (pane_id@, id@),
        _ => (Seq::empty(), Seq::empty()),
    }
}

/// The message that describes an error, its fields quoted as `{:?}` writes
/// them.
pub open spec fn error_message(e: BoardError) -> Seq<char> {
    error_text(e, debug_text(quoted_fields(e).0), debug_text(quoted_fields(e).1))
}

impl BoardError {
    /// The message that describes the error, with `first` and `second` in
    /// place of its quoted fields.
    pub fn message_quoting(&self, first: &str, second: &str) -> (r: String)
        ensures
            r@ == error_text(*self, first@, second@),
    {
        match self {
            BoardError::CardNotFound { .. } => joined(joined("card ", first).as_str(), " not found"),
            BoardError::CardVanished { .. } => joined(joined("card ", first).as_str(), " vanished during dispatch"),
            BoardError::ConcurrentModification { on_disk, loaded } => {
                let a = decimal_text(*on_disk);
                let b = decimal_text(*loaded);
                let s1 = joined("concurrent modification detected (on-disk revision ", a.as_str());
                let s2 = joined(s1.as_str(), ", loaded revision ");
                let s3 = joined(s2.as_str(), b.as_str());
                joined(s3.as_str(), ")")
            },
            BoardError::ClockBeforeEpoch { cause } => joined("system clock before unix epoch: ", cause.as_str()),
            BoardError::NoTitle => "no title given and no focused/invoking pane detected (run from a Herdr pane or pass an explicit title)".to_owned(),
            BoardError::NoLinkedPane { .. } => joined(joined("card ", first).as_str(), " has no linked pane"),
            BoardError::PaneGone { .. } => {
                let s1 = joined("linked pane ", first);
                let s2 = joined(s1.as_str(), " for card ");
                let s3 = joined(s2.as_str(), second);
                joined(s3.as_str(), " no longer exists")
            },
        }
    }

    /// The message that describes the error.
    pub fn message(&self) -> (r: String)
        ensures
            r@ == error_message(*self),
    {
        let (first, second) = match self {
            BoardError::CardNotFound { id } => (quoted_text(id.as_str()), String::new()),
            BoardError::CardVanished { id } => (quoted_text(id.as_str()), String::new()),
            BoardError::NoLinkedPane { id } => (quoted_text(id.as_str()), String::new()),
            BoardError::PaneGone { pane_id, id } => (quoted_text(pane_id.as_str()), quoted_text(id.as_str())),
            _ => (String::new(), String::new()),
        };
        self.message_quoting(first.as_str(), second.as_str())
    }
}

} // verus!
