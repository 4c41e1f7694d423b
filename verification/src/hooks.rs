//! The framework hooks and checks: the owner check, the answers to
//! dispatch errors, and the activity that the bot shows.

use vstd::prelude::*;
use crate::reply::{join3, join4, owned, Outgoing, OutgoingView};
use crate::text::{decimal, decimal_digits, is_decimal_text_of, lemma_decimal_digits_written};

verus! {

/// The user id of the bot's owner.
pub const OWNER_ID: u64 = 253290704384557057;

/// The outcome of a command check.
#[derive(Debug, Clone, PartialEq, Eq)]
pub enum CheckOutcome {
    /// The command may run.
    Success,
    /// The command is refused; the reason is shown to the user.
    Refused(String),
}

/// The value of a [`CheckOutcome`]: `None` for success, else the reason.
pub open spec fn check_outcome_view(c: CheckOutcome) -> Option<Seq<char>> {
    match c {
        CheckOutcome::Success => None,
        CheckOutcome::Refused(r) => Some(r@),
    }
}

/// The `owner` check: only the owner passes.
pub fn owner_check(author_id: u64) -> (c: CheckOutcome)
    ensures
        check_outcome_view(c) == if author_id == OWNER_ID {
            None
        } else {
            Some("You lack admin permissions"@)
        },
{
    if author_id != OWNER_ID {
        return CheckOutcome::Refused(owned("You lack admin permissions"));
    }
    CheckOutcome::Success
}

/// Why the framework did not run a command.
#[derive(Debug, Clone, PartialEq, Eq)]
pub enum DispatchFailure {
    /// The command is rate limited for this many more seconds.
    Ratelimited { seconds: u64 },
    /// The check named `check` failed; `user_reason` is the reason meant
    /// for the user, when the check gave one.
    CheckFailed { check: String, user_reason: Option<String> },
    /// Any other reason.
    Other,
}

/// How `{:?}` renders a string: quoted, with escapes.
pub uninterp spec fn debug_text(s: Seq<char>) -> Seq<char>;

/// Renders `s` with `{:?}`. Trusted: the text is `debug_text(s)`.
#[verifier::external_body]
fn debug_quoted(s: &str) -> (r: String)
    ensures
        r@ == debug_text(s@),
{
    format!("{:?}", s)
}

/// The answer when the check `check` failed for the reason whose `{:?}`
/// rendering is `quoted_reason`.
pub fn check_failed_reply(check: &str, quoted_reason: &str) -> (o: Outgoing)
    ensures
        o@ == OutgoingView::Say("Check "@ + check@ + " failed with error "@ + quoted_reason@),
{
    Outgoing::Say(join4("Check ", check, " failed with error ", quoted_reason))
}

/// The answer to a dispatch failure, if the bot says anything.
pub open spec fn dispatch_reply_of(failure: DispatchFailure) -> Option<OutgoingView> {
    match failure {
        DispatchFailure::Ratelimited { seconds } => Some(
            OutgoingView::Say("Try this again in "@ + decimal_digits(seconds as nat) + " seconds."@),
        ),
        DispatchFailure::CheckFailed { check, user_reason } => match user_reason {
            Some(reason) => Some(
                OutgoingView::Say("Check "@ + check@ + " failed with error "@ + debug_text(reason@)),
            ),
            None => None,
        },
        DispatchFailure::Other => None,
    }
}

/// The value of an optional message.
pub open spec fn opt_outgoing_view(o: Option<Outgoing>) -> Option<OutgoingView> {
    match o {
        Some(o) => Some(o@),
        None => None,
    }
}

/// `dispatch_error`: what the bot says when the framework refused to run
/// a command; `None` where it only logs.
pub fn dispatch_error(failure: &DispatchFailure) -> (o: Option<Outgoing>)
    ensures
        opt_outgoing_view(o) == dispatch_reply_of(*failure),
{
    match failure {
        DispatchFailure::Ratelimited { seconds } => {
            let digits = decimal(*seconds as u128);
            Some(Outgoing::Say(join3("Try this again in ", digits.as_str(), " seconds.")))
        },
        DispatchFailure::CheckFailed { check, user_reason } => match user_reason {
            Some(reason) => {
                let quoted = debug_quoted(reason.as_str());
                Some(check_failed_reply(check.as_str(), quoted.as_str()))
            },
            None => None,
        },
        DispatchFailure::Other => None,
    }
}

/// The activity text for `n` guilds.
pub open spec fn activity_text(n: nat) -> Seq<char> {
    "with "@ + decimal_digits(n) + " guilds"@
}

/// The activity text writes the number of guilds in decimal.
pub proof fn lemma_activity_shows_guilds(n: nat)
    ensures
        exists|d: Seq<char>|
            #[trigger] is_decimal_text_of(d, n) && activity_text(n) == "with "@ + d + " guilds"@,
{
    lemma_decimal_digits_written(n);
    assert(is_decimal_text_of(decimal_digits(n), n));
}

/// A rate-limited command is answered with the seconds to wait written in
/// decimal; a failed check with a reason for the user is answered with the
/// check's name and the reason rendered by `{:?}`; nothing else is
/// answered.
pub proof fn lemma_dispatch_replies(seconds: u64, check: String, reason: String)
    ensures
        exists|d: Seq<char>|
            #[trigger] is_decimal_text_of(d, seconds as nat) && dispatch_reply_of(
                DispatchFailure::Ratelimited { seconds },
            ) == Some(OutgoingView::Say("Try this again in "@ + d + " seconds."@)),
        dispatch_reply_of(DispatchFailure::CheckFailed { check, user_reason: Some(reason) })
            == Some(OutgoingView::Say("Check "@ + check@ + " failed with error "@ + debug_text(reason@))),
        dispatch_reply_of(DispatchFailure::CheckFailed { check, user_reason: None }) is None,
        dispatch_reply_of(DispatchFailure::Other) is None,
{
    lemma_decimal_digits_written(seconds as nat);
    assert(is_decimal_text_of(decimal_digits(seconds as nat), seconds as nat));
}

/// The activity the bot shows while it serves `guild_count` guilds.
pub fn activity_name(guild_count: usize) -> (s: String)
    ensures
        s@ == activity_text(guild_count as nat),
{
    let digits = decimal(guild_count as u128);
    join3("with ", digits.as_str(), " guilds")
}

} // verus!
