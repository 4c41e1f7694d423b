//! The voice commands `mute`, `unmute` and `queue`: when they act, and what
//! they answer.

use vstd::prelude::*;
use crate::reply::{join2, owned, Outgoing, OutgoingView};
use crate::text::{
    decimal, decimal_digits, has_prefix, is_decimal_text_of, lemma_decimal_digits_written,
    starts_with,
};
use crate::util::opt_text;

verus! {

/// What a voice command does before it touches the call.
#[derive(Debug, Clone, PartialEq, Eq)]
pub enum VoiceStep {
    /// Send this and stop.
    Send(Outgoing),
    /// Go on to the call.
    Proceed,
}

/// The value of a [`VoiceStep`]: `Some` message to send and stop, or
/// `None` to go on.
pub open spec fn voice_step_view(s: VoiceStep) -> Option<OutgoingView> {
    match s {
        VoiceStep::Send(o) => Some(o@),
        VoiceStep::Proceed => None,
    }
}

/// The values of a list of messages.
pub open spec fn outgoing_views(v: Seq<Outgoing>) -> Seq<OutgoingView> {
    v.map_values(|o: Outgoing| o@)
}

/// `mute`: refuses outside a voice call and when already muted; otherwise
/// goes on to mute.
pub fn mute(in_voice: bool, already_muted: bool) -> (s: VoiceStep)
    ensures
        voice_step_view(s) == if !in_voice {
            Some(OutgoingView::Reply("Not in a voice channel"@))
        } else if already_muted {
            Some(OutgoingView::Say("Already muted"@))
        } else {
            None::<OutgoingView>
        },
{
    if !in_voice {
        VoiceStep::Send(Outgoing::Reply(owned("Not in a voice channel")))
    } else if already_muted {
        VoiceStep::Send(Outgoing::Say(owned("Already muted")))
    } else {
        VoiceStep::Proceed
    }
}

/// The messages after asking the call to mute or unmute: the error, when
/// there was one (`error` is its `{:?}` rendering), then `done` in any case.
pub open spec fn toggle_messages(error: Option<Seq<char>>, done: Seq<char>) -> Seq<OutgoingView> {
    match error {
        Some(e) => seq![OutgoingView::Say("Failed: "@ + e), OutgoingView::Say(done)],
        None => seq![OutgoingView::Say(done)],
    }
}

fn toggle_done(error: Option<&str>, done: &str) -> (v: Vec<Outgoing>)
    ensures
        outgoing_views(v@) == toggle_messages(opt_text(error), done@),
{
    let mut v: Vec<Outgoing> = Vec::new();
    match error {
        Some(e) => v.push(Outgoing::Say(join2("Failed: ", e))),
        None => {},
    }
    v.push(Outgoing::Say(owned(done)));
    assert(outgoing_views(v@) =~= toggle_messages(opt_text(error), done@));
    v
}

/// The messages of `mute` once the call was asked to mute.
pub fn mute_done(error: Option<&str>) -> (v: Vec<Outgoing>)
    ensures
        outgoing_views(v@) == toggle_messages(opt_text(error), "Now muted"@),
{
    toggle_done(error, "Now muted")
}

/// `unmute`: refuses outside a voice call; otherwise goes on to unmute.
pub fn unmute(in_voice: bool) -> (s: VoiceStep)
    ensures
        voice_step_view(s) == if !in_voice {
            Some(OutgoingView::Say("Not in a voice channel to unmute in"@))
        } else {
            None::<OutgoingView>
        },
{
    if !in_voice {
        VoiceStep::Send(Outgoing::Say(owned("Not in a voice channel to unmute in")))
    } else {
        VoiceStep::Proceed
    }
}

/// The messages of `unmute` once the call was asked to unmute.
pub fn unmute_done(error: Option<&str>) -> (v: Vec<Outgoing>)
    ensures
        outgoing_views(v@) == toggle_messages(opt_text(error), "Unmuted"@),
{
    toggle_done(error, "Unmuted")
}

/// What `queue` does with its URL argument.
pub open spec fn queue_step_of(url: Option<Seq<char>>) -> Option<OutgoingView> {
    match url {
        None => Some(OutgoingView::Say("Mut provide a URL to a video or audio"@)),
        Some(u) => if has_prefix(u, "http"@) {
            None
        } else {
            Some(OutgoingView::Say("Mut provide a valid URL"@))
        },
    }
}

/// `queue`: refuses a missing URL and one that does not start with
/// "http"; otherwise goes on to fetch it.
pub fn queue(url: Option<&str>) -> (s: VoiceStep)
    ensures
        voice_step_view(s) == queue_step_of(opt_text(url)),
{
    match url {
        None => VoiceStep::Send(Outgoing::Say(owned("Mut provide a URL to a video or audio"))),
        Some(u) => {
            proof {
                reveal_strlit("http");
            }
            if starts_with(u, "http") {
                VoiceStep::Proceed
            } else {
                VoiceStep::Send(Outgoing::Say(owned("Mut provide a valid URL")))
            }
        },
    }
}

/// How the attempt to queue a track went.
#[derive(PartialEq, Eq, Structural, Debug, Clone, Copy)]
pub enum QueueOutcome {
    /// The bot is in no call in this guild.
    NotInVoice,
    /// The audio source could not be opened.
    SourceFailed,
    /// The track was added; the queue now holds this many tracks.
    Added { queue_len: usize },
}

/// The answer of `queue` for how it went.
pub open spec fn queue_reply_of(outcome: QueueOutcome) -> OutgoingView {
    match outcome {
        QueueOutcome::NotInVoice => OutgoingView::Say("Not in a voice channel to play in"@),
        QueueOutcome::SourceFailed => OutgoingView::Say("Error sourcing ffmpeg"@),
        QueueOutcome::Added { queue_len } => OutgoingView::Say(
            "Added song to queue: position "@ + decimal_digits(queue_len as nat),
        ),
    }
}

/// The answer of `queue` once it tried to add the track.
pub fn queue_done(outcome: QueueOutcome) -> (o: Outgoing)
    ensures
        o@ == queue_reply_of(outcome),
{
    match outcome {
        QueueOutcome::NotInVoice => Outgoing::Say(owned("Not in a voice channel to play in")),
        QueueOutcome::SourceFailed => Outgoing::Say(owned("Error sourcing ffmpeg")),
        QueueOutcome::Added { queue_len } => {
            let digits = decimal(queue_len as u128);
            Outgoing::Say(join2("Added song to queue: position ", digits.as_str()))
        },
    }
}

/// Once a track was added, `queue` reports the new length of the queue in
/// decimal as the track's position.
pub proof fn lemma_queue_reports_position(queue_len: usize)
    ensures
        exists|d: Seq<char>|
            #[trigger] is_decimal_text_of(d, queue_len as nat) && queue_reply_of(
                QueueOutcome::Added { queue_len },
            ) == OutgoingView::Say("Added song to queue: position "@ + d),
{
    lemma_decimal_digits_written(queue_len as nat);
    assert(is_decimal_text_of(decimal_digits(queue_len as nat), queue_len as nat));
}

/// After asking the call to mute or unmute, the last message is always the
/// `done` text; it is preceded by "Failed: " and the error exactly when
/// there was one.
pub proof fn lemma_toggle_always_ends_done(error: Option<Seq<char>>, done: Seq<char>)
    ensures
        toggle_messages(error, done).last() == OutgoingView::Say(done),
        toggle_messages(error, done).len() == if error is Some {
            2int
        } else {
            1int
        },
        error matches Some(e) ==> toggle_messages(error, done)[0] == OutgoingView::Say(
            "Failed: "@ + e,
        ),
{
}

/// `queue` goes on with a URL exactly when its first four characters are
/// `h`, `t`, `t`, `p`; any other URL is refused as not valid, and a missing
/// one is asked for.
pub proof fn lemma_queue_checks_http_only(u: Seq<char>)
    ensures
        queue_step_of(Some(u)) is None <==> (u.len() >= 4 && u[0] == 'h' && u[1] == 't' && u[2]
            == 't' && u[3] == 'p'),
        queue_step_of(Some(u)) is Some ==> queue_step_of(Some(u)) == Some(
            OutgoingView::Say("Mut provide a valid URL"@),
        ),
        queue_step_of(None) == Some(OutgoingView::Say("Mut provide a URL to a video or audio"@)),
{
    reveal_strlit("http");
    if u.len() >= 4 && u[0] == 'h' && u[1] == 't' && u[2] == 't' && u[3] == 'p' {
        assert(u.take(4) =~= "http"@);
    }
    if has_prefix(u, "http"@) {
        assert(u.take(4)[0] == 'h' && u.take(4)[1] == 't' && u.take(4)[2] == 't' && u.take(4)[3]
            == 'p');
    }
}

} // verus!
