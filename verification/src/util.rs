//! The utility commands: `ping`, `latency` and `commands`.

use vstd::prelude::*;
use crate::counter::{
    lemma_counts_are_occurrences, occurrences, recorded_all, uses_of, CommandCounter,
};
use crate::reply::{join3, join5, owned, Outgoing, OutgoingView};
use crate::text::{decimal, decimal_digits, is_decimal_text_of, lemma_decimal_digits_written};

verus! {

/// The text of an optional argument.
pub open spec fn opt_text(o: Option<&str>) -> Option<Seq<char>> {
    match o {
        Some(s) => Some(s@),
        None => None,
    }
}

/// `ping`: answers "Pong!".
pub fn ping() -> (o: Outgoing)
    ensures
        o@ == OutgoingView::Say("Pong!"@),
{
    Outgoing::Say(owned("Pong!"))
}

/// What the `latency` command found out about the shard that runs it.
#[derive(PartialEq, Eq, Structural, Debug, Clone, Copy)]
pub enum LatencyLookup {
    /// The shard manager is missing from the client's data.
    NoShardManager,
    /// The shard manager has no runner for this shard.
    NoShard,
    /// The runner has not measured a heartbeat yet.
    NotYetMeasured,
    /// The last heartbeat took this many milliseconds.
    Measured(u128),
}

/// The answer of `latency` for what it found.
pub open spec fn latency_reply_of(lookup: LatencyLookup) -> OutgoingView {
    match lookup {
        LatencyLookup::NoShardManager => OutgoingView::Say(
            "There was a problem getting the shard manager"@,
        ),
        LatencyLookup::NoShard => OutgoingView::Say("No shard found"@),
        LatencyLookup::NotYetMeasured => OutgoingView::Say("Latency is not available yet"@),
        LatencyLookup::Measured(ms) => OutgoingView::Say(
            "The shard latency is "@ + decimal_digits(ms as nat) + "ms"@,
        ),
    }
}

/// `latency`: reports the heartbeat latency of the shard, or what kept it
/// from being known.
pub fn latency(lookup: LatencyLookup) -> (o: Outgoing)
    ensures
        o@ == latency_reply_of(lookup),
{
    match lookup {
        LatencyLookup::NoShardManager => Outgoing::Say(
            owned("There was a problem getting the shard manager"),
        ),
        LatencyLookup::NoShard => Outgoing::Say(owned("No shard found")),
        LatencyLookup::NotYetMeasured => Outgoing::Say(owned("Latency is not available yet")),
        LatencyLookup::Measured(ms) => {
            let digits = decimal(ms);
            Outgoing::Say(join3("The shard latency is ", digits.as_str(), "ms"))
        },
    }
}

/// The answer of `commands` given the usage counts and its argument.
pub open spec fn commands_reply_of(
    counts: Map<Seq<char>, u64>,
    command_name: Option<Seq<char>>,
) -> OutgoingView {
    match command_name {
        None => OutgoingView::Reply("I require an argument to run this command."@),
        Some(name) => if uses_of(counts, name) == 0 {
            OutgoingView::Reply("The command `"@ + name + "` has not yet been used."@)
        } else {
            OutgoingView::Reply(
                "The command `"@ + name + "` has been used "@ + decimal_digits(
                    uses_of(counts, name),
                ) + " time/s this session!"@,
            )
        },
    }
}

/// The answer of `commands` when it was given no argument.
pub fn commands_without_argument() -> (o: Outgoing)
    ensures
        o@ == commands_reply_of(Map::empty(), None),
{
    Outgoing::Reply(owned("I require an argument to run this command."))
}

/// `commands`: tells how often the command named in its argument was used
/// in this session.
pub fn commands(counter: &CommandCounter, command_name: Option<&str>) -> (o: Outgoing)
    ensures
        o@ == commands_reply_of(counter@, opt_text(command_name)),
{
    match command_name {
        None => commands_without_argument(),
        Some(name) => {
            let amount = counter.count(name);
            if amount == 0 {
                Outgoing::Reply(join3("The command `", name, "` has not yet been used."))
            } else {
                let digits = decimal(amount as u128);
                Outgoing::Reply(
                    join5(
                        "The command `",
                        name,
                        "` has been used ",
                        digits.as_str(),
                        " time/s this session!",
                    ),
                )
            }
        },
    }
}

/// The latency reply writes the measured number of milliseconds in
/// decimal, between "The shard latency is " and "ms".
pub proof fn lemma_latency_shows_milliseconds(ms: u128)
    ensures
        exists|d: Seq<char>|
            #[trigger] is_decimal_text_of(d, ms as nat) && latency_reply_of(
                LatencyLookup::Measured(ms),
            ) == OutgoingView::Say("The shard latency is "@ + d + "ms"@),
{
    lemma_decimal_digits_written(ms as nat);
    let d = decimal_digits(ms as nat);
    assert(is_decimal_text_of(d, ms as nat) && latency_reply_of(LatencyLookup::Measured(ms))
        == OutgoingView::Say("The shard latency is "@ + d + "ms"@));
}

/// The `commands` reply for a command used `n > 0` times writes `n` in
/// decimal; for one never used it says so; without an argument it asks
/// for one.
pub proof fn lemma_commands_shows_count(counts: Map<Seq<char>, u64>, name: Seq<char>)
    ensures
        uses_of(counts, name) == 0 ==> commands_reply_of(counts, Some(name)) == OutgoingView::Reply(
            "The command `"@ + name + "` has not yet been used."@,
        ),
        uses_of(counts, name) > 0 ==> exists|d: Seq<char>|
            #[trigger] is_decimal_text_of(d, uses_of(counts, name)) && commands_reply_of(
                counts,
                Some(name),
            ) == OutgoingView::Reply(
                "The command `"@ + name + "` has been used "@ + d + " time/s this session!"@,
            ),
        commands_reply_of(counts, None) == OutgoingView::Reply(
            "I require an argument to run this command."@,
        ),
{
    let n = uses_of(counts, name);
    if n > 0 {
        lemma_decimal_digits_written(n);
        let d = decimal_digits(n);
        assert(is_decimal_text_of(d, n) && commands_reply_of(counts, Some(name))
            == OutgoingView::Reply(
            "The command `"@ + name + "` has been used "@ + d + " time/s this session!"@,
        ));
    }
}

/// After the commands `names` were recorded in a fresh counter, the
/// `commands` reply for `name` writes how many of `names` are `name`.
pub proof fn lemma_commands_after_recording(names: Seq<Seq<char>>, name: Seq<char>)
    requires
        names.len() < u64::MAX,
    ensures
        occurrences(names, name) == 0 ==> commands_reply_of(
            recorded_all(Map::empty(), names),
            Some(name),
        ) == OutgoingView::Reply("The command `"@ + name + "` has not yet been used."@),
        occurrences(names, name) > 0 ==> exists|d: Seq<char>|
            #[trigger] is_decimal_text_of(d, occurrences(names, name)) && commands_reply_of(
                recorded_all(Map::empty(), names),
                Some(name),
            ) == OutgoingView::Reply(
                "The command `"@ + name + "` has been used "@ + d + " time/s this session!"@,
            ),
{
    lemma_counts_are_occurrences(names, name);
    lemma_commands_shows_count(recorded_all(Map::empty(), names), name);
}

} // verus!
