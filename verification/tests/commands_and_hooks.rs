use guildbot::counter::CommandCounter;
use guildbot::hooks::{
    activity_name, check_failed_reply, dispatch_error, owner_check, CheckOutcome,
    DispatchFailure, OWNER_ID,
};
use guildbot::music::{mute, mute_done, queue, queue_done, unmute, unmute_done, QueueOutcome, VoiceStep};
use guildbot::reply::Outgoing;
use guildbot::roles::{add_role, parse_mention_id, parse_mention_panics, remove_role};
use guildbot::util::{commands, commands_without_argument, latency, ping, LatencyLookup};
use guildbot::voice::{late_night_disconnect, late_night_role, LATE_NIGHT_CHANNEL};

fn say(s: &str) -> Outgoing {
    Outgoing::Say(s.to_string())
}

fn reply(s: &str) -> Outgoing {
    Outgoing::Reply(s.to_string())
}

#[test]
fn counter_starts_empty_and_counts_each_use() {
    let mut c = CommandCounter::new();
    assert_eq!(c.count("ping"), 0);
    c.record("ping");
    c.record("latency");
    c.record("ping");
    assert_eq!(c.count("ping"), 2);
    assert_eq!(c.count("latency"), 1);
    assert_eq!(c.count("multiply"), 0);
}

#[test]
fn counts_do_not_depend_on_order() {
    let mut a = CommandCounter::new();
    let mut b = CommandCounter::new();
    for name in ["ping", "latency", "ping", "commands"] {
        a.record(name);
    }
    for name in ["commands", "ping", "ping", "latency"] {
        b.record(name);
    }
    for name in ["ping", "latency", "commands", "multiply"] {
        assert_eq!(a.count(name), b.count(name));
    }
    assert_eq!(a.count("multiply"), 0);
}

#[test]
fn commands_replies() {
    let mut c = CommandCounter::new();
    assert_eq!(commands(&c, None), reply("I require an argument to run this command."));
    assert_eq!(commands_without_argument(), reply("I require an argument to run this command."));
    assert_eq!(commands(&c, Some("ping")), reply("The command `ping` has not yet been used."));
    c.record("ping");
    assert_eq!(
        commands(&c, Some("ping")),
        reply("The command `ping` has been used 1 time/s this session!")
    );
    for _ in 0..11 {
        c.record("ping");
    }
    assert_eq!(
        commands(&c, Some("ping")),
        reply("The command `ping` has been used 12 time/s this session!")
    );
}

#[test]
fn ping_and_latency_replies() {
    assert_eq!(ping(), say("Pong!"));
    assert_eq!(
        latency(LatencyLookup::NoShardManager),
        say("There was a problem getting the shard manager")
    );
    assert_eq!(latency(LatencyLookup::NoShard), say("No shard found"));
    assert_eq!(latency(LatencyLookup::NotYetMeasured), say("Latency is not available yet"));
    assert_eq!(latency(LatencyLookup::Measured(42)), say("The shard latency is 42ms"));
    assert_eq!(latency(LatencyLookup::Measured(0)), say("The shard latency is 0ms"));
}

#[test]
fn owner_check_only_passes_owner() {
    assert_eq!(owner_check(OWNER_ID), CheckOutcome::Success);
    assert_eq!(owner_check(253290704384557057), CheckOutcome::Success);
    assert_eq!(
        owner_check(1),
        CheckOutcome::Refused("You lack admin permissions".to_string())
    );
}

#[test]
fn dispatch_error_replies() {
    assert_eq!(
        dispatch_error(&DispatchFailure::Ratelimited { seconds: 5 }),
        Some(say("Try this again in 5 seconds."))
    );
    assert_eq!(
        dispatch_error(&DispatchFailure::CheckFailed {
            check: "owner".to_string(),
            user_reason: Some("You lack \"admin\"".to_string()),
        }),
        Some(say("Check owner failed with error \"You lack \\\"admin\\\"\""))
    );
    assert_eq!(
        dispatch_error(&DispatchFailure::CheckFailed { check: "owner".to_string(), user_reason: None }),
        None
    );
    assert_eq!(dispatch_error(&DispatchFailure::Other), None);
    assert_eq!(check_failed_reply("owner", "\"x\""), say("Check owner failed with error \"x\""));
}

#[test]
fn activity_names_guild_count() {
    assert_eq!(activity_name(0), "with 0 guilds");
    assert_eq!(activity_name(3), "with 3 guilds");
    assert_eq!(activity_name(120), "with 120 guilds");
}

#[test]
fn mentions_parse_to_ids() {
    assert_eq!(parse_mention_id("<@136510335967297536>"), Some(136510335967297536));
    assert_eq!(parse_mention_id("<@!136510335967297536>"), Some(136510335967297536));
    assert_eq!(parse_mention_id("<@&137235212097683456>"), Some(137235212097683456));
    assert_eq!(parse_mention_id("<#137234234728251392>"), Some(137234234728251392));
    assert_eq!(parse_mention_id("<@&137235212097683456"), None);
    assert_eq!(parse_mention_id("someone"), None);
    assert_eq!(parse_mention_id("<@+5>"), Some(5));
    assert_eq!(parse_mention_id("<@!007>"), Some(7));
    assert_eq!(parse_mention_id("<@12x"), Some(12));
    assert_eq!(parse_mention_id("<#-1>"), None);
    assert_eq!(parse_mention_id("<@>"), None);
    assert_eq!(parse_mention_id("<@18446744073709551616>"), None);
    assert_eq!(parse_mention_id("<@18446744073709551615>"), Some(u64::MAX));
}

#[test]
fn mention_panic_inputs() {
    assert!(parse_mention_panics("<@é"));
    assert!(parse_mention_panics("<@!12é"));
    assert!(!parse_mention_panics("<@&é"));
    assert!(!parse_mention_panics("<#é"));
    assert!(!parse_mention_panics("<@12>"));
    assert!(!parse_mention_panics("<@"));
}

#[test]
fn role_replies() {
    assert_eq!(add_role("Mods", "Ann"), say("Gave role `Mods` to `Ann`"));
    assert_eq!(remove_role("Mods", "Ann"), say("Removed role `Mods` from `Ann`"));
}

#[test]
fn late_night_rule() {
    assert_eq!(late_night_role(), "Late Night Crew");
    assert!(late_night_disconnect(false, Some(LATE_NIGHT_CHANNEL)));
    assert!(late_night_disconnect(false, Some(807382613076738048)));
    assert!(!late_night_disconnect(false, Some(1)));
    assert!(!late_night_disconnect(true, Some(LATE_NIGHT_CHANNEL)));
    assert!(!late_night_disconnect(true, None));
}

#[test]
fn mute_and_unmute_steps() {
    assert_eq!(mute(false, false), VoiceStep::Send(reply("Not in a voice channel")));
    assert_eq!(mute(true, true), VoiceStep::Send(say("Already muted")));
    assert_eq!(mute(true, false), VoiceStep::Proceed);
    assert_eq!(mute_done(None), vec![say("Now muted")]);
    assert_eq!(mute_done(Some("NoCall")), vec![say("Failed: NoCall"), say("Now muted")]);
    assert_eq!(unmute(false), VoiceStep::Send(say("Not in a voice channel to unmute in")));
    assert_eq!(unmute(true), VoiceStep::Proceed);
    assert_eq!(unmute_done(None), vec![say("Unmuted")]);
    assert_eq!(unmute_done(Some("NoCall")), vec![say("Failed: NoCall"), say("Unmuted")]);
}

#[test]
fn queue_steps() {
    assert_eq!(queue(None), VoiceStep::Send(say("Mut provide a URL to a video or audio")));
    assert_eq!(queue(Some("www.example.com")), VoiceStep::Send(say("Mut provide a valid URL")));
    assert_eq!(queue(Some("https://example.com/v")), VoiceStep::Proceed);
    assert_eq!(queue(Some("http")), VoiceStep::Proceed);
    assert_eq!(queue_done(QueueOutcome::NotInVoice), say("Not in a voice channel to play in"));
    assert_eq!(queue_done(QueueOutcome::SourceFailed), say("Error sourcing ffmpeg"));
    assert_eq!(
        queue_done(QueueOutcome::Added { queue_len: 3 }),
        say("Added song to queue: position 3")
    );
}
