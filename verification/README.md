# guildbot

The command logic of a Discord guild bot, verified with Verus.

- `src/` is the library. Each module holds the decisions and replies of a
  group of commands: `emoji` (image payloads for new emojis, finding the
  emoji a mention names), `roles`, `util` (`ping`, `latency`, `commands`),
  `music` (`mute`, `unmute`, `queue`), `voice` (the late-night rule),
  `hooks` (the owner check, dispatch-error answers, the activity text) and
  `counter` (per-command usage counts). `encoding` states standard base64;
  `text` and `reply` hold the string
  helpers they share.
- `app/` is the bot itself: it connects with serenity, reads the command
  arguments, talks to Discord, songbird and the network, and sends what the
  library decides.
- `tests/` runs the library on concrete inputs.
