# telegram_notifier

A Telegram notification gateway: an HTTP API (`/notify`, `/alert`,
`/health`) and a Telegram bot (`/subscribe`, `/silence`, `/notify`,
`/broadcast`, `/loquendo`, ...) that relay notices to subscribed chats.

The decisions and text handling are a library verified with Verus:

- `src/text.rs` — Unicode whitespace, words, trimming, joining,
  replacement and UTF-8 byte lengths over `Seq<char>`.
- `src/numbers.rs` — decimal rendering and the `str::parse` grammar of
  integers.
- `src/config.rs` — settings from the values of the environment variables.
- `src/state.rs` — subscribers, whitelist, maintenance silence, and the
  stored form of the subscriber set.
- `src/telegram.rs` — Bot API objects, URLs, and how each reply is read,
  including the plain-text retry of `sendMessage` and the next step of
  the `getUpdates` polling loop.
- `src/clock.rs` — the local time as plain fields and its
  `YYYY-MM-DD HH:MM:SS` rendering.
- `src/bot.rs` — which updates the bot answers and what each command does.
- `src/http.rs` — what `/notify` and `/alert` deliver and answer.
- `src/tts.rs` — text cleaning and chunking for speech synthesis.

`app/` is the program around it: environment and `.env` loading, logging,
the axum server, the reqwest client, the tokio polling loop and the serde
copies of the library's types.
