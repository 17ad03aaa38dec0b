//! The bot's conversation logic: which updates it answers, how a command
//! line is read, what each command does to the state and what it replies.
//! Work that needs the network (sending, speech synthesis) is returned as a
//! step for the caller to perform; the `finish_*` functions say what is
//! answered once that work is done.
use vstd::prelude::*;
use vstd::string::StringExecFns;
use crate::numbers::{int_text, nat_text, parse_i64, parse_u64, parsed_i64, parsed_u64, push_i64_text, push_u64_text};
use crate::clock::{local_now, timestamp, timestamp_text, valid_local_time, ClockReading};
use crate::state::{authorized, AppState, silence_deadline};
use crate::telegram::{Message, Update};
use crate::text::{
    chars_of, extend_chars, extend_str, join, join_with_space, lowercase, split_words, string_of,
    to_lowercase, trim, trim_chars, words, is_white_space, word_scan,
};

verus! {

broadcast use {vstd::string::group_string_axioms, vstd::std_specs::hash::group_hash_axioms};

// ---------------------------------------------------------------------------
// Texts
// ---------------------------------------------------------------------------

/// The parse mode of formatted replies.
pub const MARKDOWN: &'static str = "Markdown";

pub const START_GREETING: &'static str = "*¡Hola, ";

pub const START_CHAT_ID: &'static str =
    "!*\n\nEste bot es tu pasarela de notificaciones de Telegram.\n\n*Tu Chat ID:* `";

pub const START_TAIL: &'static str = "`\n\
    *Notificaciones:* Suscrito automáticamente.\n\n\
    *Comandos útiles:*\n\
    • `/broadcast <mensaje>` - Enviar aviso a todos los suscriptores\n\
    • `/silence <min>` - Silenciar notificaciones temporalmente\n\
    • `/loquendo <texto>` - Enviar mensaje hablado con voz Loquendo\n\
    • `/test` - Enviar notificación de prueba\n\
    • `/help` - Ver todos los comandos";

pub const HELP_TEXT: &'static str = "*Comandos disponibles:*\n\n\
    *Gestión de Notificaciones:*\n\
    • `/subscribe` — Suscribir este chat a notificaciones\n\
    • `/unsubscribe` — Cancelar suscripción a notificaciones\n\
    • `/subscribers` — Ver lista de chats suscritos\n\
    • `/silence [minutos]` — Silenciar notificaciones durante N minutos (default: 30)\n\n\
    *Mensajería y TTS:*\n\
    • `/notify <chat_id> <mensaje>` — Enviar notificación a un chat específico\n\
    • `/broadcast <mensaje>` — Enviar anuncio a todos los chats suscritos\n\
    • `/loquendo <texto>` — Sintetizar audio con voz Loquendo\n\
    • `/test` — Enviar notificación de prueba\n\
    • `/id` — Mostrar tu Chat ID y User ID\n\
    • `/help` — Mostrar este mensaje de ayuda";

pub const ID_CHAT: &'static str = "*Identificadores:*\n• *Chat ID:* `";

pub const ID_USER: &'static str = "`\n• *User ID:* `";

pub const BACKTICK: &'static str = "`";

pub const SUBSCRIBED_TEXT: &'static str =
    "*Suscripción activada.* Este chat recibirá notificaciones.";

pub const ALREADY_SUBSCRIBED_TEXT: &'static str =
    "Este chat ya estaba suscrito a las notificaciones.";

pub const UNSUBSCRIBED_TEXT: &'static str =
    "*Suscripción cancelada.* No recibirás más notificaciones en este chat.";

pub const NOT_SUBSCRIBED_TEXT: &'static str = "Este chat no estaba suscrito.";

pub const SUBSCRIBERS_HEAD: &'static str = "*Chats suscritos:* `";

pub const SUBSCRIBERS_GAP: &'static str = "`\n\n";

pub const SUBSCRIBER_ITEM: &'static str = "  • `";

pub const SUBSCRIBER_ITEM_END: &'static str = "`\n";

pub const SILENCE_HEAD: &'static str = "*Notificaciones silenciadas por ";

pub const SILENCE_TAIL: &'static str =
    " minutos.*\nNo se enviarán avisos hasta cumplirse el tiempo.";

pub const TEST_HEAD: &'static str = "*Notificación de prueba*\n\n*Hora:* `";

pub const TEST_TAIL: &'static str =
    "`\n\n¡La pasarela de notificaciones de Telegram funciona correctamente!";

pub const LOQUENDO_USAGE: &'static str = "Uso: `/loquendo <texto a pronunciar>`";

pub const LOQUENDO_PROGRESS: &'static str = "⏳ _Generando voz de Loquendo..._";

pub const LOQUENDO_ERROR: &'static str = "Error generando audio: ";

pub const NOTIFY_USAGE: &'static str = "Uso: `/notify <chat_id> <mensaje>`";

pub const NOTIFY_HEAD: &'static str = "*Notificación:*\n\n";

pub const NOTIFY_SENT: &'static str = "Notificación enviada al chat `";

pub const NOTIFY_SENT_END: &'static str = "`.";

pub const NOTIFY_FAILED: &'static str = "Error enviando al chat ";

pub const NOTIFY_FAILED_SEP: &'static str = ": ";

pub const BROADCAST_USAGE: &'static str = "Uso: `/broadcast <mensaje>`";

pub const BROADCAST_HEAD: &'static str = "*Aviso general:*\n\n";

pub const BROADCAST_DONE: &'static str = "Mensaje transmitido a ";

pub const BROADCAST_DONE_END: &'static str = " suscriptores.";

pub const UNKNOWN_COMMAND_TEXT: &'static str =
    "Comando no reconocido. Escribe /help para ver la lista de comandos disponibles.";

pub const DEFAULT_USER_NAME: &'static str = "Usuario";

/// Minutes of silence when `/silence` gets no valid number.
pub const DEFAULT_SILENCE_MINUTES: u64 = 30;

/// The longest silence, in minutes, whose deadline the monotonic clock can
/// represent (`i64::MAX` seconds). A longer `/silence` is not carried out:
/// nothing changes and nothing is answered.
pub const MAX_SILENCE_MINUTES: u64 = 153_722_867_280_912_930;

// ---------------------------------------------------------------------------
// Command lines
// ---------------------------------------------------------------------------

/// The commands the bot knows.
pub enum Command {
    Start,
    Help,
    Id,
    Subscribe,
    Unsubscribe,
    Subscribers,
    Silence,
    Test,
    Loquendo,
    Notify,
    Broadcast,
    Unknown,
}

/// The command of a (lowercased) command name.
pub open spec fn command_named(name: Seq<char>) -> Command {
    if name == "/start"@ {
        Command::Start
    } else if name == "/help"@ {
        Command::Help
    } else if name == "/id"@ {
        Command::Id
    } else if name == "/subscribe"@ {
        Command::Subscribe
    } else if name == "/unsubscribe"@ {
        Command::Unsubscribe
    } else if name == "/subscribers"@ {
        Command::Subscribers
    } else if name == "/silence"@ {
        Command::Silence
    } else if name == "/test"@ {
        Command::Test
    } else if name == "/loquendo"@ {
        Command::Loquendo
    } else if name == "/notify"@ {
        Command::Notify
    } else if name == "/broadcast"@ {
        Command::Broadcast
    } else {
        Command::Unknown
    }
}

/// `s` up to its first `@` (the bot's name in `/cmd@bot` is dropped).
pub open spec fn before_at(s: Seq<char>) -> Seq<char>
    decreases s.len(),
{
    if s.len() == 0 {
        s
    } else if s[0] == '@' {
        seq![]
    } else {
        seq![s[0]] + before_at(s.drop_first())
    }
}

/// A command with its arguments.
pub struct CommandLine {
    pub command: Command,
    pub args: Vec<String>,
}

/// How the text of a message reads as a command: after trimming it must
/// start with `/`; its first word, up to any `@` and lowercased, names the
/// command; the other words are the arguments.
pub open spec fn command_line(text: Seq<char>) -> Option<(Command, Seq<Seq<char>>)> {
    let t = trim(text);
    if t.len() > 0 && t[0] == '/' {
        let ws = words(t);
        Some((command_named(lowercase(before_at(ws[0]))), ws.skip(1)))
    } else {
        None
    }
}

proof fn lemma_word_scan_nonempty(s: Seq<char>)
    requires
        s.len() > 0,
        !is_white_space(s[0]),
    ensures
        word_scan(s).0.len() > 0 || word_scan(s).1.len() > 0,
    decreases s.len(),
{
    if s.len() > 1 {
        lemma_word_scan_nonempty(s.drop_last());
    } else {
        assert(s.drop_last() =~= Seq::<char>::empty());
    }
}

proof fn lemma_before_at_take(s: Seq<char>, k: int)
    requires
        0 <= k <= s.len(),
        forall|j: int| 0 <= j < k ==> s[j] != '@',
        k == s.len() || s[k] == '@',
    ensures
        before_at(s) == s.take(k),
    decreases s.len(),
{
    if s.len() == 0 {
        assert(s.take(k) =~= s);
    } else if k == 0 {
        assert(s.take(0) =~= Seq::<char>::empty());
    } else {
        lemma_before_at_take(s.drop_first(), k - 1);
        assert(seq![s[0]] + s.drop_first().take(k - 1) =~= s.take(k));
    }
}

fn before_at_chars(s: &Vec<char>) -> (r: Vec<char>)
    ensures
        r@ == before_at(s@),
{
    let mut r: Vec<char> = Vec::new();
    let mut i: usize = 0;
    while i < s.len() && s[i] != '@'
        invariant
            i <= s.len(),
            r@ == s@.take(i as int),
            forall|j: int| 0 <= j < i ==> s@[j] != '@',
        decreases s.len() - i,
    {
        r.push(s[i]);
        i = i + 1;
        assert(r@ =~= s@.take(i as int));
    }
    proof {
        lemma_before_at_take(s@, i as int);
    }
    r
}

/// The command that a lowercased command name (such as `/start`) names.
pub fn command_from_name(name: &str) -> (r: Command)
    ensures
        r == command_named(name@),
{
    let n = chars_of(name);
    if crate::text::same_text(&n, "/start") {
        Command::Start
    } else if crate::text::same_text(&n, "/help") {
        Command::Help
    } else if crate::text::same_text(&n, "/id") {
        Command::Id
    } else if crate::text::same_text(&n, "/subscribe") {
        Command::Subscribe
    } else if crate::text::same_text(&n, "/unsubscribe") {
        Command::Unsubscribe
    } else if crate::text::same_text(&n, "/subscribers") {
        Command::Subscribers
    } else if crate::text::same_text(&n, "/silence") {
        Command::Silence
    } else if crate::text::same_text(&n, "/test") {
        Command::Test
    } else if crate::text::same_text(&n, "/loquendo") {
        Command::Loquendo
    } else if crate::text::same_text(&n, "/notify") {
        Command::Notify
    } else if crate::text::same_text(&n, "/broadcast") {
        Command::Broadcast
    } else {
        Command::Unknown
    }
}

/// The strings whose characters are `ws`.
fn strings_of(ws: &Vec<Vec<char>>, from: usize) -> (r: Vec<String>)
    requires
        from <= ws.len(),
    ensures
        r.deep_view() == ws.deep_view().skip(from as int),
{
    let mut r: Vec<String> = Vec::new();
    let mut i: usize = from;
    while i < ws.len()
        invariant
            from <= i <= ws.len(),
            r.deep_view() == ws.deep_view().subrange(from as int, i as int),
        decreases ws.len() - i,
    {
        let ghost prev = r.deep_view();
        let s = string_of(&ws[i]);
        assert(ws.deep_view()[i as int] =~= ws[i as int]@);
        r.push(s);
        assert(r.deep_view() =~= prev.push(ws.deep_view()[i as int]));
        i = i + 1;
        assert(r.deep_view() =~= ws.deep_view().subrange(from as int, i as int));
    }
    assert(ws.deep_view().subrange(from as int, ws.len() as int) =~= ws.deep_view().skip(
        from as int,
    ));
    r
}

/// Reads the text of a message as a command line, as [`command_line`] says.
pub fn parse_command(text: &str) -> (r: Option<CommandLine>)
    ensures
        match command_line(text@) {
            Some((c, a)) => r matches Some(l) && l.command == c && l.args.deep_view() == a,
            None => r is None,
        },
{
    let t = trim_chars(&chars_of(text));
    if t.len() == 0 || t[0] != '/' {
        return None;
    }
    let ws = split_words(&t);
    proof {
        lemma_word_scan_nonempty(t@);
    }
    assert(ws.deep_view()[0] == ws[0]@);
    let head = before_at_chars(&ws[0]);
    let lowered = to_lowercase(string_of(&head).as_str());
    let command = command_from_name(lowered.as_str());
    let args = strings_of(&ws, 1);
    Some(CommandLine { command, args })
}

// ---------------------------------------------------------------------------
// Steps
// ---------------------------------------------------------------------------

/// A text message to send.
pub struct OutgoingMessage {
    pub chat_id: i64,
    pub text: String,
    pub parse_mode: Option<String>,
    pub silent: bool,
}

/// An audio message to send.
pub struct AudioMessage {
    pub chat_id: i64,
    pub audio: Vec<u8>,
    pub file_name: String,
    pub title: String,
    pub performer: String,
    pub caption: Option<String>,
    pub silent: bool,
}

/// What the caller does for an update.
pub enum BotStep {
    /// Nothing at all: no reply, no trace.
    Ignore,
    /// Send this message; the update is then handled.
    Reply(OutgoingMessage),
    /// Send `progress`, synthesize `phrase`, then answer with
    /// [`finish_speech`].
    Speak { chat_id: i64, phrase: String, progress: OutgoingMessage },
    /// Send `message` to `target`, then answer with [`finish_relay`].
    Relay { chat_id: i64, target: i64, message: OutgoingMessage },
    /// Send `text` to every subscriber, with this parse mode and
    /// notification flag, then answer with [`finish_broadcast`].
    Broadcast { chat_id: i64, text: String, parse_mode: Option<String>, silent: bool },
}

/// The outcome of handling an update.
pub struct BotOutcome {
    pub step: BotStep,
    /// The subscriber set changed and should be stored again.
    pub subscribers_changed: bool,
    /// The clock reading that a `/test` reply is stamped with; none for
    /// every other outcome.
    pub clock: Option<ClockReading>,
}

/// `m` sends `text` to `chat_id`, formatted as Markdown or not, silently or
/// not.
pub open spec fn message_is(
    m: OutgoingMessage,
    chat_id: i64,
    text: Seq<char>,
    markdown: bool,
    silent: bool,
) -> bool {
    &&& m.chat_id == chat_id
    &&& m.text@ == text
    &&& if markdown {
        m.parse_mode matches Some(p) && p@ == MARKDOWN@
    } else {
        m.parse_mode is None
    }
    &&& m.silent == silent
}

/// `step` sends exactly `text` to `chat_id`.
pub open spec fn replies(step: BotStep, chat_id: i64, text: Seq<char>, markdown: bool) -> bool {
    step matches BotStep::Reply(m) && message_is(m, chat_id, text, markdown, false)
}

fn message(chat_id: i64, text: String, markdown: bool, silent: bool) -> (m: OutgoingMessage)
    ensures
        message_is(m, chat_id, text@, markdown, silent),
{
    OutgoingMessage {
        chat_id,
        text,
        parse_mode: if markdown {
            Some(String::from_str(MARKDOWN))
        } else {
            None
        },
        silent,
    }
}

fn reply(chat_id: i64, text: String, markdown: bool) -> (r: BotOutcome)
    ensures
        replies(r.step, chat_id, text@, markdown),
        !r.subscribers_changed,
        r.clock is None,
{
    BotOutcome {
        step: BotStep::Reply(message(chat_id, text, markdown, false)),
        subscribers_changed: false,
        clock: None,
    }
}

// ---------------------------------------------------------------------------
// Command texts
// ---------------------------------------------------------------------------

/// The greeting of `/start`.
pub open spec fn start_text(name: Seq<char>, chat_id: i64) -> Seq<char> {
    START_GREETING@ + name + START_CHAT_ID@ + int_text(chat_id as int) + START_TAIL@
}

/// The answer to `/id`.
pub open spec fn id_text(chat_id: i64, user_id: i64) -> Seq<char> {
    ID_CHAT@ + int_text(chat_id as int) + ID_USER@ + int_text(user_id as int) + BACKTICK@
}

/// The lines listing `ids`.
pub open spec fn subscriber_lines(ids: Seq<i64>) -> Seq<char>
    decreases ids.len(),
{
    if ids.len() == 0 {
        seq![]
    } else {
        subscriber_lines(ids.drop_last()) + SUBSCRIBER_ITEM@ + int_text(ids.last() as int)
            + SUBSCRIBER_ITEM_END@
    }
}

/// The answer to `/subscribers` for the chats `ids`, in that order.
pub open spec fn subscribers_text(ids: Seq<i64>) -> Seq<char> {
    SUBSCRIBERS_HEAD@ + nat_text(ids.len()) + SUBSCRIBERS_GAP@ + subscriber_lines(ids)
}

/// The answer to `/silence` for `minutes`.
pub open spec fn silence_text(minutes: u64) -> Seq<char> {
    SILENCE_HEAD@ + nat_text(minutes as nat) + SILENCE_TAIL@
}

/// The test notification stamped with `time`.
pub open spec fn test_text(time: Seq<char>) -> Seq<char> {
    TEST_HEAD@ + time + TEST_TAIL@
}

/// The minutes that `/silence` asks for: its first argument as a number,
/// or the default.
pub open spec fn silence_minutes(args: Seq<Seq<char>>) -> u64 {
    if args.len() > 0 {
        match parsed_u64(args[0]) {
            Some(m) => m,
            None => DEFAULT_SILENCE_MINUTES,
        }
    } else {
        DEFAULT_SILENCE_MINUTES
    }
}

fn start_text_for(name: &str, chat_id: i64) -> (r: String)
    ensures
        r@ == start_text(name@, chat_id),
{
    let mut cs = chars_of(START_GREETING);
    extend_str(&mut cs, name);
    extend_str(&mut cs, START_CHAT_ID);
    push_i64_text(&mut cs, chat_id);
    extend_str(&mut cs, START_TAIL);
    assert(cs@ =~= start_text(name@, chat_id));
    string_of(&cs)
}

fn id_text_for(chat_id: i64, user_id: i64) -> (r: String)
    ensures
        r@ == id_text(chat_id, user_id),
{
    let mut cs = chars_of(ID_CHAT);
    push_i64_text(&mut cs, chat_id);
    extend_str(&mut cs, ID_USER);
    push_i64_text(&mut cs, user_id);
    extend_str(&mut cs, BACKTICK);
    assert(cs@ =~= id_text(chat_id, user_id));
    string_of(&cs)
}

fn subscribers_text_for(ids: &Vec<i64>) -> (r: String)
    ensures
        r@ == subscribers_text(ids@),
{
    let mut cs = chars_of(SUBSCRIBERS_HEAD);
    push_u64_text(&mut cs, ids.len() as u64);
    extend_str(&mut cs, SUBSCRIBERS_GAP);
    let ghost head = cs@;
    let mut i: usize = 0;
    while i < ids.len()
        invariant
            i <= ids.len(),
            cs@ == head + subscriber_lines(ids@.take(i as int)),
        decreases ids.len() - i,
    {
        assert(ids@.take(i + 1).drop_last() =~= ids@.take(i as int));
        extend_str(&mut cs, SUBSCRIBER_ITEM);
        push_i64_text(&mut cs, ids[i]);
        extend_str(&mut cs, SUBSCRIBER_ITEM_END);
        i = i + 1;
        assert(cs@ =~= head + subscriber_lines(ids@.take(i as int)));
    }
    assert(ids@.take(ids.len() as int) =~= ids@);
    assert(cs@ =~= subscribers_text(ids@));
    string_of(&cs)
}

fn silence_text_for(minutes: u64) -> (r: String)
    ensures
        r@ == silence_text(minutes),
{
    let mut cs = chars_of(SILENCE_HEAD);
    push_u64_text(&mut cs, minutes);
    extend_str(&mut cs, SILENCE_TAIL);
    assert(cs@ =~= silence_text(minutes));
    string_of(&cs)
}

/// The test notification stamped with `time`.
pub fn test_notification(time: &str) -> (r: String)
    ensures
        r@ == test_text(time@),
{
    let mut cs = chars_of(TEST_HEAD);
    extend_str(&mut cs, time);
    extend_str(&mut cs, TEST_TAIL);
    assert(cs@ =~= test_text(time@));
    string_of(&cs)
}

fn first_arg_u64(args: &Vec<String>) -> (r: Option<u64>)
    ensures
        r == (if args.deep_view().len() > 0 {
            parsed_u64(args.deep_view()[0])
        } else {
            None
        }),
{
    if args.len() > 0 {
        assert(args.deep_view()[0] == args[0]@);
        parse_u64(&chars_of(args[0].as_str()))
    } else {
        None
    }
}

fn first_arg_i64(args: &Vec<String>) -> (r: Option<i64>)
    ensures
        r == (if args.deep_view().len() > 0 {
            parsed_i64(args.deep_view()[0])
        } else {
            None
        }),
{
    if args.len() > 0 {
        assert(args.deep_view()[0] == args[0]@);
        parse_i64(&chars_of(args[0].as_str()))
    } else {
        None
    }
}

/// The arguments `args[from..]` joined with single spaces.
fn join_args(args: &Vec<String>, from: usize) -> (r: Vec<char>)
    requires
        from <= args.len(),
    ensures
        r@ == join(args.deep_view().skip(from as int), seq![' ']),
{
    let mut ws: Vec<Vec<char>> = Vec::new();
    let mut i: usize = from;
    while i < args.len()
        invariant
            from <= i <= args.len(),
            ws.deep_view() == args.deep_view().subrange(from as int, i as int),
        decreases args.len() - i,
    {
        let ghost prev = ws.deep_view();
        let w = chars_of(args[i].as_str());
        assert(w.deep_view() =~= w@);
        assert(args.deep_view()[i as int] == args[i as int]@);
        ws.push(w);
        assert(ws.deep_view() =~= prev.push(args.deep_view()[i as int]));
        i = i + 1;
        assert(ws.deep_view() =~= args.deep_view().subrange(from as int, i as int));
    }
    assert(args.deep_view().subrange(from as int, args.len() as int) =~= args.deep_view().skip(
        from as int,
    ));
    join_with_space(&ws)
}

// ---------------------------------------------------------------------------
// Handling updates
// ---------------------------------------------------------------------------

/// A command from an authorized sender.
pub struct Request {
    pub chat_id: i64,
    pub user_id: i64,
    pub user_name: Seq<char>,
    pub command: Command,
    pub args: Seq<Seq<char>>,
}

/// Who sent `m`: its author, or the chat itself when it has none.
pub open spec fn sender_of(m: Message) -> i64 {
    match m.from {
        Some(u) => u.id,
        None => m.chat.id,
    }
}

/// The name the bot greets the sender of `m` with.
pub open spec fn sender_name(m: Message) -> Seq<char> {
    match m.from {
        Some(u) => u.first_name@,
        None => DEFAULT_USER_NAME@,
    }
}

/// The command that `u` brings, if the bot acts on it: the update must
/// carry a message from a user on the whitelist `allowed`, with text that
/// reads as a command line. Anything else is ignored entirely.
pub open spec fn request_of(allowed: Seq<i64>, u: Update) -> Option<Request> {
    match u.message {
        None => None,
        Some(m) => if !authorized(allowed, sender_of(m)) {
            None
        } else {
            match m.text {
                None => None,
                Some(t) => match command_line(t@) {
                    None => None,
                    Some((c, a)) => Some(
                        Request {
                            chat_id: m.chat.id,
                            user_id: sender_of(m),
                            user_name: sender_name(m),
                            command: c,
                            args: a,
                        },
                    ),
                },
            }
        },
    }
}

/// `post` is `pre` with only the subscriber set possibly changed.
pub open spec fn only_subscribers_change(pre: AppState, post: AppState) -> bool {
    &&& post.inner.silenced_until == pre.inner.silenced_until
    &&& post.config == pre.config
    &&& post.storage_path == pre.storage_path
}

/// `post` is `pre` with nothing changed.
pub open spec fn unchanged(pre: AppState, post: AppState) -> bool {
    &&& post.inner.subscribers@ == pre.inner.subscribers@
    &&& only_subscribers_change(pre, post)
}

/// What a command from an authorized sender does: how the state goes from
/// `pre` to `post` at time `now`, and what `out` asks the caller to do.
pub open spec fn command_effect(
    pre: AppState,
    post: AppState,
    now: u128,
    req: Request,
    out: BotOutcome,
) -> bool {
    let chat = req.chat_id;
    let subs = pre.inner.subscribers@;
    &&& (out.clock is Some) == (req.command is Test)
    &&& match req.command {
        Command::Start => {
            &&& post.inner.subscribers@ == subs.insert(chat)
            &&& only_subscribers_change(pre, post)
            &&& out.subscribers_changed == !subs.contains(chat)
            &&& replies(out.step, chat, start_text(req.user_name, chat), true)
        },
        Command::Help => {
            &&& unchanged(pre, post)
            &&& !out.subscribers_changed
            &&& replies(out.step, chat, HELP_TEXT@, true)
        },
        Command::Id => {
            &&& unchanged(pre, post)
            &&& !out.subscribers_changed
            &&& replies(out.step, chat, id_text(chat, req.user_id), true)
        },
        Command::Subscribe => {
            &&& post.inner.subscribers@ == subs.insert(chat)
            &&& only_subscribers_change(pre, post)
            &&& out.subscribers_changed == !subs.contains(chat)
            &&& replies(
                out.step,
                chat,
                if subs.contains(chat) {
                    ALREADY_SUBSCRIBED_TEXT@
                } else {
                    SUBSCRIBED_TEXT@
                },
                true,
            )
        },
        Command::Unsubscribe => {
            &&& post.inner.subscribers@ == subs.remove(chat)
            &&& only_subscribers_change(pre, post)
            &&& out.subscribers_changed == subs.contains(chat)
            &&& replies(
                out.step,
                chat,
                if subs.contains(chat) {
                    UNSUBSCRIBED_TEXT@
                } else {
                    NOT_SUBSCRIBED_TEXT@
                },
                true,
            )
        },
        Command::Subscribers => {
            &&& unchanged(pre, post)
            &&& !out.subscribers_changed
            &&& exists|ids: Seq<i64>|
                ids.no_duplicates() && ids.to_set() == subs && replies(
                    out.step,
                    chat,
                    subscribers_text(ids),
                    true,
                )
        },
        Command::Silence => {
            let minutes = silence_minutes(req.args);
            &&& !out.subscribers_changed
            &&& if minutes <= MAX_SILENCE_MINUTES {
                &&& post.inner.silenced_until == Some(silence_deadline(now, minutes))
                &&& post.inner.subscribers@ == subs
                &&& post.config == pre.config
                &&& post.storage_path == pre.storage_path
                &&& replies(out.step, chat, silence_text(minutes), true)
            } else {
                unchanged(pre, post) && out.step is Ignore
            }
        },
        Command::Test => {
            &&& unchanged(pre, post)
            &&& !out.subscribers_changed
            &&& out.clock matches Some(c) && valid_local_time(c.time()) && replies(
                out.step,
                chat,
                test_text(timestamp(c.time())),
                true,
            )
        },
        Command::Loquendo => {
            let phrase = join(req.args, seq![' ']);
            &&& unchanged(pre, post)
            &&& !out.subscribers_changed
            &&& if trim(phrase).len() == 0 {
                replies(out.step, chat, LOQUENDO_USAGE@, true)
            } else {
                out.step matches BotStep::Speak { chat_id, phrase: p, progress } && chat_id == chat
                    && p@ == phrase && message_is(progress, chat, LOQUENDO_PROGRESS@, true, true)
            }
        },
        Command::Notify => {
            let target = if req.args.len() > 0 {
                parsed_i64(req.args[0])
            } else {
                None
            };
            let body = join(req.args.skip(1), seq![' ']);
            &&& unchanged(pre, post)
            &&& !out.subscribers_changed
            &&& match target {
                Some(t) => if body.len() == 0 {
                    replies(out.step, chat, NOTIFY_USAGE@, true)
                } else {
                    out.step matches BotStep::Relay { chat_id, target: tt, message: m } && chat_id
                        == chat && tt == t && message_is(m, t, NOTIFY_HEAD@ + body, true, false)
                },
                None => replies(out.step, chat, NOTIFY_USAGE@, true),
            }
        },
        Command::Broadcast => {
            &&& unchanged(pre, post)
            &&& !out.subscribers_changed
            &&& if req.args.len() == 0 {
                replies(out.step, chat, BROADCAST_USAGE@, true)
            } else {
                out.step matches BotStep::Broadcast { chat_id, text, parse_mode, silent } && chat_id
                    == chat && text@ == BROADCAST_HEAD@ + join(req.args, seq![' ']) && parse_mode
                    is Some && parse_mode.unwrap()@ == MARKDOWN@ && !silent
            }
        },
        Command::Unknown => {
            &&& unchanged(pre, post)
            &&& !out.subscribers_changed
            &&& replies(out.step, chat, UNKNOWN_COMMAND_TEXT@, false)
        },
    }
}

fn run_command(
    state: &mut AppState,
    now: u128,
    chat_id: i64,
    user_id: i64,
    user_name: &str,
    line: CommandLine,
) -> (r: BotOutcome)
    ensures
        command_effect(
            *old(state),
            *final(state),
            now,
            Request {
                chat_id,
                user_id,
                user_name: user_name@,
                command: line.command,
                args: line.args.deep_view(),
            },
            r,
        ),
{
    let args = line.args;
    match line.command {
        Command::Start => {
            let added = state.add_subscriber(chat_id);
            let text = start_text_for(user_name, chat_id);
            BotOutcome {
                step: BotStep::Reply(message(chat_id, text, true, false)),
                subscribers_changed: added,
                clock: None,
            }
        },
        Command::Help => reply(chat_id, String::from_str(HELP_TEXT), true),
        Command::Id => reply(chat_id, id_text_for(chat_id, user_id), true),
        Command::Subscribe => {
            let added = state.add_subscriber(chat_id);
            let text = if added {
                String::from_str(SUBSCRIBED_TEXT)
            } else {
                String::from_str(ALREADY_SUBSCRIBED_TEXT)
            };
            BotOutcome {
                step: BotStep::Reply(message(chat_id, text, true, false)),
                subscribers_changed: added,
                clock: None,
            }
        },
        Command::Unsubscribe => {
            let removed = state.remove_subscriber(chat_id);
            let text = if removed {
                String::from_str(UNSUBSCRIBED_TEXT)
            } else {
                String::from_str(NOT_SUBSCRIBED_TEXT)
            };
            BotOutcome {
                step: BotStep::Reply(message(chat_id, text, true, false)),
                subscribers_changed: removed,
                clock: None,
            }
        },
        Command::Subscribers => {
            let subs = state.get_subscribers();
            let r = reply(chat_id, subscribers_text_for(&subs), true);
            assert(subs@.no_duplicates() && subs@.to_set() == state.inner.subscribers@ && replies(
                r.step,
                chat_id,
                subscribers_text(subs@),
                true,
            ));
            r
        },
        Command::Silence => {
            let minutes = match first_arg_u64(&args) {
                Some(m) => m,
                None => DEFAULT_SILENCE_MINUTES,
            };
            if minutes > MAX_SILENCE_MINUTES {
                return BotOutcome { step: BotStep::Ignore, subscribers_changed: false, clock: None };
            }
            state.silence(now, minutes);
            reply(chat_id, silence_text_for(minutes), true)
        },
        Command::Test => {
            let reading = local_now();
            let now = reading.local_time();
            let time = timestamp_text(&now);
            let r = reply(chat_id, test_notification(time.as_str()), true);
            BotOutcome { step: r.step, subscribers_changed: false, clock: Some(reading) }
        },
        Command::Loquendo => {
            let phrase = join_args(&args, 0);
            assert(args.deep_view().skip(0) =~= args.deep_view());
            if trim_chars(&phrase).len() == 0 {
                return reply(chat_id, String::from_str(LOQUENDO_USAGE), true);
            }
            let progress = message(chat_id, String::from_str(LOQUENDO_PROGRESS), true, true);
            BotOutcome {
                step: BotStep::Speak { chat_id, phrase: string_of(&phrase), progress },
                subscribers_changed: false,
                clock: None,
            }
        },
        Command::Notify => {
            let target = match first_arg_i64(&args) {
                Some(t) => t,
                None => {
                    return reply(chat_id, String::from_str(NOTIFY_USAGE), true);
                },
            };
            let body = join_args(&args, 1);
            if body.len() == 0 {
                return reply(chat_id, String::from_str(NOTIFY_USAGE), true);
            }
            let mut text = chars_of(NOTIFY_HEAD);
            extend_chars(&mut text, &body);
            let m = message(target, string_of(&text), true, false);
            BotOutcome {
                step: BotStep::Relay { chat_id, target, message: m },
                subscribers_changed: false,
                clock: None,
            }
        },
        Command::Broadcast => {
            if args.len() == 0 {
                return reply(chat_id, String::from_str(BROADCAST_USAGE), true);
            }
            let body = join_args(&args, 0);
            assert(args.deep_view().skip(0) =~= args.deep_view());
            let mut text = chars_of(BROADCAST_HEAD);
            extend_chars(&mut text, &body);
            BotOutcome {
                step: BotStep::Broadcast {
                    chat_id,
                    text: string_of(&text),
                    parse_mode: Some(String::from_str(MARKDOWN)),
                    silent: false,
                },
                subscribers_changed: false,
                clock: None,
            }
        },
        Command::Unknown => reply(chat_id, String::from_str(UNKNOWN_COMMAND_TEXT), false),
    }
}

/// Handles one update at time `now` (monotonic nanoseconds): updates that
/// bring no command from an authorized user are ignored without any change
/// or reply; a command acts as [`command_effect`] says.
pub fn handle_update(state: &mut AppState, update: &Update, now: u128) -> (r: BotOutcome)
    ensures
        match request_of(old(state).config.allowed_users@, *update) {
            None => r.step is Ignore && !r.subscribers_changed && r.clock is None && *final(state)
                == *old(state),
            Some(req) => command_effect(*old(state), *final(state), now, req, r),
        },
{
    let ignore = BotOutcome { step: BotStep::Ignore, subscribers_changed: false, clock: None };
    let message = match &update.message {
        Some(m) => m,
        None => {
            return ignore;
        },
    };
    let chat_id = message.chat.id;
    let user_id = match &message.from {
        Some(u) => u.id,
        None => chat_id,
    };
    if !state.is_authorized(user_id) {
        return ignore;
    }
    let text = match &message.text {
        Some(t) => t,
        None => {
            return ignore;
        },
    };
    let line = match parse_command(text.as_str()) {
        Some(l) => l,
        None => {
            return ignore;
        },
    };
    let user_name = match &message.from {
        Some(u) => u.first_name.clone(),
        None => String::from_str(DEFAULT_USER_NAME),
    };
    run_command(state, now, chat_id, user_id, user_name.as_str(), line)
}

// ---------------------------------------------------------------------------
// Laws
// ---------------------------------------------------------------------------

/// Users not on the whitelist are ignored in complete silence: their
/// updates bring no command, so nothing changes and nothing is sent.
pub proof fn law_unauthorized_updates_are_ignored(allowed: Seq<i64>, u: Update)
    requires
        u.message matches Some(m) && !authorized(allowed, sender_of(m)),
    ensures
        request_of(allowed, u) is None,
{
}

/// With an empty whitelist every update is ignored.
pub proof fn law_empty_whitelist_ignores_everything(u: Update)
    ensures
        request_of(Seq::<i64>::empty(), u) is None,
{
}

/// Text that, once trimmed, does not start with `/` is not a command.
pub proof fn law_plain_text_is_not_a_command(text: Seq<char>)
    requires
        !(trim(text).len() > 0 && trim(text)[0] == '/'),
    ensures
        command_line(text) is None,
{
}

/// After `/start` or `/subscribe` the chat is subscribed; after
/// `/unsubscribe` it is not; the subscriber set is reported as changed
/// exactly when it did change.
pub proof fn law_subscription_commands(
    pre: AppState,
    post: AppState,
    now: u128,
    req: Request,
    out: BotOutcome,
)
    requires
        command_effect(pre, post, now, req, out),
    ensures
        req.command is Start || req.command is Subscribe ==> post.inner.subscribers@.contains(
            req.chat_id,
        ),
        req.command is Unsubscribe ==> !post.inner.subscribers@.contains(req.chat_id),
        out.subscribers_changed ==> post.inner.subscribers@ != pre.inner.subscribers@,
        !out.subscribers_changed ==> post.inner.subscribers@ == pre.inner.subscribers@,
{
    let subs = pre.inner.subscribers@;
    let chat = req.chat_id;
    if req.command is Start || req.command is Subscribe {
        if subs.contains(chat) {
            assert(subs.insert(chat) =~= subs);
        } else {
            assert(subs.insert(chat).contains(chat));
        }
    }
    if req.command is Unsubscribe {
        if !subs.contains(chat) {
            assert(subs.remove(chat) =~= subs);
        } else {
            assert(!subs.remove(chat).contains(chat));
        }
    }
}

// ---------------------------------------------------------------------------
// Answers once the outside work is done
// ---------------------------------------------------------------------------

/// What answers a `/loquendo` request once synthesis is over.
pub enum SpeechReply {
    Audio(AudioMessage),
    Text(OutgoingMessage),
}

/// The answer once the speech for `phrase` is synthesized (or failed): the
/// audio, titled and captioned with the phrase, or the error as plain text.
pub fn finish_speech(chat_id: i64, phrase: String, audio: Result<Vec<u8>, String>) -> (r:
    SpeechReply)
    ensures
        match audio {
            Ok(bytes) => r matches SpeechReply::Audio(a) && a.chat_id == chat_id && a.audio@
                == bytes@ && a.file_name@ == "loquendo.mp3"@ && a.title@ == "Audio Loquendo"@
                && a.performer@ == "Loquendo"@ && a.caption == Some(phrase) && !a.silent,
            Err(e) => r matches SpeechReply::Text(m) && message_is(
                m,
                chat_id,
                LOQUENDO_ERROR@ + e@,
                false,
                false,
            ),
        },
{
    match audio {
        Ok(bytes) => SpeechReply::Audio(
            AudioMessage {
                chat_id,
                audio: bytes,
                file_name: String::from_str("loquendo.mp3"),
                title: String::from_str("Audio Loquendo"),
                performer: String::from_str("Loquendo"),
                caption: Some(phrase),
                silent: false,
            },
        ),
        Err(e) => {
            let mut t = String::from_str(LOQUENDO_ERROR);
            t.append(e.as_str());
            SpeechReply::Text(message(chat_id, t, false, false))
        },
    }
}

/// The feedback to the requester once a `/notify` message to `target` was
/// sent (or failed).
pub fn finish_relay(chat_id: i64, target: i64, result: Result<(), String>) -> (r: OutgoingMessage)
    ensures
        match result {
            Ok(()) => message_is(
                r,
                chat_id,
                NOTIFY_SENT@ + int_text(target as int) + NOTIFY_SENT_END@,
                true,
                false,
            ),
            Err(e) => message_is(
                r,
                chat_id,
                NOTIFY_FAILED@ + int_text(target as int) + NOTIFY_FAILED_SEP@ + e@,
                false,
                false,
            ),
        },
{
    match result {
        Ok(()) => {
            let mut cs = chars_of(NOTIFY_SENT);
            push_i64_text(&mut cs, target);
            extend_str(&mut cs, NOTIFY_SENT_END);
            message(chat_id, string_of(&cs), true, false)
        },
        Err(e) => {
            let mut cs = chars_of(NOTIFY_FAILED);
            push_i64_text(&mut cs, target);
            extend_str(&mut cs, NOTIFY_FAILED_SEP);
            extend_str(&mut cs, e.as_str());
            message(chat_id, string_of(&cs), false, false)
        },
    }
}

/// The feedback to the requester once a `/broadcast` reached `sent`
/// subscribers.
pub fn finish_broadcast(chat_id: i64, sent: usize) -> (r: OutgoingMessage)
    ensures
        message_is(r, chat_id, BROADCAST_DONE@ + nat_text(sent as nat) + BROADCAST_DONE_END@, false, false),
{
    let mut cs = chars_of(BROADCAST_DONE);
    push_u64_text(&mut cs, sent as u64);
    extend_str(&mut cs, BROADCAST_DONE_END);
    message(chat_id, string_of(&cs), false, false)
}

/// Each subscriber gets a line of its own: an empty list has no lines, and
/// listing one more chat appends exactly that chat's line.
pub proof fn law_subscriber_lines(ids: Seq<i64>, x: i64)
    ensures
        subscriber_lines(Seq::<i64>::empty()) == Seq::<char>::empty(),
        subscriber_lines(ids.push(x)) == subscriber_lines(ids) + SUBSCRIBER_ITEM@ + int_text(x as int)
            + SUBSCRIBER_ITEM_END@,
{
    assert(ids.push(x).drop_last() =~= ids);
}

/// `/silence` without an argument, or with a first argument that is not a
/// `u64`, silences for 30 minutes; with a `u64` first, for that many.
pub proof fn law_silence_minutes(args: Seq<Seq<char>>)
    ensures
        args.len() == 0 ==> silence_minutes(args) == 30,
        args.len() > 0 && parsed_u64(args[0]) is None ==> silence_minutes(args) == 30,
        args.len() > 0 && parsed_u64(args[0]) is Some ==> silence_minutes(args) == parsed_u64(
            args[0],
        ).unwrap(),
{
}

/// A `/silence` without a usable number holds notifications for 30 minutes
/// from `now` and answers that it did so for `30` minutes.
pub proof fn law_silence_defaults_to_thirty_minutes(
    pre: AppState,
    post: AppState,
    now: u128,
    req: Request,
    out: BotOutcome,
)
    requires
        req.command is Silence,
        req.args.len() == 0 || parsed_u64(req.args[0]) is None,
        command_effect(pre, post, now, req, out),
    ensures
        post.inner.silenced_until == Some(silence_deadline(now, 30)),
        replies(out.step, req.chat_id, SILENCE_HEAD@ + seq!['3', '0'] + SILENCE_TAIL@, true),
{
    assert(nat_text(3) =~= seq!['3']);
    assert(nat_text(30) =~= seq!['3', '0']);
}

/// Every command but `/test` leaves the clock unread; a `/test` reply is
/// stamped with the very reading it reports.
pub proof fn law_test_stamp_is_the_clock_reading(
    pre: AppState,
    post: AppState,
    now: u128,
    req: Request,
    out: BotOutcome,
)
    requires
        command_effect(pre, post, now, req, out),
    ensures
        !(req.command is Test) ==> out.clock is None,
        req.command is Test ==> (out.clock matches Some(c) && replies(
            out.step,
            req.chat_id,
            TEST_HEAD@ + timestamp(c.time()) + TEST_TAIL@,
            true,
        )),
{
}

} // verus!
