//! The Telegram Bot API as data: the objects the API sends and receives, the
//! URLs of its methods, and how each reply is read into a result.
use vstd::prelude::*;
use vstd::string::StringExecFns;
use crate::numbers::{int_text, nat_text, push_i64_text, push_u64_text};
use crate::text::{chars_of, extend_str, string_of};

verus! {

broadcast use vstd::string::group_string_axioms;

/// The envelope of every Bot API reply.
#[derive(Clone, Debug)]
pub struct ApiResponse<T> {
    pub ok: bool,
    pub result: Option<T>,
    pub description: Option<String>,
}

/// One incoming update.
#[derive(Clone, Debug)]
pub struct Update {
    pub update_id: i64,
    pub message: Option<Message>,
}

/// A chat message.
#[derive(Clone, Debug)]
pub struct Message {
    pub message_id: i64,
    pub from: Option<User>,
    pub chat: Chat,
    pub text: Option<String>,
    pub date: i64,
}

/// A chat; `kind` is the API's `type` field.
#[derive(Clone, Debug)]
pub struct Chat {
    pub id: i64,
    pub kind: String,
    pub title: Option<String>,
    pub username: Option<String>,
    pub first_name: Option<String>,
}

/// A Telegram user or bot.
#[derive(Clone, Debug)]
pub struct User {
    pub id: i64,
    pub is_bot: bool,
    pub first_name: String,
    pub username: Option<String>,
}

/// An entry of the bot's command menu.
#[derive(Clone, Debug)]
pub struct BotCommand {
    pub command: String,
    pub description: String,
}

/// The body of a `sendMessage` call.
#[derive(Clone, Debug)]
pub struct SendMessagePayload {
    pub chat_id: i64,
    pub text: String,
    pub parse_mode: Option<String>,
    pub disable_notification: bool,
}

/// What came back from one HTTP call to the API: a transport failure, a body
/// that could not be decoded, or a decoded reply. The strings are the
/// failures' own descriptions.
pub enum ApiReply<T> {
    Network(String),
    Decode(String),
    Answer(ApiResponse<T>),
}

// ---------------------------------------------------------------------------
// URLs
// ---------------------------------------------------------------------------

/// The URL prefix of every method of the bot with token `token`.
pub open spec fn base_url_text(token: Seq<char>) -> Seq<char> {
    "https://api.telegram.org/bot"@ + token
}

/// The URL of method `method` under `base`.
pub open spec fn method_url_text(base: Seq<char>, method: Seq<char>) -> Seq<char> {
    base + "/"@ + method
}

/// The URL prefix of every method of the bot with token `token`.
pub fn api_base_url(token: &str) -> (r: String)
    ensures
        r@ == base_url_text(token@),
{
    let mut s = String::from_str("https://api.telegram.org/bot");
    s.append(token);
    s
}

/// The URL of method `method` under `base`.
pub fn method_url(base: &str, method: &str) -> (r: String)
    ensures
        r@ == method_url_text(base@, method@),
{
    let mut s = String::from_str(base);
    s.append("/");
    s.append(method);
    s
}

/// The URL of a long-polling `getUpdates` call.
pub fn updates_url(base: &str, offset: i64, timeout: u32) -> (r: String)
    ensures
        r@ == base@ + "/getUpdates?offset="@ + int_text(offset as int) + "&timeout="@ + nat_text(
            timeout as nat,
        ),
{
    let mut cs = chars_of(base);
    extend_str(&mut cs, "/getUpdates?offset=");
    push_i64_text(&mut cs, offset);
    extend_str(&mut cs, "&timeout=");
    push_u64_text(&mut cs, timeout as u64);
    string_of(&cs)
}

// ---------------------------------------------------------------------------
// Reading replies
// ---------------------------------------------------------------------------

/// The text `prefix` followed by `detail`.
pub fn prefixed(prefix: &str, detail: &str) -> (r: String)
    ensures
        r@ == prefix@ + detail@,
{
    let mut s = String::from_str(prefix);
    s.append(detail);
    s
}

/// `description`, or `fallback` when the API gave none.
pub open spec fn error_text(description: Option<String>, fallback: Seq<char>) -> Seq<char> {
    match description {
        Some(d) => d@,
        None => fallback,
    }
}

/// `description`, or `fallback` when the API gave none.
pub fn error_or(description: Option<String>, fallback: &str) -> (r: String)
    ensures
        r@ == error_text(description, fallback@),
{
    match description {
        Some(d) => d,
        None => String::from_str(fallback),
    }
}

/// How a reply reads: a transport failure gives `network` followed by its
/// description, an undecodable body `decode` followed by its description, an
/// `ok` reply its `result`, any other reply its description (or `fallback`).
pub open spec fn reply_result<T>(
    reply: ApiReply<T>,
    network: Seq<char>,
    decode: Seq<char>,
    fallback: Seq<char>,
) -> Result<Option<T>, Seq<char>> {
    match reply {
        ApiReply::Network(e) => Err(network + e@),
        ApiReply::Decode(e) => Err(decode + e@),
        ApiReply::Answer(d) => if d.ok {
            Ok(d.result)
        } else {
            Err(error_text(d.description, fallback))
        },
    }
}

/// The view of a `Result` whose error is a `String`.
pub open spec fn result_view<T>(r: Result<T, String>) -> Result<T, Seq<char>> {
    match r {
        Ok(v) => Ok(v),
        Err(e) => Err(e@),
    }
}

/// Reads `reply` as [`reply_result`] says.
pub fn read_reply<T>(reply: ApiReply<T>, network: &str, decode: &str, fallback: &str) -> (r: Result<
    Option<T>,
    String,
>)
    ensures
        result_view(r) == reply_result(reply, network@, decode@, fallback@),
{
    match reply {
        ApiReply::Network(e) => Err(prefixed(network, e.as_str())),
        ApiReply::Decode(e) => Err(prefixed(decode, e.as_str())),
        ApiReply::Answer(d) => {
            if d.ok {
                Ok(d.result)
            } else {
                Err(error_or(d.description, fallback))
            }
        },
    }
}

/// What `getMe` gives for `reply`.
pub open spec fn me_result(reply: ApiReply<User>) -> Result<User, Seq<char>> {
    match reply_result(reply, "Network error: "@, "JSON decode error: "@, "API error"@) {
        Ok(Some(u)) => Ok(u),
        Ok(None) => Err("Empty user in result"@),
        Err(e) => Err(e),
    }
}

/// Reads the reply of `getMe`: the bot's own user.
pub fn me_outcome(reply: ApiReply<User>) -> (r: Result<User, String>)
    ensures
        result_view(r) == me_result(reply),
{
    match read_reply(reply, "Network error: ", "JSON decode error: ", "API error") {
        Ok(Some(u)) => Ok(u),
        Ok(None) => Err(String::from_str("Empty user in result")),
        Err(e) => Err(e),
    }
}

/// What `getUpdates` gives for `reply`: the updates, none when an `ok` reply
/// carries no result.
pub open spec fn updates_result(reply: ApiReply<Vec<Update>>) -> Result<Seq<Update>, Seq<char>> {
    match reply_result(
        reply,
        "Network error in getUpdates: "@,
        "JSON error in getUpdates: "@,
        "API error"@,
    ) {
        Ok(Some(v)) => Ok(v@),
        Ok(None) => Ok(Seq::empty()),
        Err(e) => Err(e),
    }
}

/// Reads the reply of `getUpdates`.
pub fn updates_outcome(reply: ApiReply<Vec<Update>>) -> (r: Result<Vec<Update>, String>)
    ensures
        match (r, updates_result(reply)) {
            (Ok(v), Ok(s)) => v@ == s,
            (Err(e), Err(s)) => e@ == s,
            _ => false,
        },
{
    match read_reply(reply, "Network error in getUpdates: ", "JSON error in getUpdates: ", "API error") {
        Ok(Some(v)) => Ok(v),
        Ok(None) => Ok(Vec::new()),
        Err(e) => Err(e),
    }
}

/// Seconds to wait before polling again after `getUpdates` failed.
pub const RETRY_DELAY_SECS: u64 = 5;

/// What the polling loop does next: the offset of the next `getUpdates`
/// and, after a failure, how long to wait first.
#[derive(Clone, Copy, Debug)]
pub struct PollStep {
    pub offset: i64,
    pub wait_secs: Option<u64>,
}

/// The offset after `updates` were received: one past the last update's id,
/// or `offset` unchanged when none came.
pub open spec fn offset_after(offset: i64, updates: Seq<Update>) -> int {
    if updates.len() == 0 {
        offset as int
    } else {
        updates.last().update_id + 1
    }
}

/// The step after a `getUpdates` call made with `offset` gave `fetched`.
/// No update may carry the largest id, which has no successor.
pub fn next_poll(offset: i64, fetched: &Result<Vec<Update>, String>) -> (r: PollStep)
    requires
        fetched matches Ok(v) ==> forall|i: int| 0 <= i < v@.len() ==> #[trigger] v@[i].update_id < i64::MAX,
    ensures
        match fetched {
            Ok(v) => r.offset == offset_after(offset, v@) && r.wait_secs is None,
            Err(_) => r.offset == offset && r.wait_secs == Some(RETRY_DELAY_SECS),
        },
{
    match fetched {
        Ok(v) => {
            if v.len() == 0 {
                PollStep { offset, wait_secs: None }
            } else {
                let last = v.len() - 1;
                assert(v@[last as int].update_id < i64::MAX);
                PollStep { offset: v[last].update_id + 1, wait_secs: None }
            }
        },
        Err(_) => PollStep { offset, wait_secs: Some(RETRY_DELAY_SECS) },
    }
}

/// Reads a reply whose result does not matter: `Ok` for an `ok` reply.
pub open spec fn unit_result<T>(
    reply: ApiReply<T>,
    network: Seq<char>,
    decode: Seq<char>,
    fallback: Seq<char>,
) -> Result<(), Seq<char>> {
    match reply_result(reply, network, decode, fallback) {
        Ok(_) => Ok(()),
        Err(e) => Err(e),
    }
}

fn unit_outcome<T>(reply: ApiReply<T>, network: &str, decode: &str, fallback: &str) -> (r: Result<
    (),
    String,
>)
    ensures
        result_view(r) == unit_result(reply, network@, decode@, fallback@),
{
    match read_reply(reply, network, decode, fallback) {
        Ok(_) => Ok(()),
        Err(e) => Err(e),
    }
}

// ---------------------------------------------------------------------------
// sendMessage, with its plain-text retry
// ---------------------------------------------------------------------------

/// The payload of a `sendMessage` call.
pub fn send_message_payload(chat_id: i64, text: &str, parse_mode: Option<&str>, silent: bool) -> (r:
    SendMessagePayload)
    ensures
        r.chat_id == chat_id,
        r.text@ == text@,
        r.parse_mode is Some <==> parse_mode is Some,
        parse_mode is Some ==> r.parse_mode->0@ == parse_mode->0@,
        r.disable_notification == silent,
{
    SendMessagePayload {
        chat_id,
        text: String::from_str(text),
        parse_mode: match parse_mode {
            Some(p) => Some(String::from_str(p)),
            None => None,
        },
        disable_notification: silent,
    }
}

/// The next step of a `sendMessage` call after its first reply.
pub enum SendProgress {
    /// The call is over, with this result.
    Finished(Result<(), String>),
    /// Formatted sending failed: send this plain-text payload; should it fail
    /// too, the error is the first reply's description.
    Retry(SendMessagePayload, Option<String>),
}

/// After the first reply to `payload`: a transport or decoding failure ends
/// the call with its message, an `ok` reply ends it successfully, a refused
/// formatted message is retried as plain text (same chat, text and
/// notification flag, no parse mode), a refused plain message ends the call
/// with the API's description.
pub fn send_message_after_first(payload: SendMessagePayload, reply: ApiReply<()>) -> (r:
    SendProgress)
    ensures
        match reply {
            ApiReply::Network(e) => r matches SendProgress::Finished(Err(m)) && m@
                == "Network error sending message: "@ + e@,
            ApiReply::Decode(e) => r matches SendProgress::Finished(Err(m)) && m@
                == "Failed to parse response: "@ + e@,
            ApiReply::Answer(d) => if d.ok {
                r matches SendProgress::Finished(Ok(()))
            } else if payload.parse_mode is Some {
                r matches SendProgress::Retry(p, first) && p.chat_id == payload.chat_id && p.text
                    == payload.text && p.parse_mode is None && p.disable_notification
                    == payload.disable_notification && first == d.description
            } else {
                r matches SendProgress::Finished(Err(m)) && m@ == error_text(
                    d.description,
                    "Failed to send message"@,
                )
            },
        },
{
    match reply {
        ApiReply::Network(e) => SendProgress::Finished(
            Err(prefixed("Network error sending message: ", e.as_str())),
        ),
        ApiReply::Decode(e) => SendProgress::Finished(
            Err(prefixed("Failed to parse response: ", e.as_str())),
        ),
        ApiReply::Answer(d) => {
            if d.ok {
                SendProgress::Finished(Ok(()))
            } else if payload.parse_mode.is_some() {
                SendProgress::Retry(
                    SendMessagePayload {
                        chat_id: payload.chat_id,
                        text: payload.text,
                        parse_mode: None,
                        disable_notification: payload.disable_notification,
                    },
                    d.description,
                )
            } else {
                SendProgress::Finished(Err(error_or(d.description, "Failed to send message")))
            }
        },
    }
}

/// After the reply to the plain-text retry: success on an `ok` reply,
/// otherwise the retry's transport or decoding failure, or the first reply's
/// description.
pub fn send_message_after_retry(first_description: Option<String>, reply: ApiReply<()>) -> (r:
    Result<(), String>)
    ensures
        match reply {
            ApiReply::Network(e) => r matches Err(m) && m@
                == "Network error sending fallback message: "@ + e@,
            ApiReply::Decode(e) => r matches Err(m) && m@ == "Failed to parse fallback response: "@
                + e@,
            ApiReply::Answer(d) => if d.ok {
                r is Ok
            } else {
                r matches Err(m) && m@ == error_text(first_description, "Failed to send message"@)
            },
        },
{
    match reply {
        ApiReply::Network(e) => Err(prefixed("Network error sending fallback message: ", e.as_str())),
        ApiReply::Decode(e) => Err(prefixed("Failed to parse fallback response: ", e.as_str())),
        ApiReply::Answer(d) => {
            if d.ok {
                Ok(())
            } else {
                Err(error_or(first_description, "Failed to send message"))
            }
        },
    }
}

// ---------------------------------------------------------------------------
// sendAudio and setMyCommands
// ---------------------------------------------------------------------------

/// `"true"` or `"false"` (`bool::to_string`).
pub open spec fn bool_text(b: bool) -> Seq<char> {
    if b {
        "true"@
    } else {
        "false"@
    }
}

/// The text fields of a `sendAudio` form, in order: `chat_id`, `title`,
/// `performer`, `disable_notification`.
pub fn audio_text_fields(chat_id: i64, title: &str, performer: &str, silent: bool) -> (r: Vec<
    (String, String),
>)
    ensures
        r@.len() == 4,
        r@[0].0@ == "chat_id"@ && r@[0].1@ == int_text(chat_id as int),
        r@[1].0@ == "title"@ && r@[1].1@ == title@,
        r@[2].0@ == "performer"@ && r@[2].1@ == performer@,
        r@[3].0@ == "disable_notification"@ && r@[3].1@ == bool_text(silent),
{
    let mut id: Vec<char> = Vec::new();
    push_i64_text(&mut id, chat_id);
    assert(id@ =~= int_text(chat_id as int));
    let mut r: Vec<(String, String)> = Vec::new();
    r.push((String::from_str("chat_id"), string_of(&id)));
    r.push((String::from_str("title"), String::from_str(title)));
    r.push((String::from_str("performer"), String::from_str(performer)));
    let flag = if silent {
        String::from_str("true")
    } else {
        String::from_str("false")
    };
    r.push((String::from_str("disable_notification"), flag));
    r
}

/// Reads the reply of `sendAudio`.
pub fn audio_outcome<T>(reply: ApiReply<T>) -> (r: Result<(), String>)
    ensures
        result_view(r) == unit_result(
            reply,
            "Network error sending audio: "@,
            "Failed to parse sendAudio response: "@,
            "Failed to send audio"@,
        ),
{
    unit_outcome(
        reply,
        "Network error sending audio: ",
        "Failed to parse sendAudio response: ",
        "Failed to send audio",
    )
}

/// The command menu for `(command, description)` pairs, in order.
pub fn bot_commands(pairs: &Vec<(String, String)>) -> (r: Vec<BotCommand>)
    ensures
        r@.len() == pairs@.len(),
        forall|i: int|
            0 <= i < r@.len() ==> (#[trigger] r@[i]).command@ == pairs@[i].0@ && r@[i].description@
                == pairs@[i].1@,
{
    let mut r: Vec<BotCommand> = Vec::new();
    let mut i: usize = 0;
    while i < pairs.len()
        invariant
            i <= pairs.len(),
            r@.len() == i,
            forall|j: int|
                0 <= j < i ==> (#[trigger] r@[j]).command@ == pairs@[j].0@ && r@[j].description@
                    == pairs@[j].1@,
        decreases pairs.len() - i,
    {
        let command = pairs[i].0.clone();
        let description = pairs[i].1.clone();
        r.push(BotCommand { command, description });
        i = i + 1;
    }
    r
}

/// Reads the reply of `setMyCommands`.
pub fn commands_outcome<T>(reply: ApiReply<T>) -> (r: Result<(), String>)
    ensures
        result_view(r) == unit_result(
            reply,
            "Network error setMyCommands: "@,
            "Failed to parse setMyCommands: "@,
            "Error setting commands"@,
        ),
{
    unit_outcome(
        reply,
        "Network error setMyCommands: ",
        "Failed to parse setMyCommands: ",
        "Error setting commands",
    )
}

} // verus!
