//! What the HTTP endpoints decide: whether a notification or alert is
//! delivered, with which text and to whom, and what the caller is answered.
use vstd::prelude::*;
use vstd::string::StringExecFns;
use crate::bot::{
    command_effect, silence_minutes, BotOutcome, Request, MARKDOWN, MAX_SILENCE_MINUTES,
};
use crate::state::{AppState, silence_deadline, silenced_at};
use crate::text::{chars_of, extend_chars, extend_str, lowercase, string_of, to_lowercase, trim, trim_chars};

verus! {

broadcast use vstd::string::group_string_axioms;

/// The JSON body of `/notify` and `/alert`. Without `chat_id` a
/// notification goes to every subscriber.
#[derive(Clone, Debug)]
pub struct NotifyRequest {
    pub host: Option<String>,
    pub title: Option<String>,
    pub message: Option<String>,
    pub priority: Option<String>,
    pub silent: Option<bool>,
    pub chat_id: Option<i64>,
}

/// The answer of an endpoint.
pub enum HttpReply {
    /// `200`, `{"ok": true, "delivered_to": n}`.
    Delivered(usize),
    /// `200`, `{"ok": true, "delivered_to": 0, "silenced": true}`.
    Silenced,
    /// `400`, `{"ok": false, "error": ..}`.
    Rejected(String),
}

impl HttpReply {
    /// The HTTP status code of the answer.
    pub fn status(&self) -> (r: u16)
        ensures
            r == (if self is Rejected {
                400u16
            } else {
                200u16
            }),
    {
        match self {
            HttpReply::Rejected(_) => 400,
            _ => 200,
        }
    }
}

/// A message to deliver: to `target_chat`, or to every subscriber.
pub struct Delivery {
    pub text: String,
    pub parse_mode: String,
    pub silent: bool,
    pub target_chat: Option<i64>,
}

/// What an endpoint does with a request.
pub enum HttpDecision {
    /// Answer at once; nothing is sent.
    Respond(HttpReply),
    /// Deliver, then answer `Delivered` with the number of chats reached.
    Deliver(Delivery),
}

pub const EMPTY_MESSAGE_BODY: &'static str = "Empty message body";

pub const EMPTY_ALERT_BODY: &'static str = "Empty alert body";

pub const ALERT_HEAD: &'static str = " *ALERTA URGENTE*\n\n";

pub const DEFAULT_TITLE: &'static str = "Notificación";

pub const DEFAULT_PRIORITY: &'static str = "default";

/// The Markdown text of a notification: the title in bold, then the
/// message after a blank line when there is one.
pub open spec fn notification_text(title: Seq<char>, message: Seq<char>) -> Seq<char> {
    if message.len() == 0 {
        "*"@ + title + "*"@
    } else {
        "*"@ + title + "*\n\n"@ + message
    }
}

/// A (lowercased) priority that makes a notification silent by default.
pub open spec fn quiet_priority(priority: Seq<char>) -> bool {
    priority == "min"@ || priority == "low"@
}

/// Title, message, silence flag and target of a structured notification
/// whose lowercased priority is `priority`: the title defaults to
/// `Notificación` followed by ` [host]` when a host is given; a notification
/// is silent when asked, or else when its priority is quiet.
pub open spec fn fields_with_priority(req: NotifyRequest, priority: Seq<char>) -> (
    Seq<char>,
    Seq<char>,
    bool,
    Option<i64>,
) {
    let silent = match req.silent {
        Some(s) => s,
        None => quiet_priority(priority),
    };
    let host_tag = match req.host {
        Some(h) => " ["@ + h@ + "]"@,
        None => seq![],
    };
    let title = match req.title {
        Some(t) => t@,
        None => DEFAULT_TITLE@ + host_tag,
    };
    let message = match req.message {
        Some(m) => m@,
        None => seq![],
    };
    (title, message, silent, req.chat_id)
}

/// The priority of `req`, lowercased (`default` when absent).
pub open spec fn request_priority(req: NotifyRequest) -> Seq<char> {
    lowercase(
        match req.priority {
            Some(p) => p@,
            None => DEFAULT_PRIORITY@,
        },
    )
}

/// Title, message, silence flag and target of a structured notification.
pub open spec fn request_fields(req: NotifyRequest) -> (Seq<char>, Seq<char>, bool, Option<i64>) {
    fields_with_priority(req, request_priority(req))
}

/// `d` delivers `text` as Markdown, silently or not, to `target`.
pub open spec fn delivers(d: HttpDecision, text: Seq<char>, silent: bool, target: Option<i64>) -> bool {
    d matches HttpDecision::Deliver(del) && del.text@ == text && del.parse_mode@ == MARKDOWN@
        && del.silent == silent && del.target_chat == target
}

/// What `/notify` does with `body` at `now`; `request` is `body` read as a
/// JSON [`NotifyRequest`], if it is one. While silenced nothing is sent; a
/// structured request is delivered by its fields; a plain-text body is
/// delivered, trimmed, to every subscriber, unless it is blank, which is
/// refused.
pub open spec fn notify_outcome(
    silenced: bool,
    body: Seq<char>,
    request: Option<NotifyRequest>,
    d: HttpDecision,
) -> bool {
    if silenced {
        d matches HttpDecision::Respond(HttpReply::Silenced)
    } else {
        match request {
            Some(req) => {
                let (title, message, silent, target) = request_fields(req);
                delivers(d, notification_text(title, message), silent, target)
            },
            None => {
                let text = trim(body);
                if text.len() == 0 {
                    d matches HttpDecision::Respond(HttpReply::Rejected(e)) && e@
                        == EMPTY_MESSAGE_BODY@
                } else {
                    delivers(d, notification_text(DEFAULT_TITLE@, text), false, None)
                }
            },
        }
    }
}

fn notification_text_for(title: &Vec<char>, message: &Vec<char>) -> (r: String)
    ensures
        r@ == notification_text(title@, message@),
{
    let mut cs = chars_of("*");
    extend_chars(&mut cs, title);
    if message.len() == 0 {
        extend_str(&mut cs, "*");
    } else {
        extend_str(&mut cs, "*\n\n");
        extend_chars(&mut cs, message);
    }
    string_of(&cs)
}

fn delivery_of(text: String, silent: bool, target_chat: Option<i64>) -> (d: HttpDecision)
    ensures
        delivers(d, text@, silent, target_chat),
{
    HttpDecision::Deliver(
        Delivery { text, parse_mode: String::from_str(MARKDOWN), silent, target_chat },
    )
}

/// Whether a (lowercased) priority is quiet.
pub fn is_quiet_priority(priority: &str) -> (r: bool)
    ensures
        r == quiet_priority(priority@),
{
    let pc = chars_of(priority);
    crate::text::same_text(&pc, "min") || crate::text::same_text(&pc, "low")
}

/// The delivery of a structured notification whose priority, lowercased,
/// is `priority`.
pub fn structured_delivery(req: NotifyRequest, priority: &str) -> (d: HttpDecision)
    ensures
        ({
            let (title, message, silent, target) = fields_with_priority(req, priority@);
            delivers(d, notification_text(title, message), silent, target)
        }),
{
    let silent = match req.silent {
        Some(s) => s,
        None => is_quiet_priority(priority),
    };
    let title = match &req.title {
        Some(t) => chars_of(t.as_str()),
        None => {
            let mut t = chars_of(DEFAULT_TITLE);
            match &req.host {
                Some(h) => {
                    extend_str(&mut t, " [");
                    extend_str(&mut t, h.as_str());
                    extend_str(&mut t, "]");
                },
                None => {},
            }
            t
        },
    };
    let message = match &req.message {
        Some(m) => chars_of(m.as_str()),
        None => Vec::new(),
    };
    proof {
        let (t, m, s, c) = fields_with_priority(req, priority@);
        assert(title@ =~= t);
        assert(message@ =~= m);
    }
    delivery_of(notification_text_for(&title, &message), silent, req.chat_id)
}

/// Decides what `/notify` does, as [`notify_outcome`] says.
pub fn notify_decision(state: &AppState, now: u128, body: &str, request: Option<NotifyRequest>) -> (d:
    HttpDecision)
    ensures
        notify_outcome(silenced_at(state.inner.silenced_until, now), body@, request, d),
{
    if state.is_silenced(now) {
        return HttpDecision::Respond(HttpReply::Silenced);
    }
    match request {
        Some(req) => {
            let priority = match &req.priority {
                Some(p) => to_lowercase(p.as_str()),
                None => to_lowercase(DEFAULT_PRIORITY),
            };
            structured_delivery(req, priority.as_str())
        },
        None => {
            let text = trim_chars(&chars_of(body));
            if text.len() == 0 {
                return HttpDecision::Respond(
                    HttpReply::Rejected(String::from_str(EMPTY_MESSAGE_BODY)),
                );
            }
            delivery_of(notification_text_for(&chars_of(DEFAULT_TITLE), &text), false, None)
        },
    }
}

/// What `/alert` does with `body`: it is always delivered, silence or not,
/// unless blank; `request` (the body read as JSON, if it is) may only pick
/// the target chat.
pub open spec fn alert_outcome(body: Seq<char>, request: Option<NotifyRequest>, d: HttpDecision) -> bool {
    let text = trim(body);
    if text.len() == 0 {
        d matches HttpDecision::Respond(HttpReply::Rejected(e)) && e@ == EMPTY_ALERT_BODY@
    } else {
        delivers(
            d,
            ALERT_HEAD@ + text,
            false,
            match request {
                Some(r) => r.chat_id,
                None => None,
            },
        )
    }
}

/// Decides what `/alert` does, as [`alert_outcome`] says.
pub fn alert_decision(body: &str, request: Option<NotifyRequest>) -> (d: HttpDecision)
    ensures
        alert_outcome(body@, request, d),
{
    let text = trim_chars(&chars_of(body));
    if text.len() == 0 {
        return HttpDecision::Respond(HttpReply::Rejected(String::from_str(EMPTY_ALERT_BODY)));
    }
    let mut cs = chars_of(ALERT_HEAD);
    extend_chars(&mut cs, &text);
    let target = match request {
        Some(r) => r.chat_id,
        None => None,
    };
    delivery_of(string_of(&cs), false, target)
}

// ---------------------------------------------------------------------------
// Laws
// ---------------------------------------------------------------------------

/// While silenced, `/notify` sends nothing and reports the silence.
pub proof fn law_silence_holds_notifications(
    body: Seq<char>,
    request: Option<NotifyRequest>,
    d: HttpDecision,
)
    requires
        notify_outcome(true, body, request, d),
    ensures
        d matches HttpDecision::Respond(HttpReply::Silenced),
{
}

/// After `/silence` (within the clock's range), `/notify` sends nothing
/// until the silence's deadline.
pub proof fn law_silence_command_holds_notifications(
    pre: AppState,
    post: AppState,
    now: u128,
    req: Request,
    out: BotOutcome,
    t: u128,
    body: Seq<char>,
    request: Option<NotifyRequest>,
    d: HttpDecision,
)
    requires
        req.command is Silence,
        silence_minutes(req.args) <= MAX_SILENCE_MINUTES,
        command_effect(pre, post, now, req, out),
        t < silence_deadline(now, silence_minutes(req.args)),
        notify_outcome(silenced_at(post.inner.silenced_until, t), body, request, d),
    ensures
        d matches HttpDecision::Respond(HttpReply::Silenced),
{
}

/// An alert with a non-blank body is always delivered; silence plays no
/// part in it.
pub proof fn law_alerts_are_always_delivered(
    body: Seq<char>,
    request: Option<NotifyRequest>,
    d: HttpDecision,
)
    requires
        alert_outcome(body, request, d),
        trim(body).len() > 0,
    ensures
        d is Deliver,
{
}

/// A notification without a `chat_id` (or a plain-text one) goes to every
/// subscriber; one with a `chat_id` goes to that chat alone.
pub proof fn law_notify_target(body: Seq<char>, request: Option<NotifyRequest>, d: HttpDecision)
    requires
        notify_outcome(false, body, request, d),
        d is Deliver,
    ensures
        d matches HttpDecision::Deliver(del) && del.target_chat == match request {
            Some(r) => r.chat_id,
            None => None,
        },
{
}

/// A blank body that is not a JSON request is refused with `400`.
pub proof fn law_blank_notification_refused(body: Seq<char>, d: HttpDecision)
    requires
        notify_outcome(false, body, None, d),
        trim(body).len() == 0,
    ensures
        d matches HttpDecision::Respond(r) && r is Rejected,
{
}

/// An explicit `silent` flag is obeyed whatever the priority; without one,
/// a notification is silent exactly when its (lowercased) priority is `min`
/// or `low`.
pub proof fn law_structured_silence(req: NotifyRequest, priority: Seq<char>, d: HttpDecision)
    requires
        ({
            let (title, message, silent, target) = fields_with_priority(req, priority);
            delivers(d, notification_text(title, message), silent, target)
        }),
    ensures
        d matches HttpDecision::Deliver(del) && match req.silent {
            Some(s) => del.silent == s,
            None => del.silent == (priority == "min"@ || priority == "low"@),
        },
{
}

/// A `/notify` request that says `silent` is delivered with exactly that
/// flag, whatever its priority.
pub proof fn law_notify_obeys_silent_flag(body: Seq<char>, req: NotifyRequest, d: HttpDecision)
    requires
        notify_outcome(false, body, Some(req), d),
        req.silent is Some,
    ensures
        d matches HttpDecision::Deliver(del) && del.silent == req.silent.unwrap(),
{
}

} // verus!
