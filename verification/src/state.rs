//! The gateway's shared state: the subscribed chats, the maintenance
//! silence, the authorization whitelist, and the text in which the
//! subscriber set is persisted.
use vstd::prelude::*;
use std::collections::HashSet;
use crate::config::Config;
use crate::numbers::int_text;
use vstd::std_specs::hash::spec_hash_keys_iter;
use vstd::std_specs::iter::IteratorSpec;

verus! {

broadcast use {vstd::string::group_string_axioms, vstd::std_specs::hash::group_hash_axioms};

/// The mutable part of the state.
pub struct InnerState {
    /// The chats that receive notifications.
    pub subscribers: HashSet<i64>,
    /// While the monotonic clock (in nanoseconds) is below this instant,
    /// notifications are silenced.
    pub silenced_until: Option<u128>,
}

/// The state of the gateway.
pub struct AppState {
    pub inner: InnerState,
    pub config: Config,
    pub storage_path: String,
}

/// What the health endpoint reports.
pub struct HealthReport {
    pub subscribers_count: usize,
    pub is_silenced: bool,
}

/// Nanoseconds in a minute.
pub const NANOS_PER_MINUTE: u128 = 60_000_000_000;

// ---------------------------------------------------------------------------
// Persistence format
// ---------------------------------------------------------------------------

/// The list of numbers that `serde_json` reads from `text` as a JSON array
/// of `i64`, if `text` is one.
pub uninterp spec fn json_id_list(text: Seq<char>) -> Option<Seq<i64>>;

/// Reads `text` as a JSON array of integers: `serde_json::from_str` into a
/// `Vec<i64>`. The contract names the outcome (`json_id_list`) and claims
/// nothing more of the JSON grammar.
#[verifier::external_body]
fn parse_json_ids(text: &str) -> (r: Option<Vec<i64>>)
    ensures
        match r {
            Some(v) => json_id_list(text@) == Some(v@),
            None => json_id_list(text@) is None,
        },
{
    serde_json::from_str::<Vec<i64>>(text).ok()
}

/// The items of a pretty-printed JSON array of integers: each on its own
/// line, indented by two spaces, separated by commas.
pub open spec fn pretty_items(ids: Seq<i64>) -> Seq<char>
    decreases ids.len(),
{
    if ids.len() == 0 {
        seq![]
    } else {
        pretty_items(ids.drop_last()) + (if ids.len() == 1 {
            "\n  "@
        } else {
            ",\n  "@
        }) + int_text(ids.last() as int)
    }
}

/// `serde_json::to_string_pretty` of a list of integers: `[]` when empty,
/// otherwise `[`, the items, a newline and `]`.
pub open spec fn pretty_id_list(ids: Seq<i64>) -> Seq<char> {
    if ids.len() == 0 {
        "[]"@
    } else {
        "["@ + pretty_items(ids) + "\n]"@
    }
}

/// `serde_json::to_string_pretty` of a list of integers. The contract
/// claims that with the default pretty formatter an array of `i64` always
/// serializes, into the text [`pretty_id_list`] states, and that
/// `serde_json` reads that text back as the same list (its parser accepts
/// the whitespace and integer tokens its serializer writes).
#[verifier::external_body]
fn to_pretty_json(ids: &Vec<i64>) -> (r: Option<String>)
    ensures
        r is Some,
        r.unwrap()@ == pretty_id_list(ids@),
        json_id_list(r.unwrap()@) == Some(ids@),
{
    serde_json::to_string_pretty(ids).ok()
}

/// `text` is a stored form of the chats `subscribers`: each listed once, in
/// some order, pretty-printed, and read back as that list.
pub open spec fn stores(text: Seq<char>, subscribers: Set<i64>) -> bool {
    exists|ids: Seq<i64>|
        ids.no_duplicates() && ids.to_set() == subscribers && text == pretty_id_list(ids)
            && json_id_list(text) == Some(ids)
}

/// The subscribers that a new state starts with: those read from the
/// stored text (none when there is no text or it is not a JSON array of
/// integers), plus the default chat if one is configured.
pub open spec fn initial_subscribers(stored: Option<Seq<char>>, default_chat_id: Option<i64>) -> Set<
    i64,
> {
    let loaded = match stored {
        Some(t) => match json_id_list(t) {
            Some(v) => v.to_set(),
            None => Set::empty(),
        },
        None => Set::empty(),
    };
    match default_chat_id {
        Some(id) => loaded.insert(id),
        None => loaded,
    }
}

/// The instant until which notifications are silenced after a silence of
/// `minutes` requested at `now` (saturating at the clock's largest value).
pub open spec fn silence_deadline(now: u128, minutes: u64) -> u128 {
    let d = now + minutes * NANOS_PER_MINUTE;
    if d > u128::MAX {
        u128::MAX
    } else {
        d as u128
    }
}

/// Whether notifications are silenced at `now`.
pub open spec fn silenced_at(silenced_until: Option<u128>, now: u128) -> bool {
    match silenced_until {
        Some(until) => now < until,
        None => false,
    }
}

/// The authorization rule: a strict whitelist; an empty list authorizes
/// nobody.
pub open spec fn authorized(allowed: Seq<i64>, user_id: i64) -> bool {
    allowed.len() > 0 && allowed.contains(user_id)
}

/// The number of successful sends among `outcomes`.
pub open spec fn successes(outcomes: Seq<bool>) -> nat
    decreases outcomes.len(),
{
    if outcomes.len() == 0 {
        0
    } else {
        successes(outcomes.drop_last()) + if outcomes.last() {
            1nat
        } else {
            0nat
        }
    }
}

/// How many of `outcomes` are successful sends.
pub fn count_delivered(outcomes: &Vec<bool>) -> (r: usize)
    ensures
        r == successes(outcomes@),
{
    let mut n: usize = 0;
    let mut i: usize = 0;
    while i < outcomes.len()
        invariant
            i <= outcomes.len(),
            n == successes(outcomes@.take(i as int)),
            n <= i,
        decreases outcomes.len() - i,
    {
        assert(outcomes@.take(i + 1).drop_last() =~= outcomes@.take(i as int));
        if outcomes[i] {
            n = n + 1;
        }
        i = i + 1;
    }
    assert(outcomes@.take(outcomes.len() as int) =~= outcomes@);
    n
}

// ---------------------------------------------------------------------------
// Laws
// ---------------------------------------------------------------------------

/// Subscribing a chat that was not subscribed and then unsubscribing it
/// leaves the subscribers as they were.
pub proof fn law_subscribe_then_unsubscribe(subscribers: Set<i64>, chat_id: i64)
    requires
        !subscribers.contains(chat_id),
    ensures
        subscribers.insert(chat_id).remove(chat_id) == subscribers,
{
    assert(subscribers.insert(chat_id).remove(chat_id) =~= subscribers);
}

/// Subscribing twice: the chat is subscribed after the first time, so the
/// second changes nothing (and reports that nothing was added).
pub proof fn law_subscribe_twice(subscribers: Set<i64>, chat_id: i64)
    ensures
        subscribers.insert(chat_id).contains(chat_id),
        subscribers.insert(chat_id).insert(chat_id) == subscribers.insert(chat_id),
{
    assert(subscribers.insert(chat_id).insert(chat_id) =~= subscribers.insert(chat_id));
}

/// Unsubscribing leaves the chat unsubscribed, whatever it was before.
pub proof fn law_unsubscribe_removes(subscribers: Set<i64>, chat_id: i64)
    ensures
        !subscribers.remove(chat_id).contains(chat_id),
{
}

/// An empty whitelist authorizes nobody; a non-empty one authorizes exactly
/// its members.
pub proof fn law_whitelist(allowed: Seq<i64>, user_id: i64)
    ensures
        allowed.len() == 0 ==> !authorized(allowed, user_id),
        allowed.len() > 0 ==> (authorized(allowed, user_id) <==> allowed.contains(user_id)),
{
}

/// A silence of `minutes` requested at `now` silences notifications exactly
/// until its deadline, which lies `minutes` minutes ahead unless the clock
/// saturates; a silence of at least a minute covers `now` itself. Without a
/// silence nothing is silenced.
pub proof fn law_silence_window(now: u128, minutes: u64, t: u128)
    ensures
        silenced_at(Some(silence_deadline(now, minutes)), t) <==> t < silence_deadline(now, minutes),
        now + minutes * NANOS_PER_MINUTE <= u128::MAX ==> silence_deadline(now, minutes) == now
            + minutes * NANOS_PER_MINUTE,
        minutes > 0 && now < u128::MAX ==> silenced_at(Some(silence_deadline(now, minutes)), now),
        !silenced_at(None, t),
{
}

/// What is stored reads back: a state started from the stored form of a
/// subscriber set holds exactly those chats, plus the configured default
/// chat.
pub proof fn law_storage_round_trip(text: Seq<char>, subscribers: Set<i64>, default_chat_id: Option<i64>)
    requires
        stores(text, subscribers),
    ensures
        initial_subscribers(Some(text), default_chat_id) == match default_chat_id {
            Some(id) => subscribers.insert(id),
            None => subscribers,
        },
{
    let ids = choose|ids: Seq<i64>|
        ids.no_duplicates() && ids.to_set() == subscribers && text == pretty_id_list(ids)
            && json_id_list(text) == Some(ids);
    assert(json_id_list(text) == Some(ids));
}

/// A delivery never counts more chats than it was sent to.
pub proof fn law_delivered_at_most_sent(outcomes: Seq<bool>)
    ensures
        successes(outcomes) <= outcomes.len(),
    decreases outcomes.len(),
{
    if outcomes.len() > 0 {
        law_delivered_at_most_sent(outcomes.drop_last());
    }
}

/// The count of a delivery is the number of successful sends: nothing is
/// counted for no sends, each further send adds one exactly when it
/// succeeded, and the count is the number of `true` outcomes.
pub proof fn law_successes_count(outcomes: Seq<bool>, b: bool)
    ensures
        successes(Seq::<bool>::empty()) == 0,
        successes(outcomes.push(b)) == successes(outcomes) + if b {
            1int
        } else {
            0int
        },
        successes(outcomes) == outcomes.filter(|o: bool| o).len(),
    decreases outcomes.len(),
{
    assert(outcomes.push(b).drop_last() =~= outcomes);
    reveal(Seq::filter);
    if outcomes.len() > 0 {
        law_successes_count(outcomes.drop_last(), b);
    }
}

/// When every send succeeds, every send is counted.
pub proof fn law_all_sent_all_counted(outcomes: Seq<bool>)
    requires
        forall|i: int| 0 <= i < outcomes.len() ==> #[trigger] outcomes[i],
    ensures
        successes(outcomes) == outcomes.len(),
    decreases outcomes.len(),
{
    if outcomes.len() > 0 {
        let p = outcomes.drop_last();
        assert forall|i: int| 0 <= i < p.len() implies #[trigger] p[i] by {
            assert(p[i] == outcomes[i]);
        }
        law_all_sent_all_counted(p);
        assert(outcomes[outcomes.len() - 1]);
    }
}

impl AppState {
    /// A fresh state: the subscribers read from `stored` (the contents of
    /// the storage file, if it could be read) plus the configured default
    /// chat, and no silence.
    pub fn new(config: Config, stored: Option<String>) -> (r: AppState)
        ensures
            r.inner.subscribers@ == initial_subscribers(
                match stored {
                    Some(t) => Some(t@),
                    None => None,
                },
                config.default_chat_id,
            ),
            r.inner.silenced_until is None,
            r.config == config,
            r.storage_path == config.storage_path,
    {
        let mut subscribers: HashSet<i64> = HashSet::new();
        match &stored {
            Some(text) => match parse_json_ids(text.as_str()) {
                Some(ids) => {
                    let mut i: usize = 0;
                    while i < ids.len()
                        invariant
                            i <= ids.len(),
                            subscribers@ == ids@.take(i as int).to_set(),
                        decreases ids.len() - i,
                    {
                        subscribers.insert(ids[i]);
                        i = i + 1;
                        proof {
                            let prev = ids@.take(i - 1);
                            let cur = ids@.take(i as int);
                            assert(cur =~= prev.push(ids@[i - 1]));
                            assert forall|a: i64| #[trigger] cur.contains(a) <==> (prev.contains(a) || a
                                == ids@[i - 1]) by {
                                if cur.contains(a) {
                                    let k = choose|k: int| 0 <= k < cur.len() && cur[k] == a;
                                    if k < i - 1 {
                                        assert(prev[k] == a);
                                    }
                                }
                                if prev.contains(a) {
                                    let k = choose|k: int| 0 <= k < prev.len() && prev[k] == a;
                                    assert(cur[k] == a);
                                }
                                if a == ids@[i - 1] {
                                    assert(cur[i - 1] == a);
                                }
                            }
                            assert(subscribers@ =~= cur.to_set());
                        }
                    }
                    assert(ids@.take(ids.len() as int) =~= ids@);
                },
                None => {
                    assert(subscribers@ =~= Set::<i64>::empty());
                },
            },
            None => {
                assert(subscribers@ =~= Set::<i64>::empty());
            },
        }
        match config.default_chat_id {
            Some(id) => {
                subscribers.insert(id);
            },
            None => {},
        }
        let storage_path = config.storage_path.clone();
        AppState {
            inner: InnerState { subscribers, silenced_until: None },
            config,
            storage_path,
        }
    }

    /// Whether `user_id` may use the bot: only users on a non-empty
    /// whitelist are.
    pub fn is_authorized(&self, user_id: i64) -> (r: bool)
        ensures
            r == authorized(self.config.allowed_users@, user_id),
    {
        let allowed = &self.config.allowed_users;
        if allowed.len() == 0 {
            return false;
        }
        let mut i: usize = 0;
        while i < allowed.len()
            invariant
                i <= allowed.len(),
                allowed@ == self.config.allowed_users@,
                forall|j: int| 0 <= j < i ==> allowed@[j] != user_id,
            decreases allowed.len() - i,
        {
            if allowed[i] == user_id {
                assert(allowed@[i as int] == user_id);
                assert(allowed@.contains(user_id));
                return true;
            }
            i = i + 1;
        }
        false
    }

    /// Subscribes `chat_id`; true when it was not subscribed before.
    pub fn add_subscriber(&mut self, chat_id: i64) -> (r: bool)
        ensures
            final(self).inner.subscribers@ == old(self).inner.subscribers@.insert(chat_id),
            r == !old(self).inner.subscribers@.contains(chat_id),
            final(self).inner.silenced_until == old(self).inner.silenced_until,
            final(self).config == old(self).config,
            final(self).storage_path == old(self).storage_path,
    {
        self.inner.subscribers.insert(chat_id)
    }

    /// Unsubscribes `chat_id`; true when it was subscribed.
    pub fn remove_subscriber(&mut self, chat_id: i64) -> (r: bool)
        ensures
            final(self).inner.subscribers@ == old(self).inner.subscribers@.remove(chat_id),
            r == old(self).inner.subscribers@.contains(chat_id),
            final(self).inner.silenced_until == old(self).inner.silenced_until,
            final(self).config == old(self).config,
            final(self).storage_path == old(self).storage_path,
    {
        self.inner.subscribers.remove(&chat_id)
    }

    /// The subscribed chats, each once, in the set's iteration order.
    pub fn get_subscribers(&self) -> (r: Vec<i64>)
        ensures
            r@.no_duplicates(),
            r@.to_set() == self.inner.subscribers@,
            r@.len() == self.inner.subscribers@.len(),
    {
        let mut r: Vec<i64> = Vec::new();
        let ghost keys = spec_hash_keys_iter(&self.inner.subscribers).remaining();
        for x in it: self.inner.subscribers.iter()
            invariant
                it.seq() == keys,
                r@ == keys.take(it.index() as int).unref(),
            ensures
                r@ == keys.unref(),
        {
            r.push(*x);
            assert(r@ =~= keys.take(it.index() + 1).unref());
        }
        r
    }

    /// Silences notifications for `minutes` from `now`.
    pub fn silence(&mut self, now: u128, minutes: u64)
        ensures
            final(self).inner.silenced_until == Some(silence_deadline(now, minutes)),
            final(self).inner.subscribers@ == old(self).inner.subscribers@,
            final(self).config == old(self).config,
            final(self).storage_path == old(self).storage_path,
    {
        let d: u128 = minutes as u128 * NANOS_PER_MINUTE;
        let until: u128 = if now > u128::MAX - d {
            u128::MAX
        } else {
            now + d
        };
        self.inner.silenced_until = Some(until);
    }

    /// Whether notifications are silenced at `now`.
    pub fn is_silenced(&self, now: u128) -> (r: bool)
        ensures
            r == silenced_at(self.inner.silenced_until, now),
    {
        match self.inner.silenced_until {
            Some(until) => now < until,
            None => false,
        }
    }

    /// The chats a delivery goes to: the given chat, or every subscriber.
    pub fn delivery_targets(&self, target_chat: Option<i64>) -> (r: Vec<i64>)
        ensures
            match target_chat {
                Some(c) => r@ == seq![c],
                None => r@.no_duplicates() && r@.to_set() == self.inner.subscribers@,
            },
    {
        match target_chat {
            Some(c) => {
                let mut r: Vec<i64> = Vec::new();
                r.push(c);
                assert(r@ =~= seq![c]);
                r
            },
            None => self.get_subscribers(),
        }
    }

    /// The text the subscriber set is stored as: the subscribers, in some
    /// order and each once, pretty-printed as a JSON array.
    pub fn subscribers_json(&self) -> (r: String)
        ensures
            stores(r@, self.inner.subscribers@),
    {
        let ids = self.get_subscribers();
        match to_pretty_json(&ids) {
            Some(s) => {
                assert(ids@.no_duplicates() && ids@.to_set() == self.inner.subscribers@ && s@
                    == pretty_id_list(ids@) && json_id_list(s@) == Some(ids@));
                s
            },
            None => String::new(),
        }
    }

    /// What the health endpoint reports at `now`.
    pub fn health(&self, now: u128) -> (r: HealthReport)
        ensures
            r.subscribers_count == self.inner.subscribers@.len(),
            r.is_silenced == silenced_at(self.inner.silenced_until, now),
    {
        HealthReport {
            subscribers_count: self.inner.subscribers.len(),
            is_silenced: self.is_silenced(now),
        }
    }
}

} // verus!
