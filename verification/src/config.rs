//! The gateway's settings, read from the values of its environment
//! variables.
use vstd::prelude::*;
use vstd::string::StringExecFns;
use crate::numbers::{parse_i64, parse_u16, parsed_i64, parsed_u16};
use crate::text::{chars_of, trim, trim_chars};

verus! {

broadcast use vstd::string::group_string_axioms;

/// The gateway's settings.
#[derive(Clone, Debug)]
pub struct Config {
    pub bot_token: String,
    pub default_chat_id: Option<i64>,
    pub allowed_users: Vec<i64>,
    pub http_host: String,
    pub http_port: u16,
    pub storage_path: String,
}

/// The pieces of `s` between occurrences of `sep`, in order (`str::split`
/// with a character): one more piece than there are separators, empty
/// pieces included.
pub open spec fn split_scan(s: Seq<char>, sep: char) -> (Seq<Seq<char>>, Seq<char>)
    decreases s.len(),
{
    if s.len() == 0 {
        (seq![], seq![])
    } else {
        let (done, cur) = split_scan(s.drop_last(), sep);
        if s.last() == sep {
            (done.push(cur), seq![])
        } else {
            (done, cur.push(s.last()))
        }
    }
}

/// The pieces of `s` between occurrences of `sep`.
pub open spec fn split_on(s: Seq<char>, sep: char) -> Seq<Seq<char>> {
    let (done, cur) = split_scan(s, sep);
    done.push(cur)
}

/// The numbers among `pieces`, each trimmed and parsed as an `i64`; pieces
/// that do not parse are left out.
pub open spec fn parsed_ids(pieces: Seq<Seq<char>>) -> Seq<i64>
    decreases pieces.len(),
{
    if pieces.len() == 0 {
        seq![]
    } else {
        match parsed_i64(trim(pieces.last())) {
            Some(v) => parsed_ids(pieces.drop_last()).push(v),
            None => parsed_ids(pieces.drop_last()),
        }
    }
}

/// The user ids of a comma-separated list.
pub open spec fn id_list(s: Seq<char>) -> Seq<i64> {
    parsed_ids(split_on(s, ','))
}

/// The ids of the comma-separated list `s`, in order.
pub fn parse_id_list(s: &str) -> (r: Vec<i64>)
    ensures
        r@ == id_list(s@),
{
    let cs = chars_of(s);
    let mut r: Vec<i64> = Vec::new();
    let mut cur: Vec<char> = Vec::new();
    let mut i: usize = 0;
    while i < cs.len()
        invariant
            i <= cs.len(),
            ({
                let (done, c) = split_scan(cs@.take(i as int), ',');
                r@ == parsed_ids(done) && cur@ == c
            }),
        decreases cs.len() - i,
    {
        assert(cs@.take(i + 1).drop_last() =~= cs@.take(i as int));
        let ch = cs[i];
        if ch == ',' {
            let ghost (done, c) = split_scan(cs@.take(i as int), ',');
            assert(done.push(c).drop_last() =~= done);
            match parse_i64(&trim_chars(&cur)) {
                Some(v) => r.push(v),
                None => {},
            }
            cur = Vec::new();
        } else {
            cur.push(ch);
        }
        i = i + 1;
    }
    assert(cs@.take(cs.len() as int) =~= cs@);
    let ghost (done, c) = split_scan(cs@, ',');
    assert(done.push(c).drop_last() =~= done);
    match parse_i64(&trim_chars(&cur)) {
        Some(v) => r.push(v),
        None => {},
    }
    r
}

/// The settings for the values of `TELEGRAM_BOT_TOKEN`, `TELEGRAM_CHAT_ID`,
/// `ALLOWED_USERS`, `HTTP_HOST`, `HTTP_PORT` and `STORAGE_PATH` (each `None`
/// when unset).
pub open spec fn settings(
    bot_token: Option<Seq<char>>,
    chat_id: Option<Seq<char>>,
    allowed_users: Option<Seq<char>>,
    http_host: Option<Seq<char>>,
    http_port: Option<Seq<char>>,
    storage_path: Option<Seq<char>>,
    c: Config,
) -> bool {
    &&& bot_token == Some(c.bot_token@)
    &&& c.default_chat_id == match chat_id {
        Some(v) => parsed_i64(trim(v)),
        None => None,
    }
    &&& c.allowed_users@ == id_list(
        match allowed_users {
            Some(v) => v,
            None => Seq::empty(),
        },
    )
    &&& c.http_host@ == match http_host {
        Some(v) => v,
        None => "127.0.0.1"@,
    }
    &&& c.http_port == match http_port {
        Some(v) => match parsed_u16(v) {
            Some(p) => p,
            None => 8088,
        },
        None => 8088,
    }
    &&& c.storage_path@ == match storage_path {
        Some(v) => v,
        None => "subscribers.json"@,
    }
}

/// The view of an optional `String`.
pub open spec fn opt_view(o: Option<String>) -> Option<Seq<char>> {
    match o {
        Some(s) => Some(s@),
        None => None,
    }
}

impl Config {
    /// Builds the settings from the values of the environment variables:
    /// the bot token is required; the default chat id is trimmed and parsed;
    /// the allowed users are a comma-separated list whose unparsable entries
    /// are skipped; host, port and storage path have defaults
    /// (`127.0.0.1`, `8088`, `subscribers.json`), the port also when it does
    /// not parse.
    pub fn from_env_values(
        bot_token: Option<String>,
        chat_id: Option<String>,
        allowed_users: Option<String>,
        http_host: Option<String>,
        http_port: Option<String>,
        storage_path: Option<String>,
    ) -> (r: Result<Config, String>)
        ensures
            bot_token is None <==> r is Err,
            r matches Err(e) ==> e@ == "TELEGRAM_BOT_TOKEN environment variable is required"@,
            r matches Ok(c) ==> settings(
                opt_view(bot_token),
                opt_view(chat_id),
                opt_view(allowed_users),
                opt_view(http_host),
                opt_view(http_port),
                opt_view(storage_path),
                c,
            ),
    {
        let bot_token = match bot_token {
            Some(t) => t,
            None => {
                return Err(String::from_str("TELEGRAM_BOT_TOKEN environment variable is required"));
            },
        };
        let default_chat_id = match &chat_id {
            Some(v) => parse_i64(&trim_chars(&chars_of(v.as_str()))),
            None => None,
        };
        let allowed = match &allowed_users {
            Some(v) => parse_id_list(v.as_str()),
            None => parse_id_list(""),
        };
        proof {
            reveal_strlit("");
        }
        let http_host = match http_host {
            Some(h) => h,
            None => String::from_str("127.0.0.1"),
        };
        let http_port: u16 = match &http_port {
            Some(v) => match parse_u16(&chars_of(v.as_str())) {
                Some(p) => p,
                None => 8088,
            },
            None => 8088,
        };
        let storage_path = match storage_path {
            Some(p) => p,
            None => String::from_str("subscribers.json"),
        };
        Ok(
            Config {
                bot_token,
                default_chat_id,
                allowed_users: allowed,
                http_host,
                http_port,
                storage_path,
            },
        )
    }
}

} // verus!
