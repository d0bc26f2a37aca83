//! Data read from the Mihomo RESTful API, and the decisions made on it.

use vstd::prelude::*;
use crate::text::{chars_of, decimal, decimal_string, push_char, string_from_range};

verus! {

/// One latency measurement of a proxy.
#[derive(Debug, Clone)]
pub struct HistoryEntry {
    pub time: String,
    pub delay: u64,
}

/// A proxy or proxy group as `GET /proxies` reports it.
#[derive(Debug, Clone)]
pub struct ProxyInfo {
    pub name: String,
    /// Mihomo type, e.g. `Selector`, `URLTest`, `Trojan`.
    pub proxy_type: String,
    /// Currently selected member (groups).
    pub now: Option<String>,
    /// All members (groups).
    pub all: Option<Vec<String>>,
    /// Latency history, oldest first.
    pub history: Option<Vec<HistoryEntry>>,
    pub alive: Option<bool>,
    /// Provider the proxy comes from (empty when none).
    pub provider_name: Option<String>,
}

/// A proxy provider as `GET /providers/proxies` reports it.
#[derive(Debug, Clone)]
pub struct ProviderInfo {
    pub name: String,
    pub provider_type: String,
    pub vehicle_type: Option<String>,
    pub proxies: Option<Vec<ProxyInfo>>,
    pub updated_at: Option<String>,
}

/// The most recent delay of a proxy: the last history entry, else 0.
pub open spec fn latest_delay_spec(p: ProxyInfo) -> u64 {
    match p.history {
        Some(h) => if h@.len() > 0 {
            h@.last().delay
        } else {
            0
        },
        None => 0,
    }
}

impl ProxyInfo {
    /// The most recent delay (0 when there is no history).
    pub fn latest_delay(&self) -> (d: u64)
        ensures
            d == latest_delay_spec(*self),
    {
        match &self.history {
            Some(h) => if h.len() > 0 {
                h[h.len() - 1].delay
            } else {
                0
            },
            None => 0,
        }
    }
}

/// `s` with every space replaced by `%20`.
pub open spec fn encode_spaces(s: Seq<char>) -> Seq<char>
    decreases s.len(),
{
    if s.len() == 0 {
        Seq::empty()
    } else {
        encode_spaces(s.drop_last()) + if s.last() == ' ' {
            seq!['%', '2', '0']
        } else {
            seq![s.last()]
        }
    }
}

/// Percent-encodes the spaces of a proxy name for use in a URL path.
pub fn urlencoding(s: &str) -> (res: String)
    ensures
        res@ == encode_spaces(s@),
{
    let cs = chars_of(s);
    let mut out = String::new();
    let mut i: usize = 0;
    while i < cs.len()
        invariant
            i <= cs.len(),
            out@ == encode_spaces(cs@.subrange(0, i as int)),
        decreases cs.len() - i,
    {
        proof {
            assert(cs@.subrange(0, i + 1).drop_last() =~= cs@.subrange(0, i as int));
        }
        if cs[i] == ' ' {
            push_char(&mut out, '%');
            push_char(&mut out, '2');
            push_char(&mut out, '0');
            assert(out@ =~= encode_spaces(cs@.subrange(0, i + 1)));
        } else {
            push_char(&mut out, cs[i]);
            assert(out@ =~= encode_spaces(cs@.subrange(0, i + 1)));
        }
        i = i + 1;
    }
    assert(cs@.subrange(0, cs.len() as int) =~= cs@);
    out
}

/// Encoding leaves no space behind and changes nothing else: its length
/// grows by two for every space.
pub proof fn law_encoding_has_no_spaces(s: Seq<char>)
    ensures
        forall|i: int| 0 <= i < encode_spaces(s).len() ==> #[trigger] encode_spaces(s)[i] != ' ',
    decreases s.len(),
{
    if s.len() > 0 {
        law_encoding_has_no_spaces(s.drop_last());
        let a = encode_spaces(s.drop_last());
        let t = encode_spaces(s);
        assert forall|i: int| 0 <= i < t.len() implies #[trigger] t[i] != ' ' by {
            if i < a.len() {
                assert(t[i] == a[i]);
            }
        }
    }
}

/// `http://127.0.0.1:<port>`, the controller base URL.
pub open spec fn base_url_spec(port: u16) -> Seq<char> {
    "http://127.0.0.1:"@ + decimal(port as nat)
}

/// Base URL of the Mihomo controller on the loopback address.
pub fn control_base_url(control_port: u16) -> (s: String)
    ensures
        s@ == base_url_spec(control_port),
{
    let mut s = String::from_str("http://127.0.0.1:");
    let d = decimal_string(control_port as u64);
    s.append(d.as_str());
    s
}

/// The `Authorization` header value for an API secret.
pub fn bearer_value(secret: &str) -> (s: String)
    ensures
        s@ == "Bearer "@ + secret@,
{
    let mut s = String::from_str("Bearer ");
    s.append(secret);
    s
}

/// The delay reported by a delay test: the reported value on a successful
/// response (0 when absent), 0 on a failed one (timeout / unreachable).
pub fn delay_from_response(success: bool, delay: Option<u64>) -> (d: u64)
    ensures
        d == (if success {
            match delay {
                Some(x) => x,
                None => 0,
            }
        } else {
            0
        }),
{
    if success {
        match delay {
            Some(x) => x,
            None => 0,
        }
    } else {
        0
    }
}

/// The first `n` characters of `text` (all of it when shorter).
pub fn preview_chars(text: &str, n: usize) -> (s: String)
    ensures
        s@ == text@.subrange(0, if text@.len() < n { text@.len() as int } else { n as int }),
{
    let cs = chars_of(text);
    let end: usize = if cs.len() < n {
        cs.len()
    } else {
        n
    };
    string_from_range(&cs, 0, end)
}

/// `k` is the position of the fastest measured node: its delay is positive,
/// no positive delay is smaller, and no earlier positive delay is equal.
pub open spec fn is_best(results: Seq<(String, u64)>, k: int) -> bool {
    &&& 0 <= k < results.len()
    &&& results[k].1 > 0
    &&& forall|j: int| 0 <= j < results.len() && results[j].1 > 0 ==> results[k].1 <= #[trigger] results[j].1
    &&& forall|j: int| 0 <= j < k && results[j].1 > 0 ==> results[k].1 < #[trigger] results[j].1
}

/// The lowest-latency node among test results; nodes with delay 0 timed out
/// and are skipped; of equal delays the earliest wins. `None` when every
/// node timed out.
pub fn best_delay(results: &Vec<(String, u64)>) -> (best: Option<(String, u64)>)
    ensures
        match best {
            Some((name, d)) => exists|k: int|
                is_best(results@, k) && name@ == results@[k].0@ && d == results@[k].1,
            None => forall|j: int| 0 <= j < results@.len() ==> #[trigger] results@[j].1 == 0,
        },
{
    let mut found: Option<usize> = None;
    let mut i: usize = 0;
    while i < results.len()
        invariant
            i <= results.len(),
            match found {
                Some(k) => is_best(results@.subrange(0, i as int), k as int),
                None => forall|j: int| 0 <= j < i ==> #[trigger] results@[j].1 == 0,
            },
        decreases results.len() - i,
    {
        let d = results[i].1;
        if d > 0 {
            match found {
                Some(k) => {
                    if d < results[k].1 {
                        found = Some(i);
                    }
                },
                None => {
                    found = Some(i);
                },
            }
        }
        proof {
            let pre = results@.subrange(0, i as int);
            let post = results@.subrange(0, i + 1);
            assert forall|j: int| 0 <= j < i implies pre[j] == #[trigger] post[j] by {}
            assert(post[i as int] == results@[i as int]);
        }
        i = i + 1;
    }
    assert(results@.subrange(0, results.len() as int) =~= results@);
    match found {
        Some(k) => Some((results[k].0.clone(), results[k].1)),
        None => None,
    }
}


/// The two forms in which a configuration reload is asked of Mihomo, in the
/// order they are tried: the configuration text itself, then its path.
#[derive(Debug, Clone, Copy, PartialEq, Eq, Structural)]
pub enum ReloadAttempt {
    /// `PUT /configs` with the configuration text as `payload`.
    Payload,
    /// `PUT /configs` with the configuration file's `path`.
    Path,
}

/// How Mihomo answered one reload attempt.
#[derive(Debug, Clone, Copy, PartialEq, Eq, Structural)]
pub enum ReloadReply {
    /// A success status.
    Accepted,
    /// A response with a failure status.
    Rejected,
    /// No response: the request could not be sent.
    Unreachable,
}

/// What follows a reload attempt.
#[derive(Debug, Clone, Copy, PartialEq, Eq, Structural)]
pub enum ReloadStep {
    /// The configuration was reloaded.
    Reloaded,
    /// Try the next form.
    Retry(ReloadAttempt),
    /// Give up: the API cannot be reached.
    Unreachable,
    /// Give up: both forms were rejected.
    Failed,
}

/// The form tried first.
pub fn first_reload_attempt() -> (a: ReloadAttempt)
    ensures
        a == ReloadAttempt::Payload,
{
    ReloadAttempt::Payload
}

/// The step after `attempt` got `reply`: done on acceptance, give up when
/// unreachable, retry with the path after a rejected payload, and fail after
/// a rejected path.
pub fn reload_step(attempt: ReloadAttempt, reply: ReloadReply) -> (step: ReloadStep)
    ensures
        step == (match reply {
            ReloadReply::Accepted => ReloadStep::Reloaded,
            ReloadReply::Unreachable => ReloadStep::Unreachable,
            ReloadReply::Rejected => match attempt {
                ReloadAttempt::Payload => ReloadStep::Retry(ReloadAttempt::Path),
                ReloadAttempt::Path => ReloadStep::Failed,
            },
        }),
{
    match reply {
        ReloadReply::Accepted => ReloadStep::Reloaded,
        ReloadReply::Unreachable => ReloadStep::Unreachable,
        ReloadReply::Rejected => match attempt {
            ReloadAttempt::Payload => ReloadStep::Retry(ReloadAttempt::Path),
            ReloadAttempt::Path => ReloadStep::Failed,
        },
    }
}

/// The error text when neither reload strategy worked: each attempt's HTTP
/// status and the first 200 characters of its response body.
pub fn reload_failure_message(status1: &str, body1: &str, status2: &str, body2: &str) -> (m: String)
    ensures
        m@ == "Reload config failed.\n  payload attempt: HTTP "@ + status1@ + " — "@
            + body1@.subrange(0, if body1@.len() < 200 { body1@.len() as int } else { 200 })
            + "\n  path attempt: HTTP "@ + status2@ + " — "@
            + body2@.subrange(0, if body2@.len() < 200 { body2@.len() as int } else { 200 }),
{
    let mut m = String::from_str("Reload config failed.\n  payload attempt: HTTP ");
    m.append(status1);
    m.append(" — ");
    m.append(preview_chars(body1, 200).as_str());
    m.append("\n  path attempt: HTTP ");
    m.append(status2);
    m.append(" — ");
    m.append(preview_chars(body2, 200).as_str());
    m
}

} // verus!
