//! The messaging gateway: inbound messages, per-user rate limiting, and the
//! routing of the brain's reply back to a channel.

use vstd::prelude::*;
use crate::json::{
    field_views, json_field, json_field_of, json_raw_object, json_raw_object_text, json_string, json_string_text,
    JsonField, JsonFieldView,
};
use crate::permissions::{lowercase_of, to_lowercase};
use crate::keyed::{keyed_map, lemma_keyed_map_domain, lemma_keyed_map_update, lemma_keyed_map_value, lemma_keyed_push_unique, unique_keys};
use crate::text::str_eq;

verus! {

/// A message received on some platform.
#[derive(Debug, Clone)]
pub struct IncomingMessage {
    pub platform: String,
    pub channel_id: String,
    pub user_id: String,
    pub text: String,
}

/// Messages a user may send per window.
pub const RATE_LIMIT_MAX: u64 = 10;

/// The rate-limit window, in nanoseconds (one minute).
pub const RATE_LIMIT_WINDOW_NANOS: u64 = 60_000_000_000;

/// A user's count of messages in the current window and when it started.
pub struct RateEntry {
    pub user: String,
    pub count: u64,
    pub window_start: u64,
}

pub open spec fn rate_key() -> spec_fn((Seq<char>, u64, u64)) -> Seq<char> {
    |e: (Seq<char>, u64, u64)| e.0
}

pub open spec fn rate_views(v: Seq<RateEntry>) -> Seq<(Seq<char>, u64, u64)> {
    Seq::new(v.len(), |i: int| (v[i].user@, v[i].count, v[i].window_start))
}

/// Time since `start`, as `Instant::elapsed` measures it (never negative).
pub open spec fn elapsed(start: u64, now: u64) -> int {
    if now >= start { now - start } else { 0 }
}

/// A user's entry after one more message at `now`: a new user, or one whose
/// window is over, starts a new window with this message; otherwise the count
/// goes up (it stops at the largest `u64`).
pub open spec fn next_entry(old: Option<(u64, u64)>, now: u64) -> (u64, u64) {
    match old {
        None => (1, now),
        Some((count, start)) => if elapsed(start, now) > RATE_LIMIT_WINDOW_NANOS {
            (1, now)
        } else {
            (if count < u64::MAX { (count + 1) as u64 } else { count }, start)
        },
    }
}

/// Counts each user's messages per one-minute window; a user may send ten.
pub struct RateLimiter {
    entries: Vec<RateEntry>,
}

impl RateLimiter {
    #[verifier::type_invariant]
    spec fn inv(self) -> bool {
        unique_keys(rate_views(self.entries@), rate_key())
    }

    /// Each user's (count, window start).
    pub closed spec fn view(&self) -> Map<Seq<char>, (u64, u64)> {
        let m = keyed_map(rate_views(self.entries@), rate_key());
        Map::new(|k: Seq<char>| m.contains_key(k), |k: Seq<char>| (m[k].1, m[k].2))
    }

    pub fn new() -> (r: Self)
        ensures
            r.view() == Map::<Seq<char>, (u64, u64)>::empty(),
    {
        let r = RateLimiter { entries: Vec::new() };
        assert(rate_views(r.entries@) =~= Seq::<(Seq<char>, u64, u64)>::empty());
        assert(r.view() =~= Map::<Seq<char>, (u64, u64)>::empty());
        r
    }

    /// Counts a message of `user` at time `now` (nanoseconds on a monotonic
    /// clock) and says whether it may pass: it may while the user's count in
    /// the window is at most ten.
    pub fn allow_message(&mut self, user: &str, now: u64) -> (allowed: bool)
        ensures
            ({
                let old_entry = if old(self).view().contains_key(user@) {
                    Some(old(self).view()[user@])
                } else {
                    None
                };
                let e = next_entry(old_entry, now);
                &&& final(self).view() == old(self).view().insert(user@, e)
                &&& allowed == (e.0 <= RATE_LIMIT_MAX)
            }),
    {
        proof {
            use_type_invariant(&*self);
        }
        let ghost before = rate_views(self.entries@);
        let mut j: usize = 0;
        let mut at: Option<usize> = None;
        while j < self.entries.len()
            invariant_except_break
                j <= self.entries@.len(),
                at is None,
                forall|k: int| 0 <= k < j ==> self.entries@[k].user@ != user@,
            ensures
                match at {
                    Some(p) => p < self.entries@.len() && self.entries@[p as int].user@ == user@,
                    None => forall|k: int| 0 <= k < self.entries@.len() ==> self.entries@[k].user@ != user@,
                },
            decreases self.entries@.len() - j,
        {
            if str_eq(self.entries[j].user.as_str(), user) {
                at = Some(j);
                break;
            }
            j = j + 1;
        }
        let mut entries = Vec::new();
        std::mem::swap(&mut entries, &mut self.entries);
        let count: u64;
        match at {
            Some(p) => {
                proof {
                    lemma_keyed_map_value(before, rate_key(), p as int);
                }
                let old_count = entries[p].count;
                let start = entries[p].window_start;
                let gone = if now >= start { now - start } else { 0 };
                let (c, s) = if gone > RATE_LIMIT_WINDOW_NANOS {
                    (1u64, now)
                } else {
                    (if old_count < u64::MAX { old_count + 1 } else { old_count }, start)
                };
                count = c;
                let ghost ev = (user@, c, s);
                proof {
                    lemma_keyed_map_update(before, rate_key(), p as int, ev);
                }
                entries.set(p, RateEntry { user: user.to_owned(), count: c, window_start: s });
                assert(rate_views(entries@) =~= before.update(p as int, ev));
            },
            None => {
                proof {
                    lemma_keyed_map_domain(before, rate_key(), user@);
                }
                count = 1;
                let ghost ev = (user@, 1u64, now);
                proof {
                    lemma_keyed_push_unique(before, rate_key(), ev);
                }
                entries.push(RateEntry { user: user.to_owned(), count: 1, window_start: now });
                assert(rate_views(entries@) =~= before.push(ev));
            },
        }
        self.entries = entries;
        assert(self.view() =~= old(self).view().insert(user@, next_entry(
            if old(self).view().contains_key(user@) { Some(old(self).view()[user@]) } else { None },
            now,
        )));
        count <= RATE_LIMIT_MAX
    }
}

/// The entry and the number of messages let through after a user, new to the
/// limiter, sent messages at the given times.
pub open spec fn run_allowed(times: Seq<u64>) -> ((u64, u64), nat)
    decreases times.len(),
{
    if times.len() == 0 {
        ((0, 0), 0)
    } else {
        let prev = run_allowed(times.drop_last());
        let old_entry = if times.len() == 1 { None } else { Some(prev.0) };
        let e = next_entry(old_entry, times.last());
        (e, prev.1 + if e.0 <= RATE_LIMIT_MAX { 1nat } else { 0nat })
    }
}

/// `n` as a count that stops at the largest `u64`.
pub open spec fn saturated(n: nat) -> u64 {
    if n < u64::MAX {
        n as u64
    } else {
        u64::MAX
    }
}

/// Within one window a user gets at most ten messages through: when every
/// message of a user new to the limiter comes within a minute of the first,
/// the first ten pass and the rest do not.
pub proof fn lemma_ten_per_window(times: Seq<u64>)
    requires
        0 < times.len(),
        forall|i: int| 0 <= i < times.len() ==> times[0] <= #[trigger] times[i] && times[i] - times[0]
            <= RATE_LIMIT_WINDOW_NANOS,
    ensures
        run_allowed(times).0 == (saturated(times.len()), times[0]),
        run_allowed(times).1 == if times.len() <= RATE_LIMIT_MAX { times.len() } else { RATE_LIMIT_MAX as nat },
    decreases times.len(),
{
    if times.len() > 1 {
        let front = times.drop_last();
        assert forall|i: int| 0 <= i < front.len() implies front[0] <= #[trigger] front[i] && front[i] - front[0]
            <= RATE_LIMIT_WINDOW_NANOS by {
            assert(front[i] == times[i]);
        }
        lemma_ten_per_window(front);
        assert(front[0] == times[0]);
        let last = times[times.len() - 1];
        assert(times[0] <= last && last - times[0] <= RATE_LIMIT_WINDOW_NANOS);
        assert(elapsed(times[0], last) <= RATE_LIMIT_WINDOW_NANOS);
        assert(times.last() == last);
        let prev = run_allowed(front);
        let e = next_entry(Some(prev.0), last);
        assert(prev.0.0 == saturated(front.len()));
        assert(e.0 == saturated(times.len()));
        assert(run_allowed(times).1 == prev.1 + if e.0 <= RATE_LIMIT_MAX { 1nat } else { 0nat });
    } else {
        assert(run_allowed(times.drop_last()) == ((0u64, 0u64), 0nat));
    }
}

/// Once a user's window is over, the next message starts a new window with a
/// count of one, and it passes.
pub proof fn lemma_window_restarts(times: Seq<u64>, t: u64)
    requires
        0 < times.len(),
        elapsed(run_allowed(times).0.1, t) > RATE_LIMIT_WINDOW_NANOS,
    ensures
        run_allowed(times.push(t)).0 == (1u64, t),
        run_allowed(times.push(t)).1 == run_allowed(times).1 + 1,
{
    assert(times.push(t).drop_last() =~= times);
}

// ───────────────────────── replies ─────────────────────────

/// Where a reply goes and what it says.
#[derive(Debug)]
pub struct Reply {
    pub platform: String,
    pub channel_id: String,
    pub text: String,
}

/// A string field of a JSON document, or `default`.
pub open spec fn str_or(doc: Seq<char>, key: Seq<char>, default: Seq<char>) -> Seq<char> {
    match json_field_of(doc, key) {
        JsonFieldView::Present(v) => match v.as_str {
            Some(s) => s,
            None => default,
        },
        _ => default,
    }
}

/// The reply to send for the brain's output to a message: when the output is a
/// JSON object with `metadata`, to the platform and channel that the metadata
/// names (those of the message where it names none), with the `response` text
/// (the whole output where there is none); no reply otherwise.
pub open spec fn reply_route(output: Seq<char>, platform: Seq<char>, channel: Seq<char>) -> Option<
    (Seq<char>, Seq<char>, Seq<char>),
> {
    match json_field_of(output, "metadata"@) {
        JsonFieldView::Present(meta) => Some(
            (
                str_or(meta.text, "platform"@, platform),
                str_or(meta.text, "channel_id"@, channel),
                str_or(output, "response"@, output),
            ),
        ),
        _ => None,
    }
}

fn str_field_or(doc: &str, key: &str, default: &str) -> (r: String)
    ensures
        r@ == str_or(doc@, key@, default@),
{
    match json_field(doc, key) {
        JsonField::Present(v) => match v.as_str {
            Some(s) => s,
            None => default.to_owned(),
        },
        _ => default.to_owned(),
    }
}

/// The reply to an inbound message, from the brain's successful output.
pub fn route_reply(output: &str, msg: &IncomingMessage) -> (r: Option<Reply>)
    ensures
        match reply_route(output@, msg.platform@, msg.channel_id@) {
            Some((p, c, t)) => r matches Some(rep) && rep.platform@ == p && rep.channel_id@ == c && rep.text@ == t,
            None => r is None,
        },
{
    match json_field(output, "metadata") {
        JsonField::Present(meta) => {
            let platform = str_field_or(meta.text.as_str(), "platform", msg.platform.as_str());
            let channel_id = str_field_or(meta.text.as_str(), "channel_id", msg.channel_id.as_str());
            let text = str_field_or(output, "response", output);
            Some(Reply { platform, channel_id, text })
        },
        _ => None,
    }
}

/// The request sent to the brain for an inbound message: its text as the
/// prompt, with memory, without streaming, and the message's platform,
/// channel and user as metadata for the reply's way back.
pub open spec fn think_request(msg: IncomingMessage) -> Option<Seq<char>> {
    match json_raw_object_text(
        seq![
            ("platform"@, json_string_text(msg.platform@)),
            ("channel_id"@, json_string_text(msg.channel_id@)),
            ("user_id"@, json_string_text(msg.user_id@)),
        ],
    ) {
        Some(meta) => json_raw_object_text(
            seq![
                ("prompt"@, json_string_text(msg.text@)),
                ("include_memory"@, "true"@),
                ("stream"@, "false"@),
                ("metadata"@, meta),
            ],
        ),
        None => None,
    }
}

/// The JSON request sent to the brain for an inbound message.
pub fn think_request_payload(msg: &IncomingMessage) -> (r: Option<String>)
    ensures
        opt_string_view(r) == think_request(*msg),
{
    let mut meta: Vec<(String, String)> = Vec::new();
    meta.push(("platform".to_owned(), json_string(msg.platform.as_str())));
    meta.push(("channel_id".to_owned(), json_string(msg.channel_id.as_str())));
    meta.push(("user_id".to_owned(), json_string(msg.user_id.as_str())));
    assert(field_views(meta@) =~= seq![
        ("platform"@, json_string_text(msg.platform@)),
        ("channel_id"@, json_string_text(msg.channel_id@)),
        ("user_id"@, json_string_text(msg.user_id@)),
    ]);
    let m = match json_raw_object(&meta) {
        Some(m) => m,
        None => {
            return None;
        },
    };
    let mut fields: Vec<(String, String)> = Vec::new();
    fields.push(("prompt".to_owned(), json_string(msg.text.as_str())));
    fields.push(("include_memory".to_owned(), "true".to_owned()));
    fields.push(("stream".to_owned(), "false".to_owned()));
    fields.push(("metadata".to_owned(), m));
    assert(field_views(fields@) =~= seq![
        ("prompt"@, json_string_text(msg.text@)),
        ("include_memory"@, "true"@),
        ("stream"@, "false"@),
        ("metadata"@, fields@[3].1@),
    ]);
    json_raw_object(&fields)
}

pub open spec fn opt_string_view(r: Option<String>) -> Option<Seq<char>> {
    match r {
        Some(s) => Some(s@),
        None => None,
    }
}

/// The first adapter whose name, lowercased, is the platform's, lowercased.
pub open spec fn adapter_for(names: Seq<Seq<char>>, platform: Seq<char>) -> Option<int>
    decreases names.len(),
{
    if names.len() == 0 {
        None
    } else if lowercase_of(names[0]) == lowercase_of(platform) {
        Some(0)
    } else {
        match adapter_for(names.drop_first(), platform) {
            Some(i) => Some(i + 1),
            None => None,
        }
    }
}

/// Which of the adapters, by their names, a reply to `platform` goes to.
pub fn adapter_index(names: &Vec<String>, platform: &str) -> (r: Option<usize>)
    ensures
        match r {
            Some(i) => adapter_for(crate::text::strings_view(names@), platform@) == Some(i as int),
            None => adapter_for(crate::text::strings_view(names@), platform@) is None,
        },
{
    let target = to_lowercase(platform);
    let ghost all = crate::text::strings_view(names@);
    let mut k: usize = 0;
    assert(all.subrange(0, all.len() as int) =~= all);
    assert(adapter_for(all, platform@) == match adapter_for(all, platform@) {
        Some(i) => Some(i + 0),
        None => None,
    });
    while k < names.len()
        invariant
            k <= names@.len(),
            all == crate::text::strings_view(names@),
            target@ == lowercase_of(platform@),
            adapter_for(all, platform@) == match adapter_for(all.subrange(k as int, all.len() as int), platform@) {
                Some(i) => Some(i + k),
                None => None,
            },
        decreases names@.len() - k,
    {
        let ghost rest = all.subrange(k as int, all.len() as int);
        assert(rest[0] == names@[k as int]@);
        let name = to_lowercase(names[k].as_str());
        if str_eq(name.as_str(), target.as_str()) {
            return Some(k);
        }
        assert(rest.drop_first() =~= all.subrange(k + 1, all.len() as int));
        k = k + 1;
    }
    assert(all.subrange(k as int, all.len() as int) =~= Seq::<Seq<char>>::empty());
    None
}

} // verus!
