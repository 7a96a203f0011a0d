//! Websocket sessions: the connections that are kept for reuse, what is known of
//! the last exchange on each of them, and counters.
use vstd::prelude::*;
use crate::dict::Dict;
use crate::json;
use crate::json::{clone_items, clone_json, same_items, same_json, Json, JsonView};
use crate::views;
use crate::views::clone_opt_text;

verus! {

broadcast use crate::views::group_views;

/// How old a connection may be when it is used again, unless the caller says.
pub const DEFAULT_MAX_AGE_MS: u64 = 3300000;

/// How long an idle connection is kept, unless the caller says.
pub const DEFAULT_CACHE_TTL_MS: u64 = 300000;

/// How long to wait for a connection, unless the caller says.
pub const DEFAULT_CONNECT_TIMEOUT_MS: u64 = 15000;

/// The last exchange on a connection: what was asked, and what came back.
pub struct ContinuationState {
    pub last_request_body: Json,
    pub last_response_id: String,
    pub last_response_items: Vec<Json>,
}

#[verifier::ext_equal]
pub struct ContinuationView {
    pub last_request_body: JsonView,
    pub last_response_id: Seq<char>,
    pub last_response_items: Seq<JsonView>,
}

impl View for ContinuationState {
    type V = ContinuationView;

    open spec fn view(&self) -> ContinuationView {
        ContinuationView {
            last_request_body: self.last_request_body@,
            last_response_id: self.last_response_id@,
            last_response_items: views::all(self.last_response_items@),
        }
    }
}

/// A connection that is kept. `id` names it; its socket is home while no request
/// uses it.
pub struct CachedEntry {
    pub id: u64,
    pub socket_home: bool,
    pub created_at_ms: u64,
    pub continuation: Option<ContinuationState>,
}

#[verifier::ext_equal]
pub struct EntryView {
    pub id: u64,
    pub socket_home: bool,
    pub created_at_ms: u64,
    pub continuation: Option<ContinuationView>,
}

impl View for CachedEntry {
    type V = EntryView;

    open spec fn view(&self) -> EntryView {
        EntryView {
            id: self.id,
            socket_home: self.socket_home,
            created_at_ms: self.created_at_ms,
            continuation: views::opt(self.continuation),
        }
    }
}

/// Counters of one session.
pub struct CodexWsDebugStats {
    pub requests: u64,
    pub connections_created: u64,
    pub connections_reused: u64,
    pub cached_context_requests: u64,
    pub store_true_requests: u64,
    pub full_context_requests: u64,
    pub delta_requests: u64,
    pub last_input_items: u64,
    pub last_delta_input_items: Option<u64>,
    pub last_previous_response_id: Option<String>,
    pub websocket_failures: u64,
    pub sse_fallbacks: u64,
    pub websocket_fallback_active: Option<bool>,
    pub last_websocket_error: Option<String>,
}

#[verifier::ext_equal]
pub struct StatsView {
    pub requests: u64,
    pub connections_created: u64,
    pub connections_reused: u64,
    pub cached_context_requests: u64,
    pub store_true_requests: u64,
    pub full_context_requests: u64,
    pub delta_requests: u64,
    pub last_input_items: u64,
    pub last_delta_input_items: Option<u64>,
    pub last_previous_response_id: Option<Seq<char>>,
    pub websocket_failures: u64,
    pub sse_fallbacks: u64,
    pub websocket_fallback_active: Option<bool>,
    pub last_websocket_error: Option<Seq<char>>,
}

impl View for CodexWsDebugStats {
    type V = StatsView;

    open spec fn view(&self) -> StatsView {
        StatsView {
            requests: self.requests,
            connections_created: self.connections_created,
            connections_reused: self.connections_reused,
            cached_context_requests: self.cached_context_requests,
            store_true_requests: self.store_true_requests,
            full_context_requests: self.full_context_requests,
            delta_requests: self.delta_requests,
            last_input_items: self.last_input_items,
            last_delta_input_items: self.last_delta_input_items,
            last_previous_response_id: views::opt(self.last_previous_response_id),
            websocket_failures: self.websocket_failures,
            sse_fallbacks: self.sse_fallbacks,
            websocket_fallback_active: self.websocket_fallback_active,
            last_websocket_error: views::opt(self.last_websocket_error),
        }
    }
}

/// The counters of a session that nothing happened in.
pub open spec fn no_stats() -> StatsView {
    StatsView {
        requests: 0,
        connections_created: 0,
        connections_reused: 0,
        cached_context_requests: 0,
        store_true_requests: 0,
        full_context_requests: 0,
        delta_requests: 0,
        last_input_items: 0,
        last_delta_input_items: None,
        last_previous_response_id: None,
        websocket_failures: 0,
        sse_fallbacks: 0,
        websocket_fallback_active: None,
        last_websocket_error: None,
    }
}

impl Default for CodexWsDebugStats {
    fn default() -> (r: CodexWsDebugStats)
        ensures
            r@ == no_stats(),
    {
        CodexWsDebugStats {
            requests: 0,
            connections_created: 0,
            connections_reused: 0,
            cached_context_requests: 0,
            store_true_requests: 0,
            full_context_requests: 0,
            delta_requests: 0,
            last_input_items: 0,
            last_delta_input_items: None,
            last_previous_response_id: None,
            websocket_failures: 0,
            sse_fallbacks: 0,
            websocket_fallback_active: None,
            last_websocket_error: None,
        }
    }
}

impl Clone for CodexWsDebugStats {
    fn clone(&self) -> (r: CodexWsDebugStats)
        ensures
            r@ == self@,
    {
        CodexWsDebugStats {
            requests: self.requests,
            connections_created: self.connections_created,
            connections_reused: self.connections_reused,
            cached_context_requests: self.cached_context_requests,
            store_true_requests: self.store_true_requests,
            full_context_requests: self.full_context_requests,
            delta_requests: self.delta_requests,
            last_input_items: self.last_input_items,
            last_delta_input_items: self.last_delta_input_items,
            last_previous_response_id: clone_opt_text(&self.last_previous_response_id),
            websocket_failures: self.websocket_failures,
            sse_fallbacks: self.sse_fallbacks,
            websocket_fallback_active: self.websocket_fallback_active,
            last_websocket_error: clone_opt_text(&self.last_websocket_error),
        }
    }
}

/// A counter one higher; the highest stays.
pub open spec fn counted(n: u64) -> u64 {
    if n < u64::MAX {
        (n + 1) as u64
    } else {
        n
    }
}

fn count(n: u64) -> (r: u64)
    ensures
        r == counted(n),
{
    if n < u64::MAX {
        n + 1
    } else {
        n
    }
}

/// All sessions.
pub struct CodexSessions {
    stats: Dict<CodexWsDebugStats>,
    fallbacks: Dict<bool>,
    cache: Dict<Dict<CachedEntry>>,
}

/// What is known of all sessions: counters and given-up websockets by session,
/// connections by session and account.
#[verifier::ext_equal]
pub struct SessionsView {
    pub stats: Map<Seq<char>, StatsView>,
    pub fallbacks: Set<Seq<char>>,
    pub entries: Map<(Seq<char>, Seq<char>), EntryView>,
}

spec fn flat(cache: Map<Seq<char>, Dict<CachedEntry>>) -> Map<(Seq<char>, Seq<char>), EntryView> {
    Map::new(
        |k: (Seq<char>, Seq<char>)| cache.contains_key(k.0) && cache[k.0]@.contains_key(k.1),
        |k: (Seq<char>, Seq<char>)| cache[k.0]@[k.1]@,
    )
}

impl View for CodexSessions {
    type V = SessionsView;

    closed spec fn view(&self) -> SessionsView {
        SessionsView {
            stats: self.stats@.map_values(|s: CodexWsDebugStats| s@),
            fallbacks: self.fallbacks@.dom(),
            entries: flat(self.cache@),
        }
    }
}

/// The counters of a session.
pub open spec fn stats_of(v: SessionsView, session: Seq<char>) -> StatsView {
    if v.stats.contains_key(session) {
        v.stats[session]
    } else {
        no_stats()
    }
}

/// All sessions with the counters of one of them replaced.
pub open spec fn with_stats(v: SessionsView, session: Seq<char>, stats: StatsView) -> SessionsView {
    SessionsView { stats: v.stats.insert(session, stats), ..v }
}

impl CodexSessions {
    /// No sessions.
    pub fn new() -> (r: CodexSessions)
        ensures
            r@ == (SessionsView { stats: Map::empty(), fallbacks: Set::empty(), entries: Map::empty() }),
    {
        let r = CodexSessions { stats: Dict::new(), fallbacks: Dict::new(), cache: Dict::new() };
        assert(r@.stats =~= Map::empty());
        assert(r@.fallbacks =~= Set::empty());
        assert(r@.entries =~= Map::empty());
        r
    }

    fn stats_copy(&self, session: &str) -> (r: CodexWsDebugStats)
        ensures
            r@ == stats_of(self@, session@),
    {
        match self.stats.get(session) {
            Some(s) => s.clone(),
            None => CodexWsDebugStats::default(),
        }
    }

    fn put_stats(&mut self, session: &str, stats: CodexWsDebugStats)
        ensures
            final(self)@ == with_stats(old(self)@, session@, stats@),
    {
        let ghost before = self@;
        self.stats.insert(session, stats);
        assert(self@.stats =~= before.stats.insert(session@, stats@));
    }

    fn take_entry(&mut self, session: &str, account: &str) -> (r: Option<CachedEntry>)
        ensures
            final(self)@ == (SessionsView {
                entries: old(self)@.entries.remove((session@, account@)),
                ..old(self)@
            }),
            match r {
                Some(e) => old(self)@.entries.contains_key((session@, account@)) && e@
                    == old(self)@.entries[(session@, account@)],
                None => !old(self)@.entries.contains_key((session@, account@)),
            },
    {
        let ghost before = self.cache@;
        match self.cache.remove(session) {
            Some(inner) => {
                let ghost whole = inner@;
                let mut rest: Dict<CachedEntry> = inner;
                let taken: Option<CachedEntry> = rest.remove(account);
                let n: usize = rest.len();
                let ghost left = rest@;
                if n > 0 {
                    self.cache.insert(session, rest);
                } else {
                    assert(left.dom() =~= Set::empty());
                }
                proof {
                    let want = flat(before).remove((session@, account@));
                    let got = flat(self.cache@);
                    assert(left == whole.remove(account@));
                    assert forall|k: (Seq<char>, Seq<char>)|
                        got.contains_key(k) == want.contains_key(k) by {
                        if k.0 == session@ {
                            assert(k == (session@, k.1));
                            assert(before[session@]@ == whole);
                            assert(flat(before).contains_key(k) == whole.contains_key(k.1));
                            assert(left.contains_key(k.1) == left.dom().contains(k.1));
                            if n > 0 {
                                assert(self.cache@[session@]@ == left);
                                assert(got.contains_key(k) == left.contains_key(k.1));
                            } else {
                                assert(!left.contains_key(k.1));
                                assert(!got.contains_key(k));
                            }
                        } else {
                            assert(self.cache@.contains_key(k.0) == before.contains_key(k.0));
                            assert(got.contains_key(k) == flat(before).contains_key(k));
                        }
                    }
                    assert(got =~= want);
                }
                taken
            },
            None => {
                assert(flat(self.cache@) =~= flat(before).remove((session@, account@)));
                None
            },
        }
    }

    fn put_entry(&mut self, session: &str, account: &str, entry: CachedEntry)
        ensures
            final(self)@ == (SessionsView {
                entries: old(self)@.entries.insert((session@, account@), entry@),
                ..old(self)@
            }),
    {
        let ghost before = self.cache@;
        let mut inner: Dict<CachedEntry> = match self.cache.remove(session) {
            Some(d) => d,
            None => Dict::new(),
        };
        inner.insert(account, entry);
        self.cache.insert(session, inner);
        assert(flat(self.cache@) =~= flat(before).insert((session@, account@), entry@));
    }

    fn entry<'a>(&'a self, session: &str, account: &str) -> (r: Option<&'a CachedEntry>)
        ensures
            match r {
                Some(e) => self@.entries.contains_key((session@, account@)) && e@
                    == self@.entries[(session@, account@)],
                None => !self@.entries.contains_key((session@, account@)),
            },
    {
        match self.cache.get(session) {
            Some(inner) => inner.get(account),
            None => None,
        }
    }
}

/// Whether websockets were given up for a session.
pub fn is_sse_fallback_active(sessions: &CodexSessions, session: Option<&str>) -> (r: bool)
    ensures
        r == (session is Some && sessions@.fallbacks.contains(session->0@)),
{
    match session {
        Some(sid) => sessions.fallbacks.contains_key(sid),
        None => false,
    }
}

/// The counters of a session, if anything happened in it, together with whether
/// websockets were given up for it.
pub fn get_codex_ws_debug_stats(sessions: &CodexSessions, session: &str) -> (r: Option<
    CodexWsDebugStats,
>)
    ensures
        views::opt(r) == (if sessions@.stats.contains_key(session@) {
            Some(
                StatsView {
                    websocket_fallback_active: Some(sessions@.fallbacks.contains(session@)),
                    ..sessions@.stats[session@]
                },
            )
        } else {
            None
        }),
{
    match sessions.stats.get(session) {
        Some(s) => {
            let mut out: CodexWsDebugStats = s.clone();
            out.websocket_fallback_active = Some(is_sse_fallback_active(sessions, Some(session)));
            Some(out)
        },
        None => None,
    }
}

/// Forgets the counters of a session, or of all, and that websockets were given
/// up.
pub fn reset_codex_ws_debug_stats(sessions: &mut CodexSessions, session: Option<&str>)
    ensures
        final(sessions)@ == (match session {
            Some(sid) => SessionsView {
                stats: old(sessions)@.stats.remove(sid@),
                fallbacks: old(sessions)@.fallbacks.remove(sid@),
                ..old(sessions)@
            },
            None => SessionsView {
                stats: Map::empty(),
                fallbacks: Set::empty(),
                ..old(sessions)@
            },
        }),
{
    let ghost before = sessions@;
    match session {
        Some(sid) => {
            let _ = sessions.stats.remove(sid);
            let _ = sessions.fallbacks.remove(sid);
            assert(sessions@.stats =~= before.stats.remove(sid@));
            assert(sessions@.fallbacks =~= before.fallbacks.remove(sid@));
        },
        None => {
            sessions.stats.clear();
            sessions.fallbacks.clear();
            assert(sessions@.stats =~= Map::empty());
            assert(sessions@.fallbacks =~= Set::empty());
        },
    }
}

/// Forgets the connections of a session, or all of them.
pub fn close_codex_ws_sessions(sessions: &mut CodexSessions, session: Option<&str>)
    ensures
        final(sessions)@.stats == old(sessions)@.stats,
        final(sessions)@.fallbacks == old(sessions)@.fallbacks,
        forall|s: Seq<char>, a: Seq<char>| #[trigger]
            final(sessions)@.entries.contains_key((s, a)) <==> old(sessions)@.entries.contains_key(
                (s, a),
            ) && (session matches Some(sid) && s != sid@),
        forall|s: Seq<char>, a: Seq<char>|
            final(sessions)@.entries.contains_key((s, a)) ==> #[trigger] final(sessions)@.entries[(s, a)] == old(sessions)@.entries[(s, a)],
{
    match session {
        Some(sid) => {
            let _ = sessions.cache.remove(sid);
        },
        None => {
            sessions.cache.clear();
        },
    }
}

/// Counts a request that went out by server-sent events instead.
pub fn record_sse_fallback(sessions: &mut CodexSessions, session: Option<&str>)
    ensures
        final(sessions)@ == (match session {
            Some(sid) => with_stats(
                old(sessions)@,
                sid@,
                StatsView {
                    sse_fallbacks: counted(stats_of(old(sessions)@, sid@).sse_fallbacks),
                    websocket_fallback_active: Some(true),
                    ..stats_of(old(sessions)@, sid@)
                },
            ),
            None => old(sessions)@,
        }),
{
    if let Some(sid) = session {
        let mut s: CodexWsDebugStats = sessions.stats_copy(sid);
        s.sse_fallbacks = count(s.sse_fallbacks);
        s.websocket_fallback_active = Some(true);
        sessions.put_stats(sid, s);
    }
}

/// Gives websockets up for a session.
pub fn record_websocket_failure(sessions: &mut CodexSessions, session: Option<&str>, error: &str)
    ensures
        final(sessions)@ == (match session {
            Some(sid) => SessionsView {
                fallbacks: old(sessions)@.fallbacks.insert(sid@),
                ..with_stats(
                    old(sessions)@,
                    sid@,
                    StatsView {
                        websocket_failures: counted(
                            stats_of(old(sessions)@, sid@).websocket_failures,
                        ),
                        last_websocket_error: Some(error@),
                        websocket_fallback_active: Some(true),
                        ..stats_of(old(sessions)@, sid@)
                    },
                )
            },
            None => old(sessions)@,
        }),
{
    if let Some(sid) = session {
        let ghost before = sessions@;
        let mut s: CodexWsDebugStats = sessions.stats_copy(sid);
        s.websocket_failures = count(s.websocket_failures);
        s.last_websocket_error = Some(error.to_owned());
        s.websocket_fallback_active = Some(true);
        sessions.fallbacks.insert(sid, true);
        assert(sessions@.fallbacks =~= before.fallbacks.insert(sid@));
        sessions.put_stats(sid, s);
    }
}

/// The counters behind one more request with this body.
pub open spec fn request_counted(
    s: StatsView,
    body: JsonView,
    reused: bool,
    use_cached_context: bool,
) -> StatsView {
    let input_len = match body.field_items("input"@) {
        Some(items) => items.len() as u64,
        None => 0u64,
    };
    let previous = body.field_text("previous_response_id"@);
    StatsView {
        requests: counted(s.requests),
        connections_reused: if reused {
            counted(s.connections_reused)
        } else {
            s.connections_reused
        },
        connections_created: if reused {
            s.connections_created
        } else {
            counted(s.connections_created)
        },
        cached_context_requests: if use_cached_context {
            counted(s.cached_context_requests)
        } else {
            s.cached_context_requests
        },
        store_true_requests: if body.field_boolean("store"@) == Some(true) {
            counted(s.store_true_requests)
        } else {
            s.store_true_requests
        },
        last_input_items: input_len,
        delta_requests: if previous is Some {
            counted(s.delta_requests)
        } else {
            s.delta_requests
        },
        full_context_requests: if previous is Some {
            s.full_context_requests
        } else {
            counted(s.full_context_requests)
        },
        last_delta_input_items: if previous is Some {
            Some(input_len)
        } else {
            None
        },
        last_previous_response_id: previous,
        ..s
    }
}

/// Counts a request.
pub fn record_request(
    sessions: &mut CodexSessions,
    session: Option<&str>,
    body: &Json,
    reused: bool,
    use_cached_context: bool,
)
    ensures
        final(sessions)@ == (match session {
            Some(sid) => with_stats(
                old(sessions)@,
                sid@,
                request_counted(
                    stats_of(old(sessions)@, sid@),
                    body@,
                    reused,
                    use_cached_context,
                ),
            ),
            None => old(sessions)@,
        }),
{
    if let Some(sid) = session {
        let mut s: CodexWsDebugStats = sessions.stats_copy(sid);
        s.requests = count(s.requests);
        if reused {
            s.connections_reused = count(s.connections_reused);
        } else {
            s.connections_created = count(s.connections_created);
        }
        if use_cached_context {
            s.cached_context_requests = count(s.cached_context_requests);
        }
        if let Some(true) = body.field_bool("store") {
            s.store_true_requests = count(s.store_true_requests);
        }
        let input_len: u64 = match body.field_array("input") {
            Some(items) => items.len() as u64,
            None => 0,
        };
        s.last_input_items = input_len;
        match body.field_str("previous_response_id") {
            Some(id) => {
                s.delta_requests = count(s.delta_requests);
                s.last_delta_input_items = Some(input_len);
                s.last_previous_response_id = Some(id.to_owned());
            },
            None => {
                s.full_context_requests = count(s.full_context_requests);
                s.last_delta_input_items = None;
                s.last_previous_response_id = None;
            },
        }
        sessions.put_stats(sid, s);
    }
}

/// How a request gets its connection.
#[derive(Debug, Clone, Copy, PartialEq, Eq, Structural)]
pub enum CacheDecision {
    /// On the kept connection with this id.
    Reuse(u64),
    /// On a new connection that is not kept: there is no session, or its
    /// connection is in use.
    OneShot,
    /// On a new connection that is kept.
    Fresh,
}

/// Whether a connection is too old to be used again.
pub open spec fn is_expired(entry: EntryView, now_ms: u64, max_age_ms: u64) -> bool {
    now_ms - entry.created_at_ms >= max_age_ms
}

/// How a request gets its connection.
pub open spec fn decision(
    v: SessionsView,
    session: Option<Seq<char>>,
    account: Seq<char>,
    now_ms: u64,
    max_age_ms: u64,
) -> CacheDecision {
    match session {
        None => CacheDecision::OneShot,
        Some(sid) => if v.entries.contains_key((sid, account)) {
            let e = v.entries[(sid, account)];
            if is_expired(e, now_ms, max_age_ms) {
                CacheDecision::Fresh
            } else if e.socket_home {
                CacheDecision::Reuse(e.id)
            } else {
                CacheDecision::OneShot
            }
        } else {
            CacheDecision::Fresh
        },
    }
}

/// The connections behind that decision: one that is used again leaves home, one
/// that is too old is forgotten.
pub open spec fn after_decision(
    v: SessionsView,
    session: Option<Seq<char>>,
    account: Seq<char>,
    now_ms: u64,
    max_age_ms: u64,
) -> SessionsView {
    match session {
        None => v,
        Some(sid) => match decision(v, session, account, now_ms, max_age_ms) {
            CacheDecision::Reuse(_) => SessionsView {
                entries: v.entries.insert(
                    (sid, account),
                    EntryView { socket_home: false, ..v.entries[(sid, account)] },
                ),
                ..v
            },
            CacheDecision::OneShot => v,
            CacheDecision::Fresh => SessionsView { entries: v.entries.remove((sid, account)), ..v },
        },
    }
}

/// Decides how a request gets its connection.
pub fn acquire(
    sessions: &mut CodexSessions,
    session: Option<&str>,
    account: &str,
    now_ms: u64,
    max_age_ms: Option<u64>,
) -> (r: CacheDecision)
    ensures
        ({
            let max = views::or(max_age_ms, DEFAULT_MAX_AGE_MS);
            let sid = views::opt(session);
            &&& r == decision(old(sessions)@, sid, account@, now_ms, max)
            &&& final(sessions)@ == after_decision(old(sessions)@, sid, account@, now_ms, max)
        }),
{
    let max: u64 = match max_age_ms {
        Some(m) => m,
        None => DEFAULT_MAX_AGE_MS,
    };
    match session {
        None => CacheDecision::OneShot,
        Some(sid) => {
            let ghost before = sessions@;
            match sessions.take_entry(sid, account) {
                None => {
                    assert(before.entries.remove((sid@, account@)) =~= before.entries);
                    CacheDecision::Fresh
                },
                Some(mut e) => {
                    let expired: bool = now_ms as i128 - e.created_at_ms as i128 >= max as i128;
                    if expired {
                        CacheDecision::Fresh
                    } else if e.socket_home {
                        let id: u64 = e.id;
                        e.socket_home = false;
                        let ghost moved = e@;
                        sessions.put_entry(sid, account, e);
                        assert(sessions@.entries =~= before.entries.insert(
                            (sid@, account@),
                            moved,
                        ));
                        CacheDecision::Reuse(id)
                    } else {
                        sessions.put_entry(sid, account, e);
                        assert(sessions@.entries =~= before.entries);
                        CacheDecision::OneShot
                    }
                },
            }
        },
    }
}

/// Keeps a new connection, which a request uses from the start.
pub fn register(
    sessions: &mut CodexSessions,
    session: &str,
    account: &str,
    id: u64,
    now_ms: u64,
)
    ensures
        final(sessions)@ == (SessionsView {
            entries: old(sessions)@.entries.insert(
                (session@, account@),
                EntryView { id, socket_home: false, created_at_ms: now_ms, continuation: None },
            ),
            ..old(sessions)@
        }),
{
    let entry = CachedEntry { id, socket_home: false, created_at_ms: now_ms, continuation: None };
    sessions.put_entry(session, account, entry);
}

/// Whether the connection of a session and an account is the one with this id.
pub open spec fn is_current(v: SessionsView, key: (Seq<char>, Seq<char>), id: u64) -> bool {
    v.entries.contains_key(key) && v.entries[key].id == id
}

/// Forgets a connection, unless another took its place.
pub fn retire_entry(sessions: &mut CodexSessions, session: &str, account: &str, id: u64)
    ensures
        final(sessions)@ == (if is_current(old(sessions)@, (session@, account@), id) {
            SessionsView {
                entries: old(sessions)@.entries.remove((session@, account@)),
                ..old(sessions)@
            }
        } else {
            old(sessions)@
        }),
{
    let current: bool = match sessions.entry(session, account) {
        Some(e) => e.id == id,
        None => false,
    };
    if current {
        let _ = sessions.take_entry(session, account);
    }
}

/// Takes the socket of a connection home, unless another connection took its
/// place. Says whether it is kept.
pub fn release_keep(sessions: &mut CodexSessions, session: &str, account: &str, id: u64) -> (r: bool)
    ensures
        r == is_current(old(sessions)@, (session@, account@), id),
        final(sessions)@ == (if is_current(old(sessions)@, (session@, account@), id) {
            SessionsView {
                entries: old(sessions)@.entries.insert(
                    (session@, account@),
                    EntryView {
                        socket_home: true,
                        ..old(sessions)@.entries[(session@, account@)]
                    },
                ),
                ..old(sessions)@
            }
        } else {
            old(sessions)@
        }),
{
    let ghost before = sessions@;
    let current: bool = match sessions.entry(session, account) {
        Some(e) => e.id == id,
        None => false,
    };
    if current {
        if let Some(mut e) = sessions.take_entry(session, account) {
            e.socket_home = true;
            let ghost home = e@;
            sessions.put_entry(session, account, e);
            assert(sessions@.entries =~= before.entries.insert((session@, account@), home));
        }
    }
    current
}

/// Forgets a connection that was idle for too long: its socket is home.
pub fn expire_idle(sessions: &mut CodexSessions, session: &str, account: &str, id: u64)
    ensures
        final(sessions)@ == (if is_current(old(sessions)@, (session@, account@), id)
            && old(sessions)@.entries[(session@, account@)].socket_home {
            SessionsView {
                entries: old(sessions)@.entries.remove((session@, account@)),
                ..old(sessions)@
            }
        } else {
            old(sessions)@
        }),
{
    let idle: bool = match sessions.entry(session, account) {
        Some(e) => e.id == id && e.socket_home,
        None => false,
    };
    if idle {
        let _ = sessions.take_entry(session, account);
    }
}

/// Notes or forgets the last exchange on a connection, unless another connection
/// took its place.
pub fn set_continuation(
    sessions: &mut CodexSessions,
    session: &str,
    account: &str,
    id: u64,
    continuation: Option<ContinuationState>,
)
    ensures
        final(sessions)@ == (if is_current(old(sessions)@, (session@, account@), id) {
            SessionsView {
                entries: old(sessions)@.entries.insert(
                    (session@, account@),
                    EntryView {
                        continuation: views::opt(continuation),
                        ..old(sessions)@.entries[(session@, account@)]
                    },
                ),
                ..old(sessions)@
            }
        } else {
            old(sessions)@
        }),
{
    let ghost before = sessions@;
    let current: bool = match sessions.entry(session, account) {
        Some(e) => e.id == id,
        None => false,
    };
    if current {
        if let Some(mut e) = sessions.take_entry(session, account) {
            e.continuation = continuation;
            let ghost noted = e@;
            sessions.put_entry(session, account, e);
            assert(sessions@.entries =~= before.entries.insert((session@, account@), noted));
        }
    }
}

/// A request body without what differs from request to request.
pub open spec fn without_input(body: JsonView) -> JsonView {
    body.without("input"@).without("previous_response_id"@)
}

/// A request body without what differs from request to request.
pub fn request_body_without_input(body: &Json) -> (r: Json)
    ensures
        r@ == without_input(body@),
{
    body.without("input").without("previous_response_id")
}

/// Whether two request bodies differ in their input at most.
pub fn request_bodies_match_except_input(a: &Json, b: &Json) -> (r: bool)
    ensures
        r == json::alike(without_input(a@), without_input(b@)),
{
    let x: Json = request_body_without_input(a);
    let y: Json = request_body_without_input(b);
    same_json(&x, &y)
}

/// What the service holds of a conversation: the last input and the last output.
pub open spec fn baseline(cont: ContinuationView) -> Seq<JsonView> {
    views::or(cont.last_request_body.field_items("input"@), Seq::empty())
        + cont.last_response_items
}

/// The part of a request's input that the service does not hold yet, where the
/// rest is exactly what it holds and nothing else of the request changed.
pub open spec fn input_delta(body: JsonView, cont: ContinuationView) -> Option<Seq<JsonView>> {
    if !json::alike(without_input(body), without_input(cont.last_request_body)) {
        None
    } else {
        match body.field_items("input"@) {
            Some(current) => {
                let known = baseline(cont);
                if known.len() <= current.len() && json::alike_items(
                    current.take(known.len() as int),
                    known,
                ) {
                    Some(current.skip(known.len() as int))
                } else {
                    None
                }
            },
            None => None,
        }
    }
}

fn item_prefix(items: &Vec<Json>, n: usize) -> (r: Vec<Json>)
    requires
        n <= items@.len(),
    ensures
        views::all(r@) == views::all(items@).take(n as int),
{
    let mut out: Vec<Json> = Vec::new();
    let mut i: usize = 0;
    while i < n
        invariant
            i <= n <= items@.len(),
            views::all(out@) == views::all(items@).take(i as int),
        decreases n - i,
    {
        let copy: Json = clone_json(&items[i]);
        out.push(copy);
        proof {
            views::lemma_take_step(views::all(items@), i as int);
        }
        i = i + 1;
    }
    out
}

fn item_suffix(items: &Vec<Json>, n: usize) -> (r: Vec<Json>)
    requires
        n <= items@.len(),
    ensures
        views::all(r@) == views::all(items@).skip(n as int),
{
    let ghost want = views::all(items@).skip(n as int);
    let mut out: Vec<Json> = Vec::new();
    let mut i: usize = n;
    while i < items.len()
        invariant
            n <= i <= items@.len(),
            want == views::all(items@).skip(n as int),
            views::all(out@) == want.take(i - n),
        decreases items@.len() - i,
    {
        let copy: Json = clone_json(&items[i]);
        out.push(copy);
        proof {
            views::lemma_take_step(want, i - n);
        }
        i = i + 1;
    }
    proof {
        views::lemma_take_all(want);
    }
    out
}

/// The part of a request's input that the service does not hold yet.
pub fn get_cached_input_delta(body: &Json, cont: &ContinuationState) -> (r: Option<Vec<Json>>)
    ensures
        match r {
            Some(v) => input_delta(body@, cont@) == Some(views::all(v@)),
            None => input_delta(body@, cont@) is None,
        },
{
    if !request_bodies_match_except_input(body, &cont.last_request_body) {
        return None;
    }
    match body.field_array("input") {
        Some(current) => {
            let mut known: Vec<Json> = match cont.last_request_body.field_array("input") {
                Some(items) => clone_items(items),
                None => Vec::new(),
            };
            let mut output: Vec<Json> = clone_items(&cont.last_response_items);
            known.append(&mut output);
            assert(views::all(known@) =~= baseline(cont@));
            assert(views::all(known@).len() == known@.len());
            assert(views::all(current@).len() == current@.len());
            if current.len() < known.len() {
                return None;
            }
            let head: Vec<Json> = item_prefix(current, known.len());
            if !same_items(&head, &known) {
                return None;
            }
            Some(item_suffix(current, known.len()))
        },
        None => None,
    }
}

/// A request body that speaks only of what the service does not hold yet.
pub open spec fn delta_body(
    body: JsonView,
    last_response_id: Seq<char>,
    delta: Seq<JsonView>,
) -> JsonView {
    body.with("previous_response_id"@, json::jtext(last_response_id)).with(
        "input"@,
        JsonView::Array(delta),
    )
}

/// The body that goes out on a connection.
pub open spec fn sent_body(body: JsonView, cont: Option<ContinuationView>) -> JsonView {
    match cont {
        Some(c) => match input_delta(body, c) {
            Some(delta) => delta_body(body, c.last_response_id, delta),
            None => body,
        },
        None => body,
    }
}

/// The body that goes out on a connection, and whether its last exchange still
/// counts.
pub fn continued_body(body: &Json, cont: &Option<ContinuationState>) -> (r: (Json, bool))
    ensures
        r.0@ == sent_body(body@, views::opt(*cont)),
        r.1 == (cont is Some ==> input_delta(body@, cont->0@) is Some),
{
    match cont {
        Some(c) => match get_cached_input_delta(body, c) {
            Some(delta) => {
                let mut out: Json = clone_json(body);
                out.set("previous_response_id", Json::text(c.last_response_id.as_str()));
                out.set("input", Json::array(delta));
                (out, true)
            },
            None => (clone_json(body), false),
        },
        None => (clone_json(body), true),
    }
}

/// The body that goes out on the kept connection of a session. A last exchange
/// that the request does not continue is forgotten.
pub fn build_cached_request_body(
    sessions: &mut CodexSessions,
    session: &str,
    account: &str,
    id: u64,
    body: &Json,
) -> (r: Json)
    ensures
        ({
            let v = old(sessions)@;
            let key = (session@, account@);
            if is_current(v, key, id) {
                let cont = v.entries[key].continuation;
                &&& r@ == sent_body(body@, cont)
                &&& final(sessions)@ == (if cont is Some && input_delta(body@, cont->0) is None {
                    SessionsView {
                        entries: v.entries.insert(
                            key,
                            EntryView { continuation: None, ..v.entries[key] },
                        ),
                        ..v
                    }
                } else {
                    v
                })
            } else {
                r@ == body@ && final(sessions)@ == v
            }
        }),
{
    let (out, counts) = match sessions.entry(session, account) {
        Some(e) => if e.id == id {
            continued_body(body, &e.continuation)
        } else {
            (clone_json(body), true)
        },
        None => (clone_json(body), true),
    };
    if !counts {
        set_continuation(sessions, session, account, id, None);
    }
    out
}

/// A request that continues the last exchange sends no item twice and leaves none
/// out: what the service holds, followed by what is sent, is the whole input.
pub proof fn law_delta_completes_baseline(body: JsonView, cont: ContinuationView)
    requires
        input_delta(body, cont) is Some,
    ensures
        ({
            let current = body.field_items("input"@)->0;
            let n = baseline(cont).len() as int;
            &&& body.field_items("input"@) is Some
            &&& n <= current.len()
            &&& json::alike_items(current.take(n), baseline(cont))
            &&& current == current.take(n) + input_delta(body, cont)->0
        }),
{
    let current = body.field_items("input"@)->0;
    let known = baseline(cont);
    assert(current =~= current.take(known.len() as int) + current.skip(known.len() as int));
}

/// What goes out differs from the request in its input and in the response it
/// continues, in nothing else.
pub proof fn law_sent_body_keeps_the_rest(body: JsonView, cont: Option<ContinuationView>)
    requires
        body is Object,
    ensures
        without_input(sent_body(body, cont)) == without_input(body),
{
    reveal_strlit("input");
    reveal_strlit("previous_response_id");
    assert("input"@.len() != "previous_response_id"@.len());
    assert(without_input(sent_body(body, cont))->Object_0 =~= without_input(body)->Object_0);
}

/// A connection that is in use is never handed out a second time.
pub proof fn law_connection_is_not_shared(
    v: SessionsView,
    session: Seq<char>,
    account: Seq<char>,
    now_ms: u64,
    later_ms: u64,
    max_age_ms: u64,
)
    ensures
        decision(v, Some(session), account, now_ms, max_age_ms) is Reuse ==> !(decision(
            after_decision(v, Some(session), account, now_ms, max_age_ms),
            Some(session),
            account,
            later_ms,
            max_age_ms,
        ) is Reuse),
{
}

/// Only a connection that is home and not too old is used again.
pub proof fn law_reuse_is_safe(
    v: SessionsView,
    session: Seq<char>,
    account: Seq<char>,
    now_ms: u64,
    max_age_ms: u64,
)
    ensures
        decision(v, Some(session), account, now_ms, max_age_ms) matches CacheDecision::Reuse(id)
            ==> is_current(v, (session, account), id) && v.entries[(session, account)].socket_home
            && !is_expired(v.entries[(session, account)], now_ms, max_age_ms),
{
}

proof fn lemma_alike_items(a: Seq<JsonView>)
    ensures
        json::alike_items(a, a),
{
    assert forall|i: int| 0 <= i < a.len() implies json::alike(#[trigger] a[i], a[i]) by {
        json::law_value_is_like_itself(a[i]);
    }
}

/// A request that repeats the last one and what came back, and goes on behind that, is sent as
/// nothing but what goes on, together with the id of the response that it goes on from.
pub proof fn law_continued_request_sends_what_is_new(
    last: JsonView,
    input: Seq<JsonView>,
    id: Seq<char>,
    items: Seq<JsonView>,
    more: Seq<JsonView>,
)
    requires
        last.field_items("input"@) == Some(input),
    ensures
        ({
            let cont = ContinuationView {
                last_request_body: last,
                last_response_id: id,
                last_response_items: items,
            };
            let next = last.with("input"@, JsonView::Array(input + items + more));
            let sent = sent_body(next, Some(cont));
            &&& sent.field_items("input"@) == Some(more)
            &&& sent.field_text("previous_response_id"@) == Some(id)
        }),
{
    reveal_strlit("input");
    reveal_strlit("previous_response_id");
    assert("input"@.len() != "previous_response_id"@.len());
    let cont = ContinuationView {
        last_request_body: last,
        last_response_id: id,
        last_response_items: items,
    };
    let next = last.with("input"@, JsonView::Array(input + items + more));
    assert(without_input(next)->Object_0 =~= without_input(last)->Object_0);
    json::law_value_is_like_itself(without_input(last));
    let known = input + items;
    let current = input + items + more;
    assert(baseline(cont) =~= known);
    assert(current.take(known.len() as int) =~= known);
    assert(current.skip(known.len() as int) =~= more);
    lemma_alike_items(known);
    assert(input_delta(next, cont) == Some(more));
}

/// A request that differs from the last one in a text other than its input, or that does not
/// repeat what came back, is sent whole.
pub proof fn law_other_request_is_sent_whole(
    body: JsonView,
    cont: ContinuationView,
    name: Seq<char>,
)
    requires
        name != "input"@,
        name != "previous_response_id"@,
    ensures
        sent_body(body, None) == body,
        body.field_text(name) is Some && cont.last_request_body.field_text(name) is Some
            && body.field_text(name) != cont.last_request_body.field_text(name) ==> sent_body(
            body,
            Some(cont),
        ) == body,
        body.field_items("input"@) is Some && cont.last_request_body.field_items("input"@) is Some
            && body.field_items("input"@)->0.len() < cont.last_request_body.field_items(
            "input"@,
        )->0.len() + cont.last_response_items.len() ==> sent_body(body, Some(cont)) == body,
{
    let (a, b) = (without_input(body), without_input(cont.last_request_body));
    if body.field_text(name) is Some && cont.last_request_body.field_text(name) is Some
        && body.field_text(name) != cont.last_request_body.field_text(name) {
        assert(a->Object_0.contains_key(name) && b->Object_0.contains_key(name));
        assert(a->Object_0[name] == body->Object_0[name]);
        assert(b->Object_0[name] == cont.last_request_body->Object_0[name]);
        if json::alike(a, b) {
            assert(json::alike(a->Object_0[name], b->Object_0[name]));
        }
    }
}

/// A session gets a new connection where it has none or its own is too old, its own where that
/// is home, and one for this request alone where that is in use; without a session it always
/// does.
pub proof fn law_connection_is_found(
    v: SessionsView,
    session: Seq<char>,
    account: Seq<char>,
    now_ms: u64,
    max_age_ms: u64,
    other: (Seq<char>, Seq<char>),
)
    requires
        other != (session, account),
    ensures
        ({
            let d = decision(v, Some(session), account, now_ms, max_age_ms);
            let after = after_decision(v, Some(session), account, now_ms, max_age_ms);
            let key = (session, account);
            let e = v.entries[key];
            &&& !v.entries.contains_key(key) ==> d is Fresh
            &&& v.entries.contains_key(key) && now_ms >= e.created_at_ms + max_age_ms ==> d
                is Fresh && !after.entries.contains_key(key)
            &&& v.entries.contains_key(key) && now_ms < e.created_at_ms + max_age_ms
                && e.socket_home ==> d == CacheDecision::Reuse(e.id)
                && after.entries.contains_key(key) && !after.entries[key].socket_home
                && after.entries[key].continuation == e.continuation
            &&& v.entries.contains_key(key) && now_ms < e.created_at_ms + max_age_ms
                && !e.socket_home ==> d is OneShot && after == v
            &&& after.entries.contains_key(other) == v.entries.contains_key(other)
            &&& v.entries.contains_key(other) ==> after.entries[other] == v.entries[other]
            &&& after.stats == v.stats
            &&& after.fallbacks == v.fallbacks
        }),
        decision(v, None, account, now_ms, max_age_ms) is OneShot,
        after_decision(v, None, account, now_ms, max_age_ms) == v,
{
}

/// Every request counts once: as one on a new connection or on one that was used again, and as
/// one of the whole conversation or of what is new in it.
pub proof fn law_requests_are_counted(
    s: StatsView,
    body: JsonView,
    reused: bool,
    cached: bool,
    items: Seq<JsonView>,
)
    requires
        s.requests < u64::MAX,
        s.connections_created < u64::MAX,
        s.connections_reused < u64::MAX,
        s.full_context_requests < u64::MAX,
        s.delta_requests < u64::MAX,
        s.cached_context_requests < u64::MAX,
        s.store_true_requests < u64::MAX,
        items.len() <= u64::MAX,
        body.field_items("input"@) == Some(items),
    ensures
        ({
            let t = request_counted(s, body, reused, cached);
            let goes_on = body.field_text("previous_response_id"@) is Some;
            &&& t.requests == s.requests + 1
            &&& t.connections_reused == s.connections_reused + if reused {
                1int
            } else {
                0
            }
            &&& t.connections_created == s.connections_created + if reused {
                0int
            } else {
                1
            }
            &&& t.delta_requests == s.delta_requests + if goes_on {
                1int
            } else {
                0
            }
            &&& t.full_context_requests == s.full_context_requests + if goes_on {
                0int
            } else {
                1
            }
            &&& t.cached_context_requests == s.cached_context_requests + if cached {
                1int
            } else {
                0
            }
            &&& t.store_true_requests == s.store_true_requests + if body.field_boolean("store"@)
                == Some(true) {
                1int
            } else {
                0
            }
            &&& t.last_input_items == items.len()
            &&& t.last_previous_response_id == body.field_text("previous_response_id"@)
            &&& goes_on ==> t.last_delta_input_items == Some(items.len() as u64)
            &&& !goes_on ==> t.last_delta_input_items is None
            &&& t.websocket_failures == s.websocket_failures
            &&& t.sse_fallbacks == s.sse_fallbacks
        }),
{
}

/// Counters stop at the greatest number there is, and start at none.
pub proof fn law_counters_start_at_none(v: SessionsView, session: Seq<char>, n: u64)
    requires
        !v.stats.contains_key(session),
    ensures
        n < u64::MAX ==> counted(n) == n + 1,
        counted(u64::MAX) == u64::MAX,
        stats_of(v, session).requests == 0,
        stats_of(v, session).websocket_failures == 0,
        stats_of(v, session).sse_fallbacks == 0,
        stats_of(v, session).last_websocket_error is None,
        stats_of(v, session).websocket_fallback_active is None,
{
}

/// A connection is used for fifty-five minutes at most, is kept for five, and has a quarter of a
/// minute to open, unless the caller says otherwise.
pub proof fn law_connections_are_short_lived()
    ensures
        DEFAULT_MAX_AGE_MS == 55 * 60_000,
        DEFAULT_CACHE_TTL_MS == 5 * 60_000,
        DEFAULT_CONNECT_TIMEOUT_MS == 15_000,
{
}

} // verus!
