//! Persistent command history: bounded storage, search and the selection of
//! entries relevant to an AI request.
use vstd::prelude::*;
use crate::clock::unix_now_secs;
use crate::ranking::{desc_rank, rank_desc, is_desc_rank, ranks_before, lemma_desc_rank_exists, lemma_rank_distinct,
    lemma_rank_prefix_dominates};
use crate::shell_core::types::{StringMap, VarsView};
use crate::text::{lowercase, seq_contains, occurs_at, string_of, to_lowercase, str_contains, path_join, join_path, int_decimal,
    nat_decimal, push_decimal, push_i64};

verus! {

/// File name of the history in the home directory.
pub const DEFAULT_HISTORY_FILE: &'static str = ".shellai_history.json";

/// Number of entries kept unless configured otherwise.
pub const DEFAULT_MAX_ENTRIES: usize = 1000;

/// One executed command.
#[derive(Debug, Clone)]
pub struct HistoryEntry {
    pub command: String,
    pub timestamp: u64,
    pub exit_code: i32,
    pub ai_suggestion: Option<String>,
    pub duration_ms: u64,
}

impl HistoryEntry {
    /// A command that has just started: exit code -1, no duration, no AI
    /// suggestion, stamped with the current time.
    pub fn new(command: &str) -> (r: Self)
        ensures
            r.command@ == command@,
            r.exit_code == -1,
            r.ai_suggestion is None,
            r.duration_ms == 0,
    {
        HistoryEntry {
            command: string_of(command),
            timestamp: unix_now_secs(),
            exit_code: -1,
            ai_suggestion: None,
            duration_ms: 0,
        }
    }

    /// The entry with the AI suggestion that accompanied it.
    pub fn with_ai_suggestion(self, suggestion: &str) -> (r: Self)
        ensures
            r.ai_suggestion matches Some(s) && s@ == suggestion@,
            r.command == self.command,
            r.timestamp == self.timestamp,
            r.exit_code == self.exit_code,
            r.duration_ms == self.duration_ms,
    {
        let mut e = self;
        e.ai_suggestion = Some(string_of(suggestion));
        e
    }

    /// Record how the command finished.
    pub fn mark_completed(&mut self, exit_code: i32, duration_ms: u64)
        ensures
            final(self).exit_code == exit_code,
            final(self).duration_ms == duration_ms,
            final(self).command == old(self).command,
            final(self).timestamp == old(self).timestamp,
            final(self).ai_suggestion == old(self).ai_suggestion,
    {
        self.exit_code = exit_code;
        self.duration_ms = duration_ms;
    }

    /// The entry as `--history search` shows it:
    /// `[COMMAND] exit=CODE DURATIONms`.
    pub fn search_line(&self) -> (r: String)
        ensures
            r@ == search_line_text(*self),
    {
        let mut r = string_of("[");
        r.append(self.command.as_str());
        r.append("] exit=");
        push_i64(&mut r, self.exit_code as i64);
        r.append(" ");
        push_decimal(&mut r, self.duration_ms);
        r.append("ms");
        assert(r@ =~= search_line_text(*self));
        r
    }

    /// The entry as `--history recent` shows it: the search line followed by
    /// ` (AI: SUGGESTION)` when an AI suggestion is recorded.
    pub fn recent_line(&self) -> (r: String)
        ensures
            r@ == recent_line_text(*self),
    {
        let mut r = self.search_line();
        match &self.ai_suggestion {
            Some(s) => {
                r.append(" (AI: ");
                r.append(s.as_str());
                r.append(")");
            },
            None => {},
        }
        assert(r@ =~= recent_line_text(*self));
        r
    }

    /// A copy with the same field values.
    pub fn duplicate(&self) -> (r: Self)
        ensures
            r == *self,
    {
        HistoryEntry {
            command: self.command.clone(),
            timestamp: self.timestamp,
            exit_code: self.exit_code,
            ai_suggestion: match &self.ai_suggestion {
                Some(s) => Some(s.clone()),
                None => None,
            },
            duration_ms: self.duration_ms,
        }
    }
}

/// An entry as a search result: `[COMMAND] exit=CODE DURATIONms`.
pub open spec fn search_line_text(e: HistoryEntry) -> Seq<char> {
    "["@ + e.command@ + "] exit="@ + int_decimal(e.exit_code as int) + " "@ + nat_decimal(e.duration_ms as nat)
        + "ms"@
}

/// An entry as a recent command: the search line, then ` (AI: SUGGESTION)`
/// when there is one.
pub open spec fn recent_line_text(e: HistoryEntry) -> Seq<char> {
    search_line_text(e) + match e.ai_suggestion {
        Some(s) => " (AI: "@ + s@ + ")"@,
        None => Seq::empty(),
    }
}

/// The default history file: `.shellai_history.json` in the home directory,
/// or in the working directory when the home directory is unknown.
pub open spec fn default_history_location(home: Option<Seq<char>>) -> Seq<char> {
    match home {
        Some(h) => path_join(h, DEFAULT_HISTORY_FILE@),
        None => DEFAULT_HISTORY_FILE@,
    }
}

/// The history after appending `e` and dropping the oldest entries beyond `max`.
pub open spec fn bounded_push(s: Seq<HistoryEntry>, e: HistoryEntry, max: nat) -> Seq<HistoryEntry> {
    let t = s.push(e);
    if t.len() > max {
        t.subrange(t.len() - max, t.len() as int)
    } else {
        t
    }
}

/// The last `count` entries (all of them when there are fewer), oldest first.
pub open spec fn last_entries(s: Seq<HistoryEntry>, count: nat) -> Seq<HistoryEntry> {
    if s.len() > count {
        s.subrange(s.len() - count, s.len() as int)
    } else {
        s
    }
}

/// The entries whose command contains `query`, ignoring case, in order.
pub open spec fn history_search(s: Seq<HistoryEntry>, query: Seq<char>) -> Seq<HistoryEntry> {
    s.filter(|e: HistoryEntry| seq_contains(lowercase(e.command@), lowercase(query)))
}

/// Tenths of a point a command earns from the context: 10 for each key it
/// contains and 15 for each value it contains.
pub open spec fn context_hits(cmd: Seq<char>, ctx: VarsView) -> nat
    decreases ctx.len(),
{
    if ctx.len() == 0 {
        0
    } else {
        context_hits(cmd, ctx.drop_last()) + (if seq_contains(cmd, ctx.last().0) {
            10nat
        } else {
            0nat
        }) + (if seq_contains(cmd, ctx.last().1) {
            15nat
        } else {
            0nat
        })
    }
}

/// Tenths of a point for recency: 20 within an hour, 10 within a day, 5
/// within a week, 1 otherwise (a timestamp in the future counts as now).
pub open spec fn recency_tenths(now: u64, timestamp: u64) -> nat {
    let age = if now > timestamp {
        now - timestamp
    } else {
        0
    };
    if age < 3600 {
        20
    } else if age < 86400 {
        10
    } else if age < 604800 {
        5
    } else {
        1
    }
}

/// The relevance of an entry for an AI request, in tenths of a point:
/// context hits, 5 for a successful command, and the recency bonus.
pub open spec fn relevance(e: HistoryEntry, ctx: VarsView, now: u64) -> nat {
    context_hits(e.command@, ctx) + (if e.exit_code == 0 {
        5nat
    } else {
        0nat
    }) + recency_tenths(now, e.timestamp)
}

/// The relevance of each entry, as ranking keys.
pub open spec fn relevance_keys(s: Seq<HistoryEntry>, ctx: VarsView, now: u64) -> Seq<u128> {
    s.map_values(|e: HistoryEntry| relevance(e, ctx, now) as u128)
}

/// The `limit` most relevant entries at time `now`, most relevant first and
/// in history order among equal relevance. Every entry earns a recency bonus,
/// so every entry is a candidate.
pub open spec fn relevant_for_ai(s: Seq<HistoryEntry>, ctx: VarsView, limit: nat, now: u64) -> Seq<HistoryEntry> {
    let o = desc_rank(relevance_keys(s, ctx, now));
    let n = if limit < o.len() {
        limit as int
    } else {
        o.len() as int
    };
    o.take(n).map_values(|i: usize| s[i as int])
}

/// Adding an entry keeps at most `max` entries: as many as there were plus
/// one, up to `max`; the added entry comes last (when anything is kept) and
/// the others are the newest of the earlier entries, in order.
pub proof fn lemma_bounded_push(s: Seq<HistoryEntry>, e: HistoryEntry, max: nat)
    ensures
        bounded_push(s, e, max).len() == if s.len() + 1 <= max {
            s.len() + 1int
        } else {
            max as int
        },
        max > 0 ==> bounded_push(s, e, max).last() == e,
        forall|i: int|
            0 <= i < bounded_push(s, e, max).len() - 1 ==> #[trigger] bounded_push(s, e, max)[i] == s[s.len() + 1
                - bounded_push(s, e, max).len() + i],
{
}

/// The most recent entry after adding one is the added entry, whenever the
/// history keeps anything at all.
pub proof fn lemma_recent_after_add(s: Seq<HistoryEntry>, e: HistoryEntry, max: nat)
    requires
        max > 0,
    ensures
        last_entries(bounded_push(s, e, max), 1) == seq![e],
{
    lemma_bounded_push(s, e, max);
    let t = bounded_push(s, e, max);
    if t.len() > 1 {
        assert(t.subrange(t.len() - 1, t.len() as int) =~= seq![e]);
    } else {
        assert(t =~= seq![e]);
    }
}

proof fn lemma_context_hits_bound(cmd: Seq<char>, ctx: VarsView)
    ensures
        context_hits(cmd, ctx) <= 25 * ctx.len(),
    decreases ctx.len(),
{
    if ctx.len() > 0 {
        lemma_context_hits_bound(cmd, ctx.drop_last());
    }
}

/// The relevance of an entry, read back from its ranking key.
proof fn lemma_relevance_key(s: Seq<HistoryEntry>, ctx: VarsView, now: u64, i: int)
    requires
        ctx.len() <= usize::MAX,
        0 <= i < s.len(),
    ensures
        relevance_keys(s, ctx, now)[i] as int == relevance(s[i], ctx, now),
        relevance(s[i], ctx, now) > 0,
{
    lemma_context_hits_bound(s[i].command@, ctx);
}

/// The selection for an AI request, stated whole: `min(limit, |s|)` entries,
/// each taken from a different stored position, in non-increasing relevance
/// and in storage order among equal relevance. Every entry has a positive
/// relevance, so none is filtered out, and no entry left out is more relevant
/// than the last one chosen.
pub proof fn lemma_relevant_for_ai(s: Seq<HistoryEntry>, ctx: VarsView, limit: nat, now: u64)
    requires
        s.len() <= usize::MAX,
        ctx.len() <= usize::MAX,
    ensures
        ({
            let r = relevant_for_ai(s, ctx, limit, now);
            let o = desc_rank(relevance_keys(s, ctx, now));
            &&& r.len() == if limit < s.len() {
                limit as int
            } else {
                s.len() as int
            }
            &&& forall|k: int| 0 <= k < r.len() ==> o[k] < s.len() && #[trigger] r[k] == s[o[k] as int]
            &&& forall|k: int, l: int| #![trigger o[k], o[l]] 0 <= k < l < r.len() ==> o[k] != o[l]
            &&& forall|k: int, l: int|
                0 <= k < l < r.len() ==> relevance(#[trigger] r[k], ctx, now) >= relevance(#[trigger] r[l], ctx, now)
            &&& forall|k: int, l: int|
                #![trigger r[k], r[l]]
                0 <= k < l < r.len() && relevance(r[k], ctx, now) == relevance(r[l], ctx, now) ==> o[k] < o[l]
            &&& forall|i: int| 0 <= i < s.len() ==> relevance(#[trigger] s[i], ctx, now) > 0
            &&& forall|i: int|
                0 <= i < s.len() && r.len() > 0 && (forall|k: int| 0 <= k < r.len() ==> o[k] != i) ==> relevance(
                    #[trigger] s[i],
                    ctx,
                    now,
                ) <= relevance(r[r.len() - 1], ctx, now)
        }),
{
    let keys = relevance_keys(s, ctx, now);
    let o = desc_rank(keys);
    let r = relevant_for_ai(s, ctx, limit, now);
    lemma_desc_rank_exists(keys);
    lemma_rank_distinct(keys, o);
    let n = if limit < o.len() {
        limit as int
    } else {
        o.len() as int
    };
    assert forall|k: int| 0 <= k < r.len() implies o[k] < s.len() && #[trigger] r[k] == s[o[k] as int] by {
        assert(o[k] < o.len());
    }
    assert forall|i: int| 0 <= i < s.len() implies relevance(#[trigger] s[i], ctx, now) > 0 by {
        lemma_relevance_key(s, ctx, now, i);
    }
    assert forall|k: int, l: int| 0 <= k < l < r.len() implies relevance(#[trigger] r[k], ctx, now) >= relevance(
        #[trigger] r[l],
        ctx,
        now,
    ) && (relevance(r[k], ctx, now) == relevance(r[l], ctx, now) ==> o[k] < o[l]) by {
        assert(ranks_before(keys, o[k], o[l]));
        assert(r[k] == s[o[k] as int] && r[l] == s[o[l] as int]);
        lemma_relevance_key(s, ctx, now, o[k] as int);
        lemma_relevance_key(s, ctx, now, o[l] as int);
    }
    assert forall|i: int|
        0 <= i < s.len() && r.len() > 0 && (forall|k: int| 0 <= k < r.len() ==> o[k] != i) implies relevance(
        #[trigger] s[i],
        ctx,
        now,
    ) <= relevance(r[r.len() - 1], ctx, now) by {
        assert forall|k: int| 0 <= k < n implies #[trigger] o[k] != i as usize by {
            assert(o[k] != i);
        }
        lemma_rank_prefix_dominates(keys, o, n, i as usize);
        assert(r[n - 1] == s[o[n - 1] as int]);
        lemma_relevance_key(s, ctx, now, i);
        lemma_relevance_key(s, ctx, now, o[n - 1] as int);
    }
}

/// Search keeps exactly the entries whose command contains the query,
/// ignoring case, wherever in the command it occurs: every result comes from
/// the history and its lower-cased command contains the lower-cased query,
/// and every entry that holds it at some position is
/// among the results.
pub proof fn lemma_history_search(s: Seq<HistoryEntry>, query: Seq<char>)
    ensures
        ({
            let r = history_search(s, query);
            let q = lowercase(query);
            &&& r.len() <= s.len()
            &&& forall|k: int|
                0 <= k < r.len() ==> s.contains(#[trigger] r[k]) && seq_contains(lowercase(r[k].command@), q)
            &&& forall|i: int, p: int|
                0 <= i < s.len() && 0 <= p && p + q.len() <= lowercase(s[i].command@).len()
                    && #[trigger] lowercase(s[i].command@).subrange(p, p + q.len()) == q ==> r.contains(s[i])
        }),
{
    let pred = |e: HistoryEntry| seq_contains(lowercase(e.command@), lowercase(query));
    let r = history_search(s, query);
    let q = lowercase(query);
    assert(r == s.filter(pred));
    s.lemma_filter_len(pred);
    assert forall|k: int| 0 <= k < r.len() implies s.contains(#[trigger] r[k]) && seq_contains(
        lowercase(r[k].command@),
        q,
    ) by {
        s.lemma_filter_pred(pred, k);
        assert(r.contains(r[k]));
        s.lemma_filter_contains_rev(pred, r[k]);
    }
    assert forall|i: int, p: int|
        0 <= i < s.len() && 0 <= p && p + q.len() <= lowercase(s[i].command@).len()
            && #[trigger] lowercase(s[i].command@).subrange(p, p + q.len()) == q implies r.contains(s[i]) by {
        assert(occurs_at(lowercase(s[i].command@), q, p));
        assert(pred(s[i]));
        s.lemma_filter_contains(pred, i);
    }
}

/// Of two entries that differ only in their time, the newer one is never less
/// relevant; one made within the last hour is more relevant than one made a
/// week or more ago.
pub proof fn lemma_recency_prefers_newer(a: HistoryEntry, b: HistoryEntry, ctx: VarsView, now: u64)
    requires
        a.command@ == b.command@,
        a.exit_code == b.exit_code,
    ensures
        a.timestamp >= b.timestamp ==> relevance(a, ctx, now) >= relevance(b, ctx, now),
        (a.timestamp <= now && now - a.timestamp < 3600 && b.timestamp + 604800 <= now) ==> relevance(a, ctx, now)
            > relevance(b, ctx, now),
{
}

/// Recency bonus in tenths of a point for an entry made at `timestamp`,
/// seen at `now`.
pub fn recency_score(now: u64, timestamp: u64) -> (r: u64)
    ensures
        r == recency_tenths(now, timestamp),
{
    let age = now.saturating_sub(timestamp);
    let hour: u64 = 3600;
    if age < hour {
        20
    } else if age < hour * 24 {
        10
    } else if age < hour * 24 * 7 {
        5
    } else {
        1
    }
}

/// Command history kept in memory, backed by a file at `history_path`.
pub struct HistoryManager {
    entries: Vec<HistoryEntry>,
    history_path: String,
    max_entries: usize,
}

impl View for HistoryManager {
    type V = Seq<HistoryEntry>;

    closed spec fn view(&self) -> Seq<HistoryEntry> {
        self.entries@
    }
}

impl HistoryManager {
    /// The configured capacity.
    pub closed spec fn capacity(&self) -> nat {
        self.max_entries as nat
    }

    /// The file the history is stored in.
    pub closed spec fn location(&self) -> Seq<char> {
        self.history_path@
    }

    /// An empty history stored at `history_path`, or at the default location
    /// under `home`, keeping up to 1000 entries.
    pub fn new(history_path: Option<&str>, home: Option<&str>) -> (r: Self)
        ensures
            r@ == Seq::<HistoryEntry>::empty(),
            r.capacity() == DEFAULT_MAX_ENTRIES,
            r.location() == match history_path {
                Some(p) => p@,
                None => default_history_location(
                    match home {
                        Some(h) => Some(h@),
                        None => None,
                    },
                ),
            },
    {
        let path = match history_path {
            Some(p) => string_of(p),
            None => Self::default_history_path(home),
        };
        HistoryManager { entries: Vec::new(), history_path: path, max_entries: DEFAULT_MAX_ENTRIES }
    }

    /// The same history keeping up to `max` entries from now on.
    pub fn with_max_entries(self, max: usize) -> (r: Self)
        ensures
            r@ == self@,
            r.capacity() == max,
            r.location() == self.location(),
    {
        let mut m = self;
        m.max_entries = max;
        m
    }

    /// The default history file for the given home directory.
    pub fn default_history_path(home: Option<&str>) -> (r: String)
        ensures
            r@ == default_history_location(
                match home {
                    Some(h) => Some(h@),
                    None => None,
                },
            ),
    {
        match home {
            Some(h) => join_path(h, DEFAULT_HISTORY_FILE),
            None => string_of(DEFAULT_HISTORY_FILE),
        }
    }

    /// The file the history is stored in.
    pub fn history_path(&self) -> (r: &str)
        ensures
            r@ == self.location(),
    {
        self.history_path.as_str()
    }

    /// The configured capacity.
    pub fn max_entries(&self) -> (r: usize)
        ensures
            r == self.capacity(),
    {
        self.max_entries
    }

    /// All entries, oldest first.
    pub fn entries(&self) -> (r: &Vec<HistoryEntry>)
        ensures
            r@ == self@,
    {
        &self.entries
    }

    /// Replaces the entries with those read from storage and returns their
    /// number. The capacity is not applied here.
    pub fn replace_entries(&mut self, entries: Vec<HistoryEntry>) -> (r: usize)
        ensures
            final(self)@ == entries@,
            r == entries@.len(),
            final(self).capacity() == old(self).capacity(),
            final(self).location() == old(self).location(),
    {
        self.entries = entries;
        self.entries.len()
    }

    /// Appends an entry, dropping the oldest ones beyond the capacity.
    pub fn add_entry(&mut self, entry: HistoryEntry) -> (r: Result<(), String>)
        ensures
            r is Ok,
            final(self)@ == bounded_push(old(self)@, entry, old(self).capacity()),
            final(self).capacity() == old(self).capacity(),
            final(self).location() == old(self).location(),
    {
        self.entries.push(entry);
        if self.entries.len() > self.max_entries {
            let remove_count = self.entries.len() - self.max_entries;
            let kept = self.entries.split_off(remove_count);
            self.entries = kept;
        }
        Ok(())
    }

    /// Copies of the last `count` entries, oldest first.
    pub fn get_recent(&self, count: usize) -> (r: Vec<HistoryEntry>)
        ensures
            r@ == last_entries(self@, count as nat),
    {
        let n = self.entries.len();
        let start = if n > count {
            n - count
        } else {
            0
        };
        let mut r: Vec<HistoryEntry> = Vec::new();
        let mut i = start;
        while i < n
            invariant
                start <= i <= n == self.entries@.len(),
                r@ == self.entries@.subrange(start as int, i as int),
            decreases n - i,
        {
            r.push(self.entries[i].duplicate());
            i = i + 1;
            assert(r@ =~= self.entries@.subrange(start as int, i as int));
        }
        assert(last_entries(self@, count as nat) =~= self.entries@.subrange(start as int, n as int));
        r
    }

    /// Copies of the entries whose command contains `query`, ignoring case.
    pub fn search(&self, query: &str) -> (r: Vec<HistoryEntry>)
        ensures
            r@ == history_search(self@, query@),
    {
        let lower = to_lowercase(query);
        let mut r: Vec<HistoryEntry> = Vec::new();
        let mut i: usize = 0;
        while i < self.entries.len()
            invariant
                i <= self.entries@.len(),
                lower@ == lowercase(query@),
                r@ == history_search(self.entries@.take(i as int), query@),
            decreases self.entries.len() - i,
        {
            proof {
                reveal(Seq::filter);
                assert(self.entries@.take(i + 1).drop_last() =~= self.entries@.take(i as int));
            }
            let e = &self.entries[i];
            let lc = to_lowercase(e.command.as_str());
            if str_contains(lc.as_str(), lower.as_str()) {
                r.push(e.duplicate());
            }
            i = i + 1;
        }
        assert(self.entries@.take(i as int) =~= self.entries@);
        r
    }

    /// The context-hit score of `cmd`, in tenths of a point.
    fn context_score(cmd: &str, context: &StringMap) -> (r: u128)
        ensures
            r == context_hits(cmd@, context@),
    {
        let mut h: u128 = 0;
        let mut i: usize = 0;
        while i < context.len()
            invariant
                i <= context@.len(),
                h == context_hits(cmd@, context@.take(i as int)),
                h <= 25 * i,
            decreases context@.len() - i,
        {
            proof {
                assert(context@.take(i + 1).drop_last() =~= context@.take(i as int));
                lemma_context_hits_bound(cmd@, context@.take(i as int));
            }
            let (k, v) = context.pair(i);
            if str_contains(cmd, k.as_str()) {
                h = h + 10;
            }
            if str_contains(cmd, v.as_str()) {
                h = h + 15;
            }
            i = i + 1;
        }
        assert(context@.take(i as int) =~= context@);
        h
    }

    /// The `limit` entries most relevant to `context` at time `now`.
    pub fn relevant_at(&self, context: &StringMap, limit: usize, now: u64) -> (r: Vec<HistoryEntry>)
        ensures
            r@ == relevant_for_ai(self@, context@, limit as nat, now),
            forall|k: int, l: int|
                0 <= k < l < r.len() ==> relevance(#[trigger] r@[k], context@, now) >= relevance(
                    #[trigger] r@[l],
                    context@,
                    now,
                ),
    {
        let mut keys: Vec<u128> = Vec::new();
        let mut i: usize = 0;
        while i < self.entries.len()
            invariant
                i <= self.entries@.len(),
                keys@ == relevance_keys(self.entries@.take(i as int), context@, now),
            decreases self.entries.len() - i,
        {
            let e = &self.entries[i];
            let hits = Self::context_score(e.command.as_str(), context);
            let ok: u128 = if e.exit_code == 0 {
                5
            } else {
                0
            };
            let recent = recency_score(now, e.timestamp) as u128;
            let cl = context.len();
            proof {
                lemma_context_hits_bound(e.command@, context@);
                assert(hits <= 25 * (cl as int));
            }
            keys.push(hits + ok + recent);
            i = i + 1;
            assert(keys@ =~= relevance_keys(self.entries@.take(i as int), context@, now));
        }
        assert(self.entries@.take(i as int) =~= self.entries@);
        let cl = context.len();
        let order = rank_desc(&keys);
        let n = if limit < order.len() {
            limit
        } else {
            order.len()
        };
        let mut r: Vec<HistoryEntry> = Vec::new();
        let mut k: usize = 0;
        while k < n
            invariant
                keys@ == relevance_keys(self.entries@, context@, now),
                is_desc_rank(keys@, order@),
                order@ == desc_rank(keys@),
                n <= order.len(),
                n == if limit < order.len() {
                    limit as int
                } else {
                    order.len() as int
                },
                k <= n,
                cl == context@.len(),
                r@ == order@.take(k as int).map_values(|j: usize| self.entries@[j as int]),
            decreases n - k,
        {
            r.push(self.entries[order[k]].duplicate());
            k = k + 1;
            assert(r@ =~= order@.take(k as int).map_values(|j: usize| self.entries@[j as int]));
        }
        proof {
            assert forall|a: int, b: int| 0 <= a < b < r.len() implies relevance(#[trigger] r@[a], context@, now)
                >= relevance(#[trigger] r@[b], context@, now) by {
                let ea = self.entries@[order@[a] as int];
                let eb = self.entries@[order@[b] as int];
                assert(ranks_before(keys@, order@[a], order@[b]));
                assert(r@[a] == ea);
                assert(r@[b] == eb);
                lemma_context_hits_bound(ea.command@, context@);
                lemma_context_hits_bound(eb.command@, context@);
                assert(keys@[order@[a] as int] == relevance(ea, context@, now) as u128);
                assert(keys@[order@[b] as int] == relevance(eb, context@, now) as u128);
            }
        }
        r
    }

    /// The `limit` entries most relevant to `context` now.
    pub fn get_relevant_for_ai(&self, context: &StringMap, limit: usize) -> (r: Vec<HistoryEntry>)
        ensures
            exists|now: u64| r@ == relevant_for_ai(self@, context@, limit as nat, now),
    {
        let now = unix_now_secs();
        self.relevant_at(context, limit, now)
    }

    /// Removes every entry (the stored file is rewritten by the caller).
    pub fn clear_entries(&mut self)
        ensures
            final(self)@ == Seq::<HistoryEntry>::empty(),
            final(self).capacity() == old(self).capacity(),
            final(self).location() == old(self).location(),
    {
        self.entries = Vec::new();
    }

    /// The number of entries.
    pub fn len(&self) -> (r: usize)
        ensures
            r == self@.len(),
    {
        self.entries.len()
    }

    /// Whether there are no entries.
    pub fn is_empty(&self) -> (r: bool)
        ensures
            r == (self@.len() == 0),
    {
        self.len() == 0
    }
}

} // verus!
