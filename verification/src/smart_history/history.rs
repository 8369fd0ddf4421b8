use vstd::prelude::*;
use super::entry::{HistoryEntry, fuzzy_match};
use super::rank::SearchRank;
use crate::ranking::{desc_rank, rank_desc, is_desc_rank, ranks_before, listed, lemma_rank_distinct,
    lemma_rank_prefix_dominates};
use crate::text::{lowercase, seq_starts_with, to_lowercase, str_starts_with};

verus! {

/// No command occurs twice.
pub open spec fn commands_unique(s: Seq<HistoryEntry>) -> bool {
    forall|i: int, j: int| 0 <= i < j < s.len() ==> s[i].command@ != s[j].command@
}

/// Some entry of `s` holds `cmd`.
pub open spec fn has_command(s: Seq<HistoryEntry>, cmd: Seq<char>) -> bool {
    exists|i: int| 0 <= i < s.len() && s[i].command@ == cmd
}

/// The index of the entry holding `cmd`.
pub open spec fn command_index(s: Seq<HistoryEntry>, cmd: Seq<char>) -> int {
    choose|i: int| 0 <= i < s.len() && s[i].command@ == cmd
}

/// `e` counted once more.
pub open spec fn bumped(e: HistoryEntry) -> HistoryEntry {
    HistoryEntry {
        command: e.command,
        cwd: e.cwd,
        exit_code: e.exit_code,
        timestamp: e.timestamp,
        frequency: (e.frequency + 1) as u32,
    }
}

/// The history after recording `e`: a known command is counted once more
/// (keeping its first directory, exit code and time), a new one is appended.
pub open spec fn history_add(s: Seq<HistoryEntry>, e: HistoryEntry) -> Seq<HistoryEntry> {
    if has_command(s, e.command@) {
        s.update(command_index(s, e.command@), bumped(s[command_index(s, e.command@)]))
    } else {
        s.push(e)
    }
}

/// Recording `e` does not overflow the run counter of its command.
pub open spec fn can_add(s: Seq<HistoryEntry>, e: HistoryEntry) -> bool {
    forall|i: int| 0 <= i < s.len() && s[i].command@ == e.command@ ==> s[i].frequency < u32::MAX
}

/// The total number of runs recorded.
pub open spec fn total_runs(s: Seq<HistoryEntry>) -> nat
    decreases s.len(),
{
    if s.len() == 0 {
        0
    } else {
        total_runs(s.drop_last()) + s.last().frequency as nat
    }
}

proof fn lemma_total_runs_update(s: Seq<HistoryEntry>, i: int, x: HistoryEntry)
    requires
        0 <= i < s.len(),
    ensures
        total_runs(s.update(i, x)) + s[i].frequency == total_runs(s) + x.frequency,
    decreases s.len(),
{
    if i < s.len() - 1 {
        assert(s.update(i, x).drop_last() =~= s.drop_last().update(i, x));
        lemma_total_runs_update(s.drop_last(), i, x);
    } else {
        assert(s.update(i, x).drop_last() =~= s.drop_last());
    }
}

/// Recording a single run of a command adds exactly one run to the total:
/// a known command is counted again and the number of commands stays the
/// same, a new command adds one entry.
pub proof fn lemma_add_records_one_run(s: Seq<HistoryEntry>, e: HistoryEntry)
    requires
        commands_unique(s),
        can_add(s, e),
        e.frequency == 1,
    ensures
        total_runs(history_add(s, e)) == total_runs(s) + 1,
        history_add(s, e).len() == if has_command(s, e.command@) {
            s.len() as int
        } else {
            s.len() + 1int
        },
        has_command(history_add(s, e), e.command@),
{
    if has_command(s, e.command@) {
        let i = command_index(s, e.command@);
        lemma_total_runs_update(s, i, bumped(s[i]));
        assert(history_add(s, e)[i].command@ == e.command@);
    } else {
        assert(history_add(s, e).drop_last() =~= s);
        assert(history_add(s, e)[s.len() as int].command@ == e.command@);
    }
}

/// Recording `e` changes exactly one thing: a known command's entry is
/// counted once more (its run count grows by one when it has room; its other
/// fields and the number of entries stay the same), or `e` is appended unchanged as the last entry. Every other entry
/// stays as it was, and commands stay unique.
pub proof fn lemma_add_effects(s: Seq<HistoryEntry>, e: HistoryEntry)
    requires
        commands_unique(s),
    ensures
        has_command(s, e.command@) ==> {
            let i = command_index(s, e.command@);
            let t = history_add(s, e);
            &&& 0 <= i < s.len()
            &&& s[i].command@ == e.command@
            &&& t.len() == s.len()
            &&& can_add(s, e) ==> t[i].frequency == s[i].frequency + 1
            &&& t[i].command == s[i].command
            &&& t[i].cwd == s[i].cwd
            &&& t[i].exit_code == s[i].exit_code
            &&& t[i].timestamp == s[i].timestamp
            &&& forall|j: int| 0 <= j < s.len() && j != i ==> #[trigger] t[j] == s[j]
        },
        !has_command(s, e.command@) ==> {
            let t = history_add(s, e);
            &&& t.len() == s.len() + 1
            &&& t[s.len() as int] == e
            &&& forall|j: int| 0 <= j < s.len() ==> #[trigger] t[j] == s[j]
        },
        commands_unique(history_add(s, e)),
        forall|c: Seq<char>|
            #[trigger] has_command(history_add(s, e), c) <==> (has_command(s, c) || c == e.command@),
{
    let t = history_add(s, e);
    if has_command(s, e.command@) {
        let i = command_index(s, e.command@);
        assert forall|a: int, b: int| 0 <= a < b < t.len() implies t[a].command@ != t[b].command@ by {
            assert(t[a].command@ == s[a].command@ && t[b].command@ == s[b].command@);
        }
        assert forall|c: Seq<char>| #[trigger] has_command(t, c) <==> (has_command(s, c) || c == e.command@) by {
            if has_command(t, c) {
                let j = choose|j: int| 0 <= j < t.len() && t[j].command@ == c;
                assert(s[j].command@ == c);
            }
            if has_command(s, c) {
                let j = choose|j: int| 0 <= j < s.len() && s[j].command@ == c;
                assert(t[j].command@ == c);
            }
            if c == e.command@ {
                assert(t[i].command@ == c);
            }
        }
    } else {
        assert forall|a: int, b: int| 0 <= a < b < t.len() implies t[a].command@ != t[b].command@ by {
            if b == s.len() {
                assert(t[a] == s[a]);
            }
        }
        assert forall|c: Seq<char>| #[trigger] has_command(t, c) <==> (has_command(s, c) || c == e.command@) by {
            if has_command(t, c) {
                let j = choose|j: int| 0 <= j < t.len() && t[j].command@ == c;
                if j < s.len() {
                    assert(s[j].command@ == c);
                }
            }
            if has_command(s, c) {
                let j = choose|j: int| 0 <= j < s.len() && s[j].command@ == c;
                assert(t[j].command@ == c);
            }
            if c == e.command@ {
                assert(t[s.len() as int].command@ == c);
            }
        }
    }
}

/// The history after recording `adds` in order, starting empty (as after
/// `new` or `clear`).
pub open spec fn history_of(adds: Seq<HistoryEntry>) -> Seq<HistoryEntry>
    decreases adds.len(),
{
    if adds.len() == 0 {
        Seq::empty()
    } else {
        history_add(history_of(adds.drop_last()), adds.last())
    }
}

/// After recording `adds` from an empty history, the history holds one entry
/// per distinct command recorded: its commands are unique, and a command is
/// present exactly when it was recorded.
pub proof fn lemma_history_of(adds: Seq<HistoryEntry>)
    ensures
        commands_unique(history_of(adds)),
        forall|c: Seq<char>|
            #[trigger] has_command(history_of(adds), c) <==> exists|k: int| 0 <= k < adds.len() && adds[k].command@ == c,
    decreases adds.len(),
{
    if adds.len() > 0 {
        let p = adds.drop_last();
        lemma_history_of(p);
        lemma_add_effects(history_of(p), adds.last());
        assert forall|c: Seq<char>|
            #[trigger] has_command(history_of(adds), c) <==> exists|k: int| 0 <= k < adds.len() && adds[k].command@ == c by {
            if has_command(history_of(p), c) {
                let k = choose|k: int| 0 <= k < p.len() && p[k].command@ == c;
                assert(adds[k].command@ == c);
            }
            if c == adds.last().command@ {
                assert(adds[adds.len() - 1].command@ == c);
            }
            if exists|k: int| 0 <= k < adds.len() && adds[k].command@ == c {
                let k = choose|k: int| 0 <= k < adds.len() && adds[k].command@ == c;
                if k < adds.len() - 1 {
                    assert(p[k].command@ == c);
                }
            }
        }
    } else {
        assert forall|c: Seq<char>| #[trigger] has_command(history_of(adds), c) <==> exists|k: int|
            0 <= k < adds.len() && adds[k].command@ == c by {}
    }
}

/// Some search result carries command `c`.
pub open spec fn lists_command(r: Seq<SearchRank>, c: Seq<char>) -> bool {
    exists|p: int| 0 <= p < r.len() && r[p].command@ == c
}

/// The entries matching `query`, in history order.
pub open spec fn matching(s: Seq<HistoryEntry>, query: Seq<char>) -> Seq<HistoryEntry> {
    s.filter(|e: HistoryEntry| fuzzy_match(e.command@, query))
}

/// The directory is inside the hint directory or contains it (by prefix).
pub open spec fn cwd_related(cwd: Seq<char>, hint: Option<Seq<char>>) -> bool {
    match hint {
        Some(h) => seq_starts_with(cwd, h) || seq_starts_with(h, cwd),
        None => false,
    }
}

/// The search score of an entry: 10 for matching, 20 more for an exact
/// (case-insensitive) match, twice its run count, and 15 when its directory is
/// related to the hint.
pub open spec fn search_score(e: HistoryEntry, query: Seq<char>, hint: Option<Seq<char>>) -> u64 {
    (10 + (if lowercase(e.command@) == lowercase(query) {
        20int
    } else {
        0int
    }) + 2 * e.frequency + (if cwd_related(e.cwd@, hint) {
        15int
    } else {
        0int
    })) as u64
}

/// Among entries with the same run count and the same directory bonus, an
/// exact (case-insensitive) match with the query scores higher than any
/// other match.
pub proof fn lemma_exact_match_scores_higher(
    a: HistoryEntry,
    b: HistoryEntry,
    query: Seq<char>,
    hint: Option<Seq<char>>,
)
    requires
        a.frequency == b.frequency,
        cwd_related(a.cwd@, hint) == cwd_related(b.cwd@, hint),
        lowercase(a.command@) == lowercase(query),
        lowercase(b.command@) != lowercase(query),
    ensures
        search_score(a, query, hint) > search_score(b, query, hint),
{
}

/// The directory bonus: an entry whose directory lies inside the hint
/// directory, or contains it, scores 15 points more than without a hint; any
/// other entry scores the same.
pub proof fn lemma_directory_bonus(e: HistoryEntry, query: Seq<char>, h: Seq<char>)
    ensures
        ((h.len() <= e.cwd@.len() && e.cwd@.subrange(0, h.len() as int) == h) || (e.cwd@.len() <= h.len()
            && h.subrange(0, e.cwd@.len() as int) == e.cwd@)) ==> search_score(e, query, Some(h)) == search_score(
            e,
            query,
            None,
        ) + 15,
        !((h.len() <= e.cwd@.len() && e.cwd@.subrange(0, h.len() as int) == h) || (e.cwd@.len() <= h.len()
            && h.subrange(0, e.cwd@.len() as int) == e.cwd@)) ==> search_score(e, query, Some(h)) == search_score(
            e,
            query,
            None,
        ),
{
}

/// The ranking keys of the matching entries.
pub open spec fn score_keys(m: Seq<HistoryEntry>, query: Seq<char>, hint: Option<Seq<char>>) -> Seq<u128> {
    m.map_values(|e: HistoryEntry| search_score(e, query, hint) as u128)
}

/// The run counts of the entries, as ranking keys.
pub open spec fn frequency_keys(s: Seq<HistoryEntry>) -> Seq<u128> {
    s.map_values(|e: HistoryEntry| e.frequency as u128)
}

/// The timestamps of the entries, as ranking keys.
pub open spec fn time_keys(s: Seq<HistoryEntry>) -> Seq<u128> {
    s.map_values(|e: HistoryEntry| e.timestamp as u128)
}

/// The characters of an optional string slice.
pub open spec fn opt_str_view(o: Option<&str>) -> Option<Seq<char>> {
    match o {
        Some(s) => Some(s@),
        None => None,
    }
}

/// Smart history manager with typo-tolerant search and context awareness.
/// Each command is kept once, with the number of times it was run.
pub struct SmartHistory {
    entries: Vec<HistoryEntry>,
}

impl View for SmartHistory {
    type V = Seq<HistoryEntry>;

    closed spec fn view(&self) -> Seq<HistoryEntry> {
        self.entries@
    }
}

/// A copy of `e` with the same field values.
fn copy_entry(e: &HistoryEntry) -> (r: HistoryEntry)
    ensures
        r == *e,
{
    HistoryEntry {
        command: e.command.clone(),
        cwd: e.cwd.clone(),
        exit_code: e.exit_code,
        timestamp: e.timestamp,
        frequency: e.frequency,
    }
}

impl SmartHistory {
    #[verifier::type_invariant]
    spec fn unique_commands(self) -> bool {
        commands_unique(self.entries@)
    }

    /// Create a new empty history.
    pub fn new() -> (r: Self)
        ensures
            r@ == Seq::<HistoryEntry>::empty(),
    {
        SmartHistory { entries: Vec::new() }
    }

    /// Add a command to history: a command seen before is counted once
    /// more, a new command is appended.
    pub fn add(&mut self, entry: HistoryEntry)
        requires
            can_add(old(self)@, entry),
        ensures
            final(self)@ == history_add(old(self)@, entry),
            commands_unique(old(self)@),
            commands_unique(final(self)@),
    {
        proof {
            use_type_invariant(&*self);
        }
        let ghost s = self@;
        let mut entries: Vec<HistoryEntry> = Vec::new();
        std::mem::swap(&mut entries, &mut self.entries);
        let mut i: usize = 0;
        while i < entries.len()
            invariant
                entries@ == s,
                s == old(self)@,
                can_add(s, entry),
                commands_unique(s),
                i <= entries.len(),
                forall|j: int| 0 <= j < i ==> s[j].command@ != entry.command@,
            decreases entries.len() - i,
        {
            if entries[i].command == entry.command {
                proof {
                    let k = command_index(s, entry.command@);
                    assert(s[i as int].command@ == entry.command@);
                    if k != i {
                        assert(s[k].command@ == entry.command@);
                    }
                }
                let mut e = copy_entry(&entries[i]);
                e.increment_frequency();
                entries.set(i, e);
                assert(entries@ =~= history_add(s, entry));
                assert forall|a: int, b: int| 0 <= a < b < entries@.len() implies entries@[a].command@
                    != entries@[b].command@ by {
                    assert(s[a].command@ != s[b].command@);
                }
                self.entries = entries;
                return;
            }
            i = i + 1;
        }
        assert(!has_command(s, entry.command@));
        entries.push(entry);
        assert(entries@ =~= history_add(s, entry));
        self.entries = entries;
    }

    /// Search history with typo-tolerant matching, best results first: by
    /// score, and in history order among equal scores.
    pub fn search(&self, query: &str, cwd_hint: Option<&str>) -> (r: Vec<SearchRank>)
        ensures
            ({
                let m = matching(self@, query@);
                let keys = score_keys(m, query@, opt_str_view(cwd_hint));
                let o = desc_rank(keys);
                &&& r.len() == m.len()
                &&& forall|k: int|
                    0 <= k < r.len() ==> {
                        let e = #[trigger] m[o[k] as int];
                        &&& r@[k].command@ == e.command@
                        &&& r@[k].cwd@ == e.cwd@
                        &&& r@[k].score == search_score(e, query@, opt_str_view(cwd_hint))
                        &&& r@[k].frequency == e.frequency
                    }
                &&& forall|j: int| 0 <= j < m.len() ==> lists_command(r@, (#[trigger] m[j]).command@)
            }),
            forall|k: int, l: int| 0 <= k < l < r.len() ==> #[trigger] r@[k].score >= #[trigger] r@[l].score,
            forall|k: int, l: int| 0 <= k < l < r.len() ==> #[trigger] r@[k].command@ != #[trigger] r@[l].command@,
    {
        proof {
            use_type_invariant(self);
        }
        let ghost s = self@;
        let ghost hint = opt_str_view(cwd_hint);
        let lq = to_lowercase(query);
        let mut picked: Vec<usize> = Vec::new();
        let mut keys: Vec<u128> = Vec::new();
        let mut i: usize = 0;
        while i < self.entries.len()
            invariant
                s == self.entries@,
                hint == opt_str_view(cwd_hint),
                lq@ == lowercase(query@),
                i <= s.len(),
                commands_unique(s),
                forall|a: int, b: int| 0 <= a < b < picked@.len() ==> #[trigger] picked@[a] < #[trigger] picked@[b],
                picked@.len() == matching(s.take(i as int), query@).len(),
                forall|j: int| 0 <= j < picked@.len() ==> #[trigger] picked@[j] < i,
                forall|j: int|
                    0 <= j < picked@.len() ==> s[#[trigger] picked@[j] as int] == matching(
                        s.take(i as int),
                        query@,
                    )[j],
                keys@ == score_keys(matching(s.take(i as int), query@), query@, hint),
            decreases s.len() - i,
        {
            proof {
                reveal(Seq::filter);
                assert(s.take(i + 1).drop_last() =~= s.take(i as int));
            }
            let e = &self.entries[i];
            let ghost before = matching(s.take(i as int), query@);
            if e.matches(query) {
                let exact = to_lowercase(e.command.as_str()) == lq;
                let related = match cwd_hint {
                    Some(h) => str_starts_with(e.cwd.as_str(), h) || str_starts_with(h, e.cwd.as_str()),
                    None => false,
                };
                let mut score: u64 = 10 + 2 * (e.frequency as u64);
                if exact {
                    score = score + 20;
                }
                if related {
                    score = score + 15;
                }
                assert(score == search_score(*e, query@, hint));
                picked.push(i);
                keys.push(score as u128);
                proof {
                    assert(matching(s.take(i + 1), query@) == before.push(s[i as int]));
                    assert(keys@ =~= score_keys(matching(s.take(i + 1), query@), query@, hint));
                }
            } else {
                proof {
                    assert(matching(s.take(i + 1), query@) == before);
                }
            }
            i = i + 1;
        }
        proof {
            assert(s.take(s.len() as int) =~= s);
        }
        let ghost m = matching(s, query@);
        proof {
            assert forall|a: int, b: int| 0 <= a < b < m.len() implies #[trigger] m[a].command@ != #[trigger] m[b].command@ by {
                assert(picked@[a] < picked@[b]);
                assert(s[picked@[a] as int] == m[a] && s[picked@[b] as int] == m[b]);
            }
        }
        let order = rank_desc(&keys);
        let mut r: Vec<SearchRank> = Vec::new();
        let mut k: usize = 0;
        while k < order.len()
            invariant
                s == self.entries@,
                m == matching(s, query@),
                hint == opt_str_view(cwd_hint),
                picked@.len() == m.len(),
                forall|a: int, b: int| 0 <= a < b < m.len() ==> #[trigger] m[a].command@ != #[trigger] m[b].command@,
                forall|j: int| 0 <= j < picked@.len() ==> #[trigger] picked@[j] < s.len(),
                forall|j: int| 0 <= j < picked@.len() ==> s[#[trigger] picked@[j] as int] == m[j],
                keys@ == score_keys(m, query@, hint),
                is_desc_rank(keys@, order@),
                order@ == desc_rank(keys@),
                k <= order.len(),
                r.len() == k,
                forall|t: int|
                    0 <= t < k ==> {
                        let e = #[trigger] m[order@[t] as int];
                        &&& r@[t].command@ == e.command@
                        &&& r@[t].cwd@ == e.cwd@
                        &&& r@[t].score == search_score(e, query@, hint)
                        &&& r@[t].frequency == e.frequency
                    },
            decreases order.len() - k,
        {
            let j = order[k];
            assert(j < keys@.len());
            let idx = picked[j];
            let e = &self.entries[idx];
            let score = keys[j] as u64;
            r.push(SearchRank::new(e.command.clone(), e.cwd.clone(), score, e.frequency));
            k = k + 1;
        }
        proof {
            assert forall|a: int, b: int| 0 <= a < b < r.len() implies #[trigger] r@[a].score >= #[trigger] r@[b].score by {
                assert(ranks_before(keys@, order@[a], order@[b]));
                assert(keys@[order@[a] as int] == search_score(m[order@[a] as int], query@, hint) as u128);
                assert(keys@[order@[b] as int] == search_score(m[order@[b] as int], query@, hint) as u128);
            }
            lemma_rank_distinct(keys@, order@);
            assert forall|a: int, b: int| 0 <= a < b < r.len() implies #[trigger] r@[a].command@ != #[trigger] r@[b].command@ by {
                assert(order@[a] != order@[b]);
                assert(r@[a].command@ == m[order@[a] as int].command@);
                assert(r@[b].command@ == m[order@[b] as int].command@);
                if order@[a] < order@[b] {
                    assert(m[order@[a] as int].command@ != m[order@[b] as int].command@);
                } else {
                    assert(m[order@[b] as int].command@ != m[order@[a] as int].command@);
                }
            }
            assert(m == matching(self@, query@));
            assert forall|j: int| 0 <= j < m.len() implies lists_command(r@, (#[trigger] m[j]).command@) by {
                assert(listed(order@, j as usize));
                let p = choose|p: int| 0 <= p < order@.len() && #[trigger] order@[p] == j as usize;
                assert(0 <= p < r.len());
                assert(r@[p].command@ == m[j].command@);
            }
        }
        r
    }

    /// The `limit` most frequent commands with their run counts, most
    /// frequent first and in history order among equal counts.
    pub fn get_frequent_commands(&self, limit: usize) -> (r: Vec<(String, u32)>)
        ensures
            ({
                let o = desc_rank(frequency_keys(self@));
                &&& r.len() == if limit < self@.len() {
                    limit as int
                } else {
                    self@.len() as int
                }
                &&& forall|k: int|
                    0 <= k < r.len() ==> r@[k].0@ == (#[trigger] self@[o[k] as int]).command@ && r@[k].1
                        == self@[o[k] as int].frequency
            }),
            forall|k: int, l: int| 0 <= k < l < r.len() ==> #[trigger] r@[k].1 >= #[trigger] r@[l].1,
    {
        let keys = self.frequency_keys_of();
        let order = rank_desc(&keys);
        let n = if limit < order.len() {
            limit
        } else {
            order.len()
        };
        let mut r: Vec<(String, u32)> = Vec::new();
        let mut k: usize = 0;
        while k < n
            invariant
                keys@ == frequency_keys(self@),
                is_desc_rank(keys@, order@),
                order@ == desc_rank(keys@),
                n <= order.len(),
                k <= n,
                r.len() == k,
                self@ == self.entries@,
                forall|t: int|
                    0 <= t < k ==> r@[t].0@ == (#[trigger] self@[order@[t] as int]).command@ && r@[t].1
                        == self@[order@[t] as int].frequency,
            decreases n - k,
        {
            let e = &self.entries[order[k]];
            r.push((e.command.clone(), e.frequency));
            k = k + 1;
        }
        proof {
            assert forall|a: int, b: int| 0 <= a < b < r.len() implies #[trigger] r@[a].1 >= #[trigger] r@[b].1 by {
                assert(ranks_before(keys@, order@[a], order@[b]));
                assert(keys@[order@[a] as int] == self@[order@[a] as int].frequency as u128);
                assert(keys@[order@[b] as int] == self@[order@[b] as int].frequency as u128);
            }
        }
        r
    }

    /// The `limit` most recent entries, newest first and in history order
    /// among equal times.
    pub fn get_recent(&self, limit: usize) -> (r: Vec<&HistoryEntry>)
        ensures
            ({
                let o = desc_rank(time_keys(self@));
                &&& r.len() == if limit < self@.len() {
                    limit as int
                } else {
                    self@.len() as int
                }
                &&& forall|k: int| 0 <= k < r.len() ==> *r@[k] == #[trigger] self@[o[k] as int]
                &&& forall|k: int, l: int|
                    #![trigger r@[k], r@[l]]
                    0 <= k < l < r.len() && r@[k].timestamp == r@[l].timestamp ==> o[k] < o[l]
            }),
            forall|k: int, l: int| 0 <= k < l < r.len() ==> #[trigger] r@[k].timestamp >= #[trigger] r@[l].timestamp,
            forall|k: int, l: int| 0 <= k < l < r.len() ==> #[trigger] r@[k].command@ != #[trigger] r@[l].command@,
            forall|i: int|
                0 <= i < self@.len() && r.len() > 0 && (forall|k: int| 0 <= k < r.len() ==> r@[k].command@
                    != self@[i].command@) ==> (#[trigger] self@[i]).timestamp <= r@[r.len() - 1].timestamp,
    {
        proof {
            use_type_invariant(self);
        }
        let keys = self.time_keys_of();
        let order = rank_desc(&keys);
        let n = if limit < order.len() {
            limit
        } else {
            order.len()
        };
        let mut r: Vec<&HistoryEntry> = Vec::new();
        let mut k: usize = 0;
        while k < n
            invariant
                keys@ == time_keys(self@),
                is_desc_rank(keys@, order@),
                order@ == desc_rank(keys@),
                n <= order.len(),
                k <= n,
                r.len() == k,
                self@ == self.entries@,
                forall|t: int| 0 <= t < k ==> *r@[t] == #[trigger] self@[order@[t] as int],
            decreases n - k,
        {
            r.push(&self.entries[order[k]]);
            k = k + 1;
        }
        proof {
            assert forall|a: int, b: int| 0 <= a < b < r.len() implies #[trigger] r@[a].timestamp >= #[trigger] r@[b].timestamp
                && (r@[a].timestamp == r@[b].timestamp ==> order@[a] < order@[b]) by {
                assert(ranks_before(keys@, order@[a], order@[b]));
                assert(keys@[order@[a] as int] == self@[order@[a] as int].timestamp as u128);
                assert(keys@[order@[b] as int] == self@[order@[b] as int].timestamp as u128);
            }
            lemma_rank_distinct(keys@, order@);
            assert forall|a: int, b: int| 0 <= a < b < r.len() implies #[trigger] r@[a].command@ != #[trigger] r@[b].command@ by {
                assert(order@[a] != order@[b]);
                if order@[a] < order@[b] {
                    assert(self@[order@[a] as int].command@ != self@[order@[b] as int].command@);
                } else {
                    assert(self@[order@[b] as int].command@ != self@[order@[a] as int].command@);
                }
            }
            assert forall|i: int|
                0 <= i < self@.len() && r.len() > 0 && (forall|k: int| 0 <= k < r.len() ==> r@[k].command@
                    != self@[i].command@) implies (#[trigger] self@[i]).timestamp <= r@[r.len() - 1].timestamp by {
                assert forall|k: int| 0 <= k < n implies #[trigger] order@[k] != i as usize by {
                    assert(r@[k].command@ != self@[i].command@);
                }
                lemma_rank_prefix_dominates(keys@, order@, n as int, i as usize);
                assert(keys@[i] == self@[i].timestamp as u128);
                assert(keys@[order@[n - 1] as int] == self@[order@[n - 1] as int].timestamp as u128);
            }
        }
        r
    }

    /// The run counts as ranking keys.
    fn frequency_keys_of(&self) -> (r: Vec<u128>)
        ensures
            r@ == frequency_keys(self@),
    {
        let mut r: Vec<u128> = Vec::new();
        let mut i: usize = 0;
        while i < self.entries.len()
            invariant
                i <= self.entries.len(),
                r@ == frequency_keys(self.entries@.take(i as int)),
            decreases self.entries.len() - i,
        {
            r.push(self.entries[i].frequency as u128);
            i = i + 1;
            assert(r@ =~= frequency_keys(self.entries@.take(i as int)));
        }
        assert(self.entries@.take(i as int) =~= self.entries@);
        r
    }

    /// The timestamps as ranking keys.
    fn time_keys_of(&self) -> (r: Vec<u128>)
        ensures
            r@ == time_keys(self@),
    {
        let mut r: Vec<u128> = Vec::new();
        let mut i: usize = 0;
        while i < self.entries.len()
            invariant
                i <= self.entries.len(),
                r@ == time_keys(self.entries@.take(i as int)),
            decreases self.entries.len() - i,
        {
            r.push(self.entries[i].timestamp as u128);
            i = i + 1;
            assert(r@ =~= time_keys(self.entries@.take(i as int)));
        }
        assert(self.entries@.take(i as int) =~= self.entries@);
        r
    }

    /// Clear all history.
    pub fn clear(&mut self)
        ensures
            final(self)@ == Seq::<HistoryEntry>::empty(),
    {
        self.entries = Vec::new();
    }

    /// The number of distinct commands.
    pub fn len(&self) -> (r: usize)
        ensures
            r == self@.len(),
    {
        self.entries.len()
    }

    /// Whether the history is empty.
    pub fn is_empty(&self) -> (r: bool)
        ensures
            r == (self@.len() == 0),
    {
        self.entries.len() == 0
    }
}

impl Default for SmartHistory {
    /// An empty history.
    fn default() -> (r: Self)
        ensures
            r@ == Seq::<HistoryEntry>::empty(),
    {
        Self::new()
    }
}

} // verus!
