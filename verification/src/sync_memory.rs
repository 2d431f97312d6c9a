//! The last sync outcome of each repository, kept in memory for the operator's view.

use vstd::prelude::*;

use crate::error::{redact_secrets, redact_spec};
use crate::git::WorktreeAction;
use crate::text::{decimal, owned, push_str, str_eq, u64_decimal};

verus! {

/// How a sync ended.
#[derive(Debug, Clone, Copy, PartialEq, Eq, Structural)]
pub enum SyncOutcome {
    Success,
    Failed,
    Partial,
}

/// The last sync of one repository.
#[derive(Debug, Clone)]
pub struct LastSync {
    pub outcome: SyncOutcome,
    pub message: String,
    /// When it ended, in milliseconds since the Unix epoch (UTC).
    pub at: i64,
    pub skipped_dirty: usize,
    pub skipped_diverged: usize,
}

pub struct LastSyncView {
    pub outcome: SyncOutcome,
    pub message: Seq<char>,
    pub at: i64,
    pub skipped_dirty: usize,
    pub skipped_diverged: usize,
}

impl View for LastSync {
    type V = LastSyncView;

    open spec fn view(&self) -> LastSyncView {
        LastSyncView {
            outcome: self.outcome,
            message: self.message@,
            at: self.at,
            skipped_dirty: self.skipped_dirty,
            skipped_diverged: self.skipped_diverged,
        }
    }
}

/// The CSS class of an outcome's chip.
pub open spec fn chip_class_spec(o: SyncOutcome) -> Seq<char> {
    match o {
        SyncOutcome::Success => "ok"@,
        SyncOutcome::Partial => "warn"@,
        SyncOutcome::Failed => "dirty"@,
    }
}

/// The word shown for an outcome.
pub open spec fn label_spec(o: SyncOutcome) -> Seq<char> {
    match o {
        SyncOutcome::Success => "ok"@,
        SyncOutcome::Partial => "partial"@,
        SyncOutcome::Failed => "failed"@,
    }
}

impl LastSync {
    /// The CSS class of the outcome's chip.
    pub fn chip_class(&self) -> (r: &'static str)
        ensures
            r@ == chip_class_spec(self.outcome),
    {
        match self.outcome {
            SyncOutcome::Success => "ok",
            SyncOutcome::Partial => "warn",
            SyncOutcome::Failed => "dirty",
        }
    }

    /// The word shown for the outcome.
    pub fn label(&self) -> (r: &'static str)
        ensures
            r@ == label_spec(self.outcome),
    {
        match self.outcome {
            SyncOutcome::Success => "ok",
            SyncOutcome::Partial => "partial",
            SyncOutcome::Failed => "failed",
        }
    }

    /// Whether the sync failed.
    pub fn is_failed(&self) -> (r: bool)
        ensures
            r == (self.outcome == SyncOutcome::Failed),
    {
        self.outcome == SyncOutcome::Failed
    }
}

// ---------------------------------------------------------------- outcomes
/// How many of `s` are `a`.
pub open spec fn count_action(s: Seq<WorktreeAction>, a: WorktreeAction) -> nat
    decreases s.len(),
{
    if s.len() == 0 {
        0
    } else {
        count_action(s.drop_last(), a) + if s.last() == a {
            1nat
        } else {
            0nat
        }
    }
}

/// The actions of a list of (agent, action) pairs.
pub open spec fn actions_of(s: Seq<(String, WorktreeAction)>) -> Seq<WorktreeAction> {
    s.map_values(|p: (String, WorktreeAction)| p.1)
}

/// The message of a successful sync that skipped `dirty` and `diverged` worktrees.
pub open spec fn ok_message(dirty: nat, diverged: nat) -> Seq<char> {
    if dirty == 0 && diverged == 0 {
        "synced"@
    } else {
        "synced with skips (dirty="@ + decimal(dirty) + ", diverged="@ + decimal(diverged) + ")"@
    }
}

/// The record of a successful sync with these per-worktree actions, ended at `at`.
pub open spec fn ok_entry(actions: Seq<WorktreeAction>, at: i64) -> LastSyncView {
    let dirty = count_action(actions, WorktreeAction::SkippedDirty);
    let diverged = count_action(actions, WorktreeAction::SkippedDiverged);
    LastSyncView {
        outcome: if dirty + diverged > 0 {
            SyncOutcome::Partial
        } else {
            SyncOutcome::Success
        },
        message: ok_message(dirty, diverged),
        at,
        skipped_dirty: dirty as usize,
        skipped_diverged: diverged as usize,
    }
}

proof fn lemma_count_positive(s: Seq<WorktreeAction>, a: WorktreeAction)
    ensures
        count_action(s, a) > 0 <==> exists|i: int| 0 <= i < s.len() && #[trigger] s[i] == a,
    decreases s.len(),
{
    if s.len() > 0 {
        lemma_count_positive(s.drop_last(), a);
        if exists|i: int| 0 <= i < s.len() && #[trigger] s[i] == a {
            let i = choose|i: int| 0 <= i < s.len() && #[trigger] s[i] == a;
            if i < s.len() - 1 {
                assert(s.drop_last()[i] == a);
            }
        }
        if exists|i: int| 0 <= i < s.drop_last().len() && #[trigger] s.drop_last()[i] == a {
            let i = choose|i: int| 0 <= i < s.drop_last().len() && #[trigger] s.drop_last()[i] == a;
            assert(s[i] == a);
        }
    }
}

/// A successful sync is recorded as partial exactly when at least one worktree was
/// skipped (as dirty or as diverged), and as a full success otherwise; it is never
/// recorded as failed.
pub proof fn lemma_ok_outcome_partial_iff_skipped(actions: Seq<WorktreeAction>, at: i64)
    ensures
        (ok_entry(actions, at).outcome == SyncOutcome::Partial) <==> exists|i: int|
            0 <= i < actions.len() && (#[trigger] actions[i] == WorktreeAction::SkippedDirty
                || actions[i] == WorktreeAction::SkippedDiverged),
        (ok_entry(actions, at).outcome == SyncOutcome::Success) <==> forall|i: int|
            0 <= i < actions.len() ==> #[trigger] actions[i] != WorktreeAction::SkippedDirty
                && actions[i] != WorktreeAction::SkippedDiverged,
        ok_entry(actions, at).outcome != SyncOutcome::Failed,
{
    lemma_count_positive(actions, WorktreeAction::SkippedDirty);
    lemma_count_positive(actions, WorktreeAction::SkippedDiverged);
}

/// The record of a failed sync with error text `err`, ended at `at`: the text is kept
/// with its secrets redacted.
pub open spec fn err_entry(err: Seq<char>, at: i64) -> LastSyncView {
    LastSyncView {
        outcome: SyncOutcome::Failed,
        message: redact_spec(err),
        at,
        skipped_dirty: 0,
        skipped_diverged: 0,
    }
}

fn count_in(actions: &[(String, WorktreeAction)], a: WorktreeAction) -> (r: usize)
    ensures
        r == count_action(actions_of(actions@), a),
{
    let mut n: usize = 0;
    let mut i: usize = 0;
    while i < actions.len()
        invariant
            i <= actions@.len(),
            n == count_action(actions_of(actions@).subrange(0, i as int), a),
            n <= i,
        decreases actions@.len() - i,
    {
        let ghost s = actions_of(actions@);
        assert(s.subrange(0, i + 1).drop_last() == s.subrange(0, i as int));
        if actions[i].1 == a {
            n += 1;
        }
        i += 1;
    }
    assert(actions_of(actions@).subrange(0, i as int) == actions_of(actions@));
    n
}

/// Milliseconds since the Unix epoch by the UTC wall clock (`chrono::Utc::now`, read
/// with `timestamp_millis`). Nothing is promised of the value.
#[verifier::external_body]
fn utc_now_millis() -> i64 {
    chrono::Utc::now().timestamp_millis()
}

// ---------------------------------------------------------------- the memory
/// The map given by a list of (repository, record) pairs.
pub open spec fn keyed(s: Seq<(Seq<char>, LastSyncView)>) -> Map<Seq<char>, LastSyncView>
    decreases s.len(),
{
    if s.len() == 0 {
        Map::empty()
    } else {
        keyed(s.drop_last()).insert(s.last().0, s.last().1)
    }
}

pub open spec fn entry_views(v: Seq<(String, LastSync)>) -> Seq<(Seq<char>, LastSyncView)> {
    v.map_values(|p: (String, LastSync)| (p.0@, p.1@))
}

/// No repository appears twice.
pub open spec fn unique_keys(s: Seq<(Seq<char>, LastSyncView)>) -> bool {
    forall|i: int, j: int| 0 <= i < j < s.len() ==> #[trigger] s[i].0 != #[trigger] s[j].0
}

/// The last sync of each repository that has one.
pub struct SyncMemory {
    entries: Vec<(String, LastSync)>,
}

impl View for SyncMemory {
    type V = Map<Seq<char>, LastSyncView>;

    closed spec fn view(&self) -> Map<Seq<char>, LastSyncView> {
        keyed(entry_views(self.entries@))
    }
}

proof fn lemma_keyed_absent(s: Seq<(Seq<char>, LastSyncView)>, k: Seq<char>)
    requires
        forall|j: int| 0 <= j < s.len() ==> #[trigger] s[j].0 != k,
    ensures
        !keyed(s).contains_key(k),
    decreases s.len(),
{
    if s.len() > 0 {
        let t = s.drop_last();
        assert forall|j: int| 0 <= j < t.len() implies #[trigger] t[j].0 != k by {
            assert(t[j] == s[j]);
        }
        lemma_keyed_absent(t, k);
    }
}

proof fn lemma_keyed_at(s: Seq<(Seq<char>, LastSyncView)>, i: int)
    requires
        0 <= i < s.len(),
        unique_keys(s),
    ensures
        keyed(s).contains_key(s[i].0),
        keyed(s)[s[i].0] == s[i].1,
    decreases s.len(),
{
    if i < s.len() - 1 {
        let t = s.drop_last();
        assert forall|a: int, b: int| 0 <= a < b < t.len() implies #[trigger] t[a].0
            != #[trigger] t[b].0 by {
            assert(t[a] == s[a] && t[b] == s[b]);
        }
        assert(s[i].0 != s[s.len() - 1].0);
        lemma_keyed_at(t, i);
    }
}

proof fn lemma_keyed_update(s: Seq<(Seq<char>, LastSyncView)>, i: int, v: LastSyncView)
    requires
        0 <= i < s.len(),
        unique_keys(s),
    ensures
        keyed(s.update(i, (s[i].0, v))) == keyed(s).insert(s[i].0, v),
    decreases s.len(),
{
    let u = s.update(i, (s[i].0, v));
    if i == s.len() - 1 {
        assert(u.drop_last() == s.drop_last());
        assert(keyed(u) =~= keyed(s).insert(s[i].0, v));
    } else {
        let t = s.drop_last();
        assert forall|a: int, b: int| 0 <= a < b < t.len() implies #[trigger] t[a].0
            != #[trigger] t[b].0 by {
            assert(t[a] == s[a] && t[b] == s[b]);
        }
        lemma_keyed_update(t, i, v);
        assert(u.drop_last() == t.update(i, (t[i].0, v)));
        assert(u.last() == s.last());
        assert(s[i].0 != s.last().0);
        assert(keyed(u) =~= keyed(s).insert(s[i].0, v));
    }
}

impl SyncMemory {
    #[verifier::type_invariant]
    spec fn inv(self) -> bool {
        unique_keys(entry_views(self.entries@))
    }

    /// An empty memory.
    pub fn new() -> (r: SyncMemory)
        ensures
            r@ == Map::<Seq<char>, LastSyncView>::empty(),
    {
        let r = SyncMemory { entries: Vec::new() };
        assert(entry_views(r.entries@) =~= Seq::<(Seq<char>, LastSyncView)>::empty());
        r
    }

    fn index_of(&self, repo: &str) -> (r: Option<usize>)
        ensures
            match r {
                Some(i) => i < self.entries@.len() && self.entries@[i as int].0@ == repo@,
                None => forall|j: int|
                    0 <= j < self.entries@.len() ==> #[trigger] self.entries@[j].0@ != repo@,
            },
    {
        let mut i: usize = 0;
        while i < self.entries.len()
            invariant
                i <= self.entries@.len(),
                forall|j: int| 0 <= j < i ==> #[trigger] self.entries@[j].0@ != repo@,
            decreases self.entries@.len() - i,
        {
            if str_eq(self.entries[i].0.as_str(), repo) {
                return Some(i);
            }
            i += 1;
        }
        None
    }

    /// The last sync of `repo`, if it has one.
    pub fn get(&self, repo: &str) -> (r: Option<&LastSync>)
        ensures
            match r {
                Some(v) => self@.contains_key(repo@) && self@[repo@] == v@,
                None => !self@.contains_key(repo@),
            },
    {
        proof {
            use_type_invariant(self);
        }
        let ghost s = entry_views(self.entries@);
        match self.index_of(repo) {
            Some(i) => {
                proof {
                    lemma_keyed_at(s, i as int);
                }
                Some(&self.entries[i].1)
            },
            None => {
                proof {
                    assert forall|j: int| 0 <= j < s.len() implies #[trigger] s[j].0 != repo@ by {
                        assert(s[j].0 == self.entries@[j].0@);
                    }
                    lemma_keyed_absent(s, repo@);
                }
                None
            },
        }
    }

    fn put(&mut self, repo: &str, entry: LastSync)
        ensures
            final(self)@ == old(self)@.insert(repo@, entry@),
    {
        proof {
            use_type_invariant(&*self);
        }
        let ghost s = entry_views(self.entries@);
        let ghost ev = entry@;
        match self.index_of(repo) {
            Some(i) => {
                let key = self.entries[i].0.clone();
                let ghost old_entries = self.entries@;
                let mut entries = Vec::new();
                std::mem::swap(&mut entries, &mut self.entries);
                entries.set(i, (key, entry));
                proof {
                    assert(entry_views(entries@) =~= s.update(i as int, (s[i as int].0, ev)));
                    lemma_keyed_update(s, i as int, ev);
                    assert forall|a: int, b: int|
                        0 <= a < b < entries@.len() implies #[trigger] entry_views(entries@)[a].0
                        != #[trigger] entry_views(entries@)[b].0 by {
                        assert(entry_views(entries@)[a].0 == s[a].0);
                        assert(entry_views(entries@)[b].0 == s[b].0);
                    }
                }
                self.entries = entries;
            },
            None => {
                let mut entries = Vec::new();
                std::mem::swap(&mut entries, &mut self.entries);
                entries.push((owned(repo), entry));
                proof {
                    assert(entry_views(entries@) =~= s.push((repo@, ev)));
                    assert(entry_views(entries@).drop_last() == s);
                    assert forall|a: int, b: int|
                        0 <= a < b < entries@.len() implies #[trigger] entry_views(entries@)[a].0
                        != #[trigger] entry_views(entries@)[b].0 by {
                        assert(entry_views(entries@)[a].0 == s[a].0 || a == s.len());
                        if b == s.len() {
                            assert(s[a].0 == old(self).entries@[a].0@);
                        }
                    }
                }
                self.entries = entries;
            },
        }
    }

    /// Records a successful sync of `repo` with these per-worktree actions, ended at
    /// `at`.
    pub fn record_ok_at(&mut self, repo: &str, actions: &[(String, WorktreeAction)], at: i64)
        ensures
            final(self)@ == old(self)@.insert(repo@, ok_entry(actions_of(actions@), at)),
    {
        let skipped_dirty = count_in(actions, WorktreeAction::SkippedDirty);
        let skipped_diverged = count_in(actions, WorktreeAction::SkippedDiverged);
        let any = skipped_dirty > 0 || skipped_diverged > 0;
        let outcome = if any {
            SyncOutcome::Partial
        } else {
            SyncOutcome::Success
        };
        let message = if !any {
            owned("synced")
        } else {
            let mut m = owned("synced with skips (dirty=");
            push_str(&mut m, u64_decimal(skipped_dirty as u64).as_str());
            push_str(&mut m, ", diverged=");
            push_str(&mut m, u64_decimal(skipped_diverged as u64).as_str());
            push_str(&mut m, ")");
            m
        };
        let entry = LastSync { outcome, message, at, skipped_dirty, skipped_diverged };
        assert(entry@ == ok_entry(actions_of(actions@), at));
        self.put(repo, entry);
    }

    /// Records a successful sync of `repo` with these per-worktree actions, now.
    pub fn record_ok(&mut self, repo: &str, actions: &[(String, WorktreeAction)])
        ensures
            exists|at: i64| final(self)@ == old(self)@.insert(repo@, ok_entry(actions_of(actions@), at)),
    {
        let at = utc_now_millis();
        self.record_ok_at(repo, actions, at);
    }

    /// Records a failed sync of `repo` with error text `err`, ended at `at`.
    pub fn record_err_at(&mut self, repo: &str, err: &str, at: i64)
        ensures
            final(self)@ == old(self)@.insert(repo@, err_entry(err@, at)),
    {
        let entry = LastSync {
            outcome: SyncOutcome::Failed,
            message: redact_secrets(err),
            at,
            skipped_dirty: 0,
            skipped_diverged: 0,
        };
        self.put(repo, entry);
    }

    /// Records a failed sync of `repo` with error text `err`, now.
    pub fn record_err(&mut self, repo: &str, err: &str)
        ensures
            exists|at: i64| final(self)@ == old(self)@.insert(repo@, err_entry(err@, at)),
    {
        let at = utc_now_millis();
        self.record_err_at(repo, err, at);
    }
}

} // verus!
