use vstd::prelude::*;
use vstd::string::*;
use crate::error::Error;

verus! {

/// How many appended records the output sink takes between two forced syncs.
pub const SYNC_EVERY: u64 = 10;

/// The text stored in place of a definition whose fetch failed.
pub open spec fn failure_marker() -> Seq<char> {
    seq!['F', 'A', 'I', 'L', 'E', 'D']
}

/// The text stored for a definition fetch: the definition itself, or the
/// failure marker, so that every planned id yields one line.
pub fn stored_definition(def: Result<String, Error>) -> (r: String)
    ensures
        def is Ok ==> r@ == def->Ok_0@,
        def is Err ==> r@ == failure_marker(),
{
    match def {
        Ok(d) => d,
        Err(_) => {
            let r = String::from_str("FAILED");
            proof {
                reveal_strlit("FAILED");
            }
            assert(r@ =~= failure_marker());
            r
        },
    }
}

/// The durable output sink's bookkeeping: how many records were appended
/// and how many of them a sync made durable.
#[derive(Debug, Clone, Copy, PartialEq, Eq, Structural)]
pub struct SyncState {
    pub every: u64,
    pub appended: u64,
    pub synced: u64,
}

impl SyncState {
    /// Between syncs fewer than `every` appended records await one.
    pub open spec fn wf(&self) -> bool {
        &&& self.every > 0
        &&& self.synced <= self.appended
        &&& self.appended - self.synced < self.every
    }

    pub fn new(every: u64) -> (r: SyncState)
        requires
            every > 0,
        ensures
            r.wf(),
            r.every == every,
            r.appended == 0,
            r.synced == 0,
    {
        SyncState { every, appended: 0, synced: 0 }
    }

    /// Accounts for one appended record; `true` when the store must be
    /// synced now, which the state then records as done.
    pub fn record_appended(&mut self) -> (sync: bool)
        requires
            old(self).wf(),
            old(self).appended < u64::MAX,
        ensures
            final(self).wf(),
            final(self).every == old(self).every,
            final(self).appended == old(self).appended + 1,
            sync <==> final(self).appended - old(self).synced == old(self).every,
            sync ==> final(self).synced == final(self).appended,
            !sync ==> final(self).synced == old(self).synced,
    {
        self.appended = self.appended + 1;
        if self.appended - self.synced == self.every {
            self.synced = self.appended;
            true
        } else {
            false
        }
    }
}

/// Lines `0 .. synced` of the store: what a sync made durable.
pub open spec fn durable_lines(lines: Seq<Seq<char>>, s: SyncState) -> Seq<Seq<char>> {
    lines.subrange(0, s.synced as int)
}

/// After a sync, the durable part of the store is every record appended so
/// far, whole lines only; between syncs at most `every - 1` records can be
/// lost.
pub proof fn lemma_sync_bounds_loss(lines: Seq<Seq<char>>, s: SyncState)
    requires
        s.wf(),
        lines.len() == s.appended,
    ensures
        s.synced == s.appended ==> durable_lines(lines, s) == lines,
        lines.len() - durable_lines(lines, s).len() < s.every,
{
    if s.synced == s.appended {
        assert(lines.subrange(0, s.synced as int) =~= lines);
    }
}

} // verus!
