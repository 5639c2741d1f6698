//! The recent-connections log: the hosts last connected to, the most
//! recent first.

use vstd::prelude::*;
use crate::clock::unix_seconds;

verus! {

/// How many connections the log keeps.
pub const RECENT_LIMIT: usize = 5;

/// One connection: the host, its description, and when it was made, in
/// seconds since the Unix epoch.
#[derive(Clone, Debug, PartialEq, Eq)]
pub struct RecentConnection {
    pub hostname: String,
    pub description: String,
    pub timestamp: u64,
}

/// What a `RecentConnection` stands for in contracts.
pub struct RecentConnectionText {
    pub hostname: Seq<char>,
    pub description: Seq<char>,
    pub timestamp: u64,
}

impl View for RecentConnection {
    type V = RecentConnectionText;

    open spec fn view(&self) -> RecentConnectionText {
        RecentConnectionText {
            hostname: self.hostname@,
            description: self.description@,
            timestamp: self.timestamp,
        }
    }
}

/// The log of recent connections, the most recent first.
#[derive(Clone, Debug, PartialEq, Eq)]
pub struct RecentConnections {
    pub connections: Vec<RecentConnection>,
}

impl View for RecentConnections {
    type V = Seq<RecentConnectionText>;

    open spec fn view(&self) -> Seq<RecentConnectionText> {
        Seq::new(self.connections@.len(), |i: int| self.connections@[i]@)
    }
}

/// The log after `entry` is recorded: the entry first, then the earlier
/// connections to other hosts in their order, cut to the limit.
pub open spec fn recorded(
    log: Seq<RecentConnectionText>,
    entry: RecentConnectionText,
) -> Seq<RecentConnectionText> {
    let others = log.filter(|c: RecentConnectionText| c.hostname != entry.hostname);
    let all = seq![entry] + others;
    if all.len() > RECENT_LIMIT {
        all.take(RECENT_LIMIT as int)
    } else {
        all
    }
}

/// After a connection is recorded it stands first, the log holds no
/// other connection to its host, and no more than `RECENT_LIMIT`
/// connections in all.
pub proof fn lemma_recorded(log: Seq<RecentConnectionText>, entry: RecentConnectionText)
    ensures
        0 < recorded(log, entry).len() <= RECENT_LIMIT,
        recorded(log, entry)[0] == entry,
        forall|i: int|
            0 < i < recorded(log, entry).len() ==> (#[trigger] recorded(log, entry)[i]).hostname
                != entry.hostname,
        forall|i: int|
            0 < i < recorded(log, entry).len() ==> log.contains(#[trigger] recorded(log, entry)[i]),
{
    let other = |c: RecentConnectionText| c.hostname != entry.hostname;
    let others = log.filter(other);
    let all = seq![entry] + others;
    assert forall|i: int| 0 < i < recorded(log, entry).len() implies (#[trigger] recorded(
        log,
        entry,
    )[i]).hostname != entry.hostname && log.contains(recorded(log, entry)[i]) by {
        assert(recorded(log, entry)[i] == others[i - 1]);
        log.lemma_filter_pred(other, i - 1);
        assert(others.contains(others[i - 1]));
        log.lemma_filter_contains_rev(other, others[i - 1]);
    }
}

impl RecentConnections {
    /// An empty log.
    pub fn new() -> (log: RecentConnections)
        ensures
            log@ == Seq::<RecentConnectionText>::empty(),
    {
        let log = RecentConnections { connections: Vec::new() };
        assert(log@ =~= Seq::<RecentConnectionText>::empty());
        log
    }

    /// Records a connection made at `timestamp`. An earlier connection to
    /// the same host gives way to the new one; of more than
    /// `RECENT_LIMIT` connections the oldest are dropped.
    pub fn add_connection_at(&mut self, hostname: String, description: String, timestamp: u64)
        ensures
            final(self)@ == recorded(
                old(self)@,
                RecentConnectionText {
                    hostname: hostname@,
                    description: description@,
                    timestamp,
                },
            ),
    {
        let ghost before = self@;
        let ghost entry = RecentConnectionText {
            hostname: hostname@,
            description: description@,
            timestamp,
        };
        let ghost other = |c: RecentConnectionText| c.hostname != entry.hostname;
        let mut earlier: Vec<RecentConnection> = Vec::new();
        core::mem::swap(&mut self.connections, &mut earlier);
        let mut kept: Vec<RecentConnection> = Vec::new();
        let mut i: usize = 0;
        assert(before.take(0) =~= Seq::<RecentConnectionText>::empty());
        while i < earlier.len()
            invariant
                i <= earlier@.len(),
                before == Seq::new(earlier@.len(), |k: int| earlier@[k]@),
                other == |c: RecentConnectionText| c.hostname != hostname@,
                Seq::new(kept@.len(), |k: int| kept@[k]@) == before.take(i as int).filter(other),
            decreases earlier@.len() - i,
        {
            let ghost held = Seq::new(kept@.len(), |k: int| kept@[k]@);
            proof {
                assert(before.take(i + 1).drop_last() =~= before.take(i as int));
                assert(before.take(i + 1).last() == earlier@[i as int]@);
                reveal(Seq::filter);
            }
            if earlier[i].hostname != hostname {
                let c = &earlier[i];
                kept.push(
                    RecentConnection {
                        hostname: c.hostname.clone(),
                        description: c.description.clone(),
                        timestamp: c.timestamp,
                    },
                );
                assert(Seq::new(kept@.len(), |k: int| kept@[k]@) =~= held.push(
                    earlier@[i as int]@,
                ));
            }
            i += 1;
        }
        assert(before.take(i as int) =~= before);
        let ghost others = before.filter(other);
        self.connections.push(RecentConnection { hostname, description, timestamp });
        self.connections.append(&mut kept);
        assert(self@ =~= seq![entry] + others);
        if self.connections.len() > RECENT_LIMIT {
            self.connections.truncate(RECENT_LIMIT);
            assert(self@ =~= (seq![entry] + others).take(RECENT_LIMIT as int));
        }
    }

    /// Records a connection made now, by the machine's clock; a clock
    /// that stands before the Unix epoch counts as the epoch.
    pub fn add_connection(&mut self, hostname: String, description: String)
        ensures
            exists|timestamp: u64|
                final(self)@ == recorded(
                    old(self)@,
                    RecentConnectionText {
                        hostname: hostname@,
                        description: description@,
                        timestamp,
                    },
                ),
    {
        let timestamp = match unix_seconds() {
            Some(seconds) => seconds,
            None => 0,
        };
        self.add_connection_at(hostname, description, timestamp);
    }
}

} // verus!
