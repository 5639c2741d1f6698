//! The report of a reset: what was deleted, and what could not be.
//!
//! A reset deletes the global credential, sweeps the credentials of the
//! hosts, deletes the connection artifacts, clears the inventory and
//! forgets the recent connections. No step is given up because an
//! earlier one failed: each outcome becomes a line of the report.

use vstd::prelude::*;
use crate::text::{decimal, decimal_of};

verus! {

/// What begins the report.
pub const REPORT_HEADING: &'static str = "=== QuickRDP Application Reset ===\n\n";

/// What ends the report.
pub const REPORT_CLOSING: &'static str =
    "\n=== Reset Complete ===\nThe application has been reset to its initial state.\nPlease restart the application.\n";

/// One outcome of a reset, in the order in which the outcomes come about.
#[derive(Clone, Debug, PartialEq, Eq)]
pub enum ResetEvent {
    /// The global credential is deleted.
    GlobalCredentialDeleted,
    /// The global credential could not be deleted; the reason is attached.
    GlobalCredentialKept(String),
    /// That many credentials of hosts were found.
    HostCredentialsFound(u64),
    /// The credential under this scope key is about to be deleted.
    HostCredential(String),
    /// The credential named last could not be deleted; the reason is
    /// attached.
    HostCredentialKept(String),
    /// That many credentials of hosts were gone through.
    HostCredentialsProcessed(u64),
    /// The credentials of hosts could not be listed, or there are none;
    /// the reason is attached.
    HostCredentialsUnlisted(String),
    /// The connection artifacts lie in this directory.
    ArtifactsDirectory(String),
    /// The artifact of this name is deleted.
    ArtifactDeleted(String),
    /// The artifact of this name could not be deleted; the reason is
    /// attached.
    ArtifactKept(String, String),
    /// That many artifacts were deleted.
    ArtifactsDeleted(u64),
    /// The directory of the artifacts could not be read; the reason is
    /// attached.
    ArtifactsUnreadable(String),
    /// There is no directory of artifacts.
    ArtifactsAbsent,
    /// The inventory is cleared.
    InventoryCleared,
    /// The inventory could not be cleared; the reason is attached.
    InventoryKept(String),
    /// The recent connections are forgotten.
    RecentDeleted,
    /// The recent connections could not be forgotten; the reason is
    /// attached.
    RecentKept(String),
    /// There were no recent connections.
    RecentAbsent,
}

/// A credential of a host that the sweep came to, and why it could not
/// be deleted, if it could not.
#[derive(Clone, Debug, PartialEq, Eq)]
pub struct SweptCredential {
    pub scope_key: String,
    pub failure: Option<String>,
}

/// The outcomes of the sweep of one credential: that it was come to, and
/// after that, where its deletion failed, that it was kept.
pub open spec fn swept_events_of(swept: SweptCredential) -> Seq<ResetEvent> {
    match swept.failure {
        Some(reason) => seq![
            ResetEvent::HostCredential(swept.scope_key),
            ResetEvent::HostCredentialKept(reason),
        ],
        None => seq![ResetEvent::HostCredential(swept.scope_key)],
    }
}

/// The outcomes of the sweep of a run of credentials, in their order.
pub open spec fn all_swept_events_of(swept: Seq<SweptCredential>) -> Seq<ResetEvent>
    decreases swept.len(),
{
    if swept.len() == 0 {
        Seq::empty()
    } else {
        all_swept_events_of(swept.drop_last()) + swept_events_of(swept.last())
    }
}

/// The outcomes of a sweep that found `found` credentials of hosts and
/// came to `swept`: the number found, then every credential on its own,
/// whatever became of the ones before it, then the number again.
pub open spec fn sweep_events_of(found: u64, swept: Seq<SweptCredential>) -> Seq<ResetEvent> {
    seq![ResetEvent::HostCredentialsFound(found)] + all_swept_events_of(swept) + seq![
        ResetEvent::HostCredentialsProcessed(found),
    ]
}

/// The deletion of one credential that failed keeps none of the others
/// from the report: every credential that the sweep came to is named,
/// and each failure stands right after the credential it befell.
pub proof fn lemma_sweep_names_every_credential(swept: Seq<SweptCredential>, at: int)
    requires
        0 <= at < swept.len(),
    ensures
        all_swept_events_of(swept).contains(ResetEvent::HostCredential(swept[at].scope_key)),
        swept[at].failure matches Some(reason) ==> exists|i: int|
            0 <= i && i + 1 < all_swept_events_of(swept).len() && #[trigger] all_swept_events_of(
                swept,
            )[i] == ResetEvent::HostCredential(swept[at].scope_key) && all_swept_events_of(
                swept,
            )[i + 1] == ResetEvent::HostCredentialKept(reason),
    decreases swept.len(),
{
    let events = all_swept_events_of(swept);
    let before = all_swept_events_of(swept.drop_last());
    let last = swept_events_of(swept.last());
    if at == swept.len() - 1 {
        let i = before.len() as int;
        assert(events[i] == last[0]);
        if swept[at].failure.is_some() {
            assert(events[i + 1] == last[1]);
        }
    } else {
        assert(swept.drop_last()[at] == swept[at]);
        lemma_sweep_names_every_credential(swept.drop_last(), at);
        let k = choose|k: int|
            0 <= k < before.len() && before[k] == ResetEvent::HostCredential(swept[at].scope_key);
        assert(events[k] == before[k]);
        if swept[at].failure.is_some() {
            let reason = swept[at].failure.unwrap();
            let i = choose|i: int|
                0 <= i && i + 1 < before.len() && #[trigger] before[i]
                    == ResetEvent::HostCredential(swept[at].scope_key) && before[i + 1]
                    == ResetEvent::HostCredentialKept(reason);
            assert(events[i] == before[i]);
            assert(events[i + 1] == before[i + 1]);
        }
    }
}

/// A connection artifact that the reset came to, by the name of its
/// file, and why it could not be deleted, if it could not.
#[derive(Clone, Debug, PartialEq, Eq)]
pub struct SweptArtifact {
    pub name: String,
    pub failure: Option<String>,
}

/// What became of the connection artifacts.
#[derive(Clone, Debug, PartialEq, Eq)]
pub enum ArtifactSweep {
    /// There is no directory of artifacts.
    Absent,
    /// The directory could not be read; the reason is attached.
    Unreadable(String),
    /// These artifacts were come to.
    Swept(Vec<SweptArtifact>),
}

/// What became of the credentials of the hosts.
#[derive(Clone, Debug, PartialEq, Eq)]
pub enum HostSweep {
    /// They could not be listed, or there are none; the reason is
    /// attached.
    Unlisted(String),
    /// That many were found, and these were come to.
    Swept(u64, Vec<SweptCredential>),
}

/// What became of the recent-connections log.
#[derive(Clone, Debug, PartialEq, Eq)]
pub enum RecentSweep {
    /// It is deleted.
    Deleted,
    /// It could not be deleted; the reason is attached.
    Kept(String),
    /// There was none.
    Absent,
}

/// What the steps of a reset came to, each on its own.
#[derive(Clone, Debug, PartialEq, Eq)]
pub struct ResetOutcomes {
    /// Why the global credential could not be deleted, if it could not.
    pub global_failure: Option<String>,
    /// What became of the credentials of the hosts.
    pub hosts: HostSweep,
    /// The directory of the connection artifacts and what became of
    /// them, where the directory is known.
    pub artifacts: Option<(String, ArtifactSweep)>,
    /// Why the inventory could not be cleared, if it could not.
    pub inventory_failure: Option<String>,
    /// What became of the recent-connections log, where its place is
    /// known.
    pub recent: Option<RecentSweep>,
}

/// The outcome of the sweep of one artifact.
pub open spec fn artifact_event_of(swept: SweptArtifact) -> ResetEvent {
    match swept.failure {
        Some(reason) => ResetEvent::ArtifactKept(swept.name, reason),
        None => ResetEvent::ArtifactDeleted(swept.name),
    }
}

/// How many of the artifacts were deleted.
pub open spec fn deleted_of(swept: Seq<SweptArtifact>) -> nat
    decreases swept.len(),
{
    if swept.len() == 0 {
        0
    } else {
        deleted_of(swept.drop_last()) + (if swept.last().failure.is_none() {
            1nat
        } else {
            0nat
        })
    }
}

/// No more artifacts were deleted than were come to.
pub proof fn lemma_deleted_of(swept: Seq<SweptArtifact>)
    ensures
        deleted_of(swept) <= swept.len(),
    decreases swept.len(),
{
    if swept.len() > 0 {
        lemma_deleted_of(swept.drop_last());
    }
}

/// The outcomes for the connection artifacts: the directory, then every
/// artifact on its own and the number deleted, or that the directory is
/// missing or cannot be read.
pub open spec fn artifact_events_of(directory: String, sweep: ArtifactSweep) -> Seq<ResetEvent> {
    seq![ResetEvent::ArtifactsDirectory(directory)] + (match sweep {
        ArtifactSweep::Absent => seq![ResetEvent::ArtifactsAbsent],
        ArtifactSweep::Unreadable(reason) => seq![ResetEvent::ArtifactsUnreadable(reason)],
        ArtifactSweep::Swept(swept) => swept@.map_values(
            |one: SweptArtifact| artifact_event_of(one),
        ) + seq![ResetEvent::ArtifactsDeleted(deleted_of(swept@) as u64)],
    })
}

/// The outcomes of a reset, in the order of its steps: the global
/// credential, the credentials of the hosts, the connection artifacts,
/// the inventory, the recent-connections log. No step is left out
/// because an earlier one failed.
pub open spec fn reset_events_of(outcomes: ResetOutcomes) -> Seq<ResetEvent> {
    seq![
        match outcomes.global_failure {
            Some(reason) => ResetEvent::GlobalCredentialKept(reason),
            None => ResetEvent::GlobalCredentialDeleted,
        },
    ] + (match outcomes.hosts {
        HostSweep::Swept(found, swept) => sweep_events_of(found, swept@),
        HostSweep::Unlisted(reason) => seq![ResetEvent::HostCredentialsUnlisted(reason)],
    }) + (match outcomes.artifacts {
        Some(artifacts) => artifact_events_of(artifacts.0, artifacts.1),
        None => Seq::empty(),
    }) + seq![
        match outcomes.inventory_failure {
            Some(reason) => ResetEvent::InventoryKept(reason),
            None => ResetEvent::InventoryCleared,
        },
    ] + (match outcomes.recent {
        Some(RecentSweep::Deleted) => seq![ResetEvent::RecentDeleted],
        Some(RecentSweep::Kept(reason)) => seq![ResetEvent::RecentKept(reason)],
        Some(RecentSweep::Absent) => seq![ResetEvent::RecentAbsent],
        None => Seq::empty(),
    })
}

/// The line of the report for one outcome.
pub open spec fn line_of(event: ResetEvent) -> Seq<char> {
    match event {
        ResetEvent::GlobalCredentialDeleted => "✓ Deleted global QuickRDP credentials\n"@,
        ResetEvent::GlobalCredentialKept(reason) => "✗ Failed to delete global credentials: "@
            + reason@ + "\n"@,
        ResetEvent::HostCredentialsFound(count) => "\nFound "@ + decimal_of(count as nat)
            + " RDP host credentials:\n"@,
        ResetEvent::HostCredential(scope_key) => "  - "@ + scope_key@ + "\n"@,
        ResetEvent::HostCredentialKept(reason) => "    ✗ Failed to delete: "@ + reason@ + "\n"@,
        ResetEvent::HostCredentialsProcessed(count) => "✓ Processed "@ + decimal_of(count as nat)
            + " RDP host credentials\n"@,
        ResetEvent::HostCredentialsUnlisted(reason) => "✗ No TERMSRV credentials found or error: "@
            + reason@ + "\n"@,
        ResetEvent::ArtifactsDirectory(directory) => "\nRDP Files in "@ + directory@ + ":\n"@,
        ResetEvent::ArtifactDeleted(name) => "  ✓ Deleted: "@ + name@ + "\n"@,
        ResetEvent::ArtifactKept(name, reason) => "  ✗ Failed to delete "@ + name@ + ": "@
            + reason@ + "\n"@,
        ResetEvent::ArtifactsDeleted(count) => "✓ Deleted "@ + decimal_of(count as nat)
            + " RDP files\n"@,
        ResetEvent::ArtifactsUnreadable(reason) => "✗ Failed to read connections directory: "@
            + reason@ + "\n"@,
        ResetEvent::ArtifactsAbsent => "  (Connections directory does not exist)\n"@,
        ResetEvent::InventoryCleared => "\n✓ Cleared hosts.csv\n"@,
        ResetEvent::InventoryKept(reason) => "\n✗ Failed to clear hosts.csv: "@ + reason@ + "\n"@,
        ResetEvent::RecentDeleted => "✓ Deleted recent connections history\n"@,
        ResetEvent::RecentKept(reason) => "✗ Failed to delete recent connections: "@ + reason@
            + "\n"@,
        ResetEvent::RecentAbsent => "✓ No recent connections to delete\n"@,
    }
}

/// The lines of the report for a run of outcomes, in their order.
pub open spec fn lines_of(events: Seq<ResetEvent>) -> Seq<char>
    decreases events.len(),
{
    if events.len() == 0 {
        Seq::empty()
    } else {
        lines_of(events.drop_last()) + line_of(events.last())
    }
}

/// The report of a reset with the given outcomes.
pub open spec fn report_of(events: Seq<ResetEvent>) -> Seq<char> {
    REPORT_HEADING@ + lines_of(events) + REPORT_CLOSING@
}

/// A line that consists of a text before a reason and a line end after.
fn reasoned(before: &str, reason: &str) -> (line: String)
    ensures
        line@ == before@ + reason@ + "\n"@,
{
    let mut line = String::from_str(before);
    line.append(reason);
    line.append("\n");
    line
}

/// A line that consists of a count between two texts.
fn counted(before: &str, count: u64, after: &str) -> (line: String)
    ensures
        line@ == before@ + decimal_of(count as nat) + after@,
{
    let mut line = String::from_str(before);
    let digits = decimal(count);
    line.append(digits.as_str());
    line.append(after);
    line
}

/// The line of the report for `event`.
pub fn report_line(event: &ResetEvent) -> (line: String)
    ensures
        line@ == line_of(*event),
{
    match event {
        ResetEvent::GlobalCredentialDeleted => String::from_str(
            "✓ Deleted global QuickRDP credentials\n",
        ),
        ResetEvent::GlobalCredentialKept(reason) => reasoned(
            "✗ Failed to delete global credentials: ",
            reason.as_str(),
        ),
        ResetEvent::HostCredentialsFound(count) => counted(
            "\nFound ",
            *count,
            " RDP host credentials:\n",
        ),
        ResetEvent::HostCredential(scope_key) => reasoned("  - ", scope_key.as_str()),
        ResetEvent::HostCredentialKept(reason) => reasoned(
            "    ✗ Failed to delete: ",
            reason.as_str(),
        ),
        ResetEvent::HostCredentialsProcessed(count) => counted(
            "✓ Processed ",
            *count,
            " RDP host credentials\n",
        ),
        ResetEvent::HostCredentialsUnlisted(reason) => reasoned(
            "✗ No TERMSRV credentials found or error: ",
            reason.as_str(),
        ),
        ResetEvent::ArtifactsDirectory(directory) => {
            let mut line = String::from_str("\nRDP Files in ");
            line.append(directory.as_str());
            line.append(":\n");
            line
        },
        ResetEvent::ArtifactDeleted(name) => reasoned("  ✓ Deleted: ", name.as_str()),
        ResetEvent::ArtifactKept(name, reason) => {
            let mut line = String::from_str("  ✗ Failed to delete ");
            line.append(name.as_str());
            line.append(": ");
            line.append(reason.as_str());
            line.append("\n");
            line
        },
        ResetEvent::ArtifactsDeleted(count) => counted("✓ Deleted ", *count, " RDP files\n"),
        ResetEvent::ArtifactsUnreadable(reason) => reasoned(
            "✗ Failed to read connections directory: ",
            reason.as_str(),
        ),
        ResetEvent::ArtifactsAbsent => String::from_str(
            "  (Connections directory does not exist)\n",
        ),
        ResetEvent::InventoryCleared => String::from_str("\n✓ Cleared hosts.csv\n"),
        ResetEvent::InventoryKept(reason) => reasoned(
            "\n✗ Failed to clear hosts.csv: ",
            reason.as_str(),
        ),
        ResetEvent::RecentDeleted => String::from_str("✓ Deleted recent connections history\n"),
        ResetEvent::RecentKept(reason) => reasoned(
            "✗ Failed to delete recent connections: ",
            reason.as_str(),
        ),
        ResetEvent::RecentAbsent => String::from_str("✓ No recent connections to delete\n"),
    }
}

/// The outcomes of a sweep that found `found` credentials of hosts and
/// came to `swept`, each with the outcome of its deletion.
pub fn sweep_events(found: u64, swept: &Vec<SweptCredential>) -> (events: Vec<ResetEvent>)
    ensures
        events@ == sweep_events_of(found, swept@),
{
    let mut events: Vec<ResetEvent> = Vec::new();
    events.push(ResetEvent::HostCredentialsFound(found));
    let mut i: usize = 0;
    assert(swept@.take(0) =~= Seq::<SweptCredential>::empty());
    assert(events@ =~= seq![ResetEvent::HostCredentialsFound(found)] + all_swept_events_of(
        swept@.take(0),
    ));
    while i < swept.len()
        invariant
            i <= swept@.len(),
            events@ == seq![ResetEvent::HostCredentialsFound(found)] + all_swept_events_of(
                swept@.take(i as int),
            ),
        decreases swept@.len() - i,
    {
        let ghost before = events@;
        proof {
            assert(swept@.take(i + 1).drop_last() =~= swept@.take(i as int));
            assert(swept@.take(i + 1).last() == swept@[i as int]);
        }
        events.push(ResetEvent::HostCredential(swept[i].scope_key.clone()));
        match &swept[i].failure {
            Some(reason) => {
                events.push(ResetEvent::HostCredentialKept(reason.clone()));
                assert(events@ =~= before + swept_events_of(swept@[i as int]));
            },
            None => {
                assert(events@ =~= before + swept_events_of(swept@[i as int]));
            },
        }
        assert(events@ =~= seq![ResetEvent::HostCredentialsFound(found)] + all_swept_events_of(
            swept@.take(i + 1),
        ));
        i += 1;
    }
    assert(swept@.take(i as int) =~= swept@);
    events.push(ResetEvent::HostCredentialsProcessed(found));
    events
}

/// The outcomes for the connection artifacts in `directory`.
pub fn artifact_events(directory: &String, sweep: &ArtifactSweep) -> (events: Vec<ResetEvent>)
    ensures
        events@ == artifact_events_of(*directory, *sweep),
{
    let mut events: Vec<ResetEvent> = Vec::new();
    events.push(ResetEvent::ArtifactsDirectory(directory.clone()));
    match sweep {
        ArtifactSweep::Absent => {
            events.push(ResetEvent::ArtifactsAbsent);
            assert(events@ =~= artifact_events_of(*directory, *sweep));
        },
        ArtifactSweep::Unreadable(reason) => {
            events.push(ResetEvent::ArtifactsUnreadable(reason.clone()));
            assert(events@ =~= artifact_events_of(*directory, *sweep));
        },
        ArtifactSweep::Swept(swept) => {
            let ghost first = events@;
            let ghost each = |one: SweptArtifact| artifact_event_of(one);
            let mut deleted: u64 = 0;
            let mut i: usize = 0;
            assert(swept@.take(0) =~= Seq::<SweptArtifact>::empty());
            assert(events@ =~= first + swept@.take(0).map_values(each));
            while i < swept.len()
                invariant
                    i <= swept@.len(),
                    each == |one: SweptArtifact| artifact_event_of(one),
                    events@ == first + swept@.take(i as int).map_values(each),
                    deleted == deleted_of(swept@.take(i as int)),
                    deleted <= i,
                decreases swept@.len() - i,
            {
                let ghost before = events@;
                proof {
                    assert(swept@.take(i + 1).drop_last() =~= swept@.take(i as int));
                    assert(swept@.take(i + 1).last() == swept@[i as int]);
                }
                match &swept[i].failure {
                    Some(reason) => {
                        events.push(
                            ResetEvent::ArtifactKept(swept[i].name.clone(), reason.clone()),
                        );
                    },
                    None => {
                        events.push(ResetEvent::ArtifactDeleted(swept[i].name.clone()));
                        deleted += 1;
                    },
                }
                assert(events@ =~= first + swept@.take(i + 1).map_values(each));
                i += 1;
            }
            assert(swept@.take(i as int) =~= swept@);
            events.push(ResetEvent::ArtifactsDeleted(deleted));
            assert(events@ =~= artifact_events_of(*directory, *sweep));
        },
    }
    events
}

/// The outcomes of a reset whose steps came to `outcomes`.
pub fn reset_events(outcomes: &ResetOutcomes) -> (events: Vec<ResetEvent>)
    ensures
        events@ == reset_events_of(*outcomes),
{
    let mut events: Vec<ResetEvent> = Vec::new();
    match &outcomes.global_failure {
        Some(reason) => events.push(ResetEvent::GlobalCredentialKept(reason.clone())),
        None => events.push(ResetEvent::GlobalCredentialDeleted),
    }
    match &outcomes.hosts {
        HostSweep::Swept(found, swept) => {
            let mut part = sweep_events(*found, swept);
            events.append(&mut part);
        },
        HostSweep::Unlisted(reason) => events.push(
            ResetEvent::HostCredentialsUnlisted(reason.clone()),
        ),
    }
    match &outcomes.artifacts {
        Some(artifacts) => {
            let mut part = artifact_events(&artifacts.0, &artifacts.1);
            events.append(&mut part);
        },
        None => {},
    }
    match &outcomes.inventory_failure {
        Some(reason) => events.push(ResetEvent::InventoryKept(reason.clone())),
        None => events.push(ResetEvent::InventoryCleared),
    }
    match &outcomes.recent {
        Some(RecentSweep::Deleted) => events.push(ResetEvent::RecentDeleted),
        Some(RecentSweep::Kept(reason)) => events.push(ResetEvent::RecentKept(reason.clone())),
        Some(RecentSweep::Absent) => events.push(ResetEvent::RecentAbsent),
        None => {},
    }
    assert(events@ =~= reset_events_of(*outcomes));
    events
}

/// The report of a reset with the outcomes `events`.
pub fn reset_report(events: &Vec<ResetEvent>) -> (report: String)
    ensures
        report@ == report_of(events@),
{
    let mut report = String::from_str(REPORT_HEADING);
    let mut i: usize = 0;
    assert(events@.take(0) =~= Seq::<ResetEvent>::empty());
    assert(report@ =~= REPORT_HEADING@ + lines_of(events@.take(0)));
    while i < events.len()
        invariant
            i <= events@.len(),
            report@ == REPORT_HEADING@ + lines_of(events@.take(i as int)),
        decreases events@.len() - i,
    {
        let ghost before = report@;
        let line = report_line(&events[i]);
        report.append(line.as_str());
        proof {
            assert(events@.take(i + 1).drop_last() =~= events@.take(i as int));
            assert(events@.take(i + 1).last() == events@[i as int]);
            assert(report@ =~= REPORT_HEADING@ + lines_of(events@.take(i + 1)));
        }
        i += 1;
    }
    assert(events@.take(i as int) =~= events@);
    report.append(REPORT_CLOSING);
    report
}

} // verus!
