use vstd::prelude::*;

use crate::launcher::{DirProbe, EntryKind};

verus! {

/// Where the bootstrap stands.
#[derive(Clone, Copy, Debug, PartialEq, Eq, Structural)]
pub enum Phase {
    /// Nothing done yet.
    Init,
    /// Waiting for the probe of the launcher's directory.
    Probing,
    /// Waiting for the next directory entry.
    Listing,
    /// Waiting for the outcome of one spawn.
    Spawning,
    /// The directory was missing; waiting for the diagnostic to be written.
    Reporting,
    /// Launcher phase over; waiting for the listen address to be parsed.
    Configuring,
    /// Waiting for the reflection service to be built.
    Building,
    /// The listener is bound and the registration set is frozen.
    Serving,
    /// The bootstrap has stopped.
    Exited,
}

/// Why the bootstrap stops.
#[derive(Clone, Copy, Debug, PartialEq, Eq, Structural)]
pub enum ExitReason {
    ListingFailed,
    SpawnFailed,
    BadAddress,
    ReflectionFailed,
    ServeFailed,
}

/// What the outside world reports back to the bootstrap.
#[derive(Clone, Copy, Debug, PartialEq, Eq, Structural)]
pub enum Event {
    Start,
    Probed(DirProbe),
    Entry(EntryKind),
    ListingEnd,
    ListingFailed,
    Spawned,
    SpawnFailed,
    Acknowledged,
    AddressParsed,
    AddressMalformed,
    ReflectionBuilt,
    ReflectionFailed,
    ServeEnded,
}

/// What the bootstrap asks the outside world to do next.
#[derive(Clone, Copy, Debug, PartialEq, Eq, Structural)]
pub enum Action {
    /// Check whether the launcher's directory exists and is a directory.
    ProbeDir,
    /// Write the diagnostic for a missing directory.
    ReportMissingDir,
    /// Read the next directory entry.
    ReadNextEntry,
    /// Spawn the entry just read, detached, without keeping its handle.
    SpawnEntry,
    /// Parse the listen address.
    ParseAddress,
    /// Build the reflection service from the embedded descriptor.
    BuildReflection,
    /// Register the service set, bind the listener and serve.
    Serve,
    /// Stop with a diagnostic and a non-zero status.
    Exit(ExitReason),
    /// Nothing to do: the event does not belong to the current phase.
    Idle,
}

/// The bootstrap's state.
#[derive(Clone, Copy, Debug, PartialEq, Eq, Structural)]
pub struct Bootstrap {
    pub phase: Phase,
    /// The launcher phase has completed: every entry was submitted, or the
    /// directory was missing and the phase was skipped.
    pub launcher_done: bool,
}

pub open spec fn initial() -> Bootstrap {
    Bootstrap { phase: Phase::Init, launcher_done: false }
}

/// The order in which phases are passed; `Listing` and `Spawning` alternate.
pub open spec fn phase_rank(p: Phase) -> nat {
    match p {
        Phase::Init => 0,
        Phase::Probing => 1,
        Phase::Listing => 2,
        Phase::Spawning => 2,
        Phase::Reporting => 3,
        Phase::Configuring => 4,
        Phase::Building => 5,
        Phase::Serving => 6,
        Phase::Exited => 7,
    }
}

/// The actions of the launcher phase.
pub open spec fn is_launcher_action(a: Action) -> bool {
    a == Action::ProbeDir || a == Action::ReportMissingDir || a == Action::ReadNextEntry
        || a == Action::SpawnEntry
}

/// The launcher has completed exactly in the phases between its end and the
/// end of the bootstrap.
pub open spec fn wf(s: Bootstrap) -> bool {
    &&& (s.phase == Phase::Reporting || s.phase == Phase::Configuring || s.phase == Phase::Building
        || s.phase == Phase::Serving) ==> s.launcher_done
    &&& phase_rank(s.phase) < 3 ==> !s.launcher_done
}

/// The transition table: the next state and the action for one event.
pub open spec fn next(s: Bootstrap, e: Event) -> (Bootstrap, Action) {
    let done = Bootstrap { phase: s.phase, launcher_done: true };
    match (s.phase, e) {
        (Phase::Init, Event::Start) => (Bootstrap { phase: Phase::Probing, ..s }, Action::ProbeDir),
        (Phase::Probing, Event::Probed(DirProbe::Directory)) => (
            Bootstrap { phase: Phase::Listing, ..s },
            Action::ReadNextEntry,
        ),
        (Phase::Probing, Event::Probed(_)) => (
            Bootstrap { phase: Phase::Reporting, ..done },
            Action::ReportMissingDir,
        ),
        (Phase::Listing, Event::Entry(EntryKind::RegularFile)) => (
            Bootstrap { phase: Phase::Spawning, ..s },
            Action::SpawnEntry,
        ),
        (Phase::Listing, Event::Entry(_)) => (s, Action::ReadNextEntry),
        (Phase::Listing, Event::ListingEnd) => (
            Bootstrap { phase: Phase::Configuring, ..done },
            Action::ParseAddress,
        ),
        (Phase::Listing, Event::ListingFailed) => (
            Bootstrap { phase: Phase::Exited, ..s },
            Action::Exit(ExitReason::ListingFailed),
        ),
        (Phase::Spawning, Event::Spawned) => (
            Bootstrap { phase: Phase::Listing, ..s },
            Action::ReadNextEntry,
        ),
        (Phase::Spawning, Event::SpawnFailed) => (
            Bootstrap { phase: Phase::Exited, ..s },
            Action::Exit(ExitReason::SpawnFailed),
        ),
        (Phase::Reporting, Event::Acknowledged) => (
            Bootstrap { phase: Phase::Configuring, ..s },
            Action::ParseAddress,
        ),
        (Phase::Configuring, Event::AddressParsed) => (
            Bootstrap { phase: Phase::Building, ..s },
            Action::BuildReflection,
        ),
        (Phase::Configuring, Event::AddressMalformed) => (
            Bootstrap { phase: Phase::Exited, ..s },
            Action::Exit(ExitReason::BadAddress),
        ),
        (Phase::Building, Event::ReflectionBuilt) => (
            Bootstrap { phase: Phase::Serving, ..s },
            Action::Serve,
        ),
        (Phase::Building, Event::ReflectionFailed) => (
            Bootstrap { phase: Phase::Exited, ..s },
            Action::Exit(ExitReason::ReflectionFailed),
        ),
        (Phase::Serving, Event::ServeEnded) => (
            Bootstrap { phase: Phase::Exited, ..s },
            Action::Exit(ExitReason::ServeFailed),
        ),
        _ => (s, Action::Idle),
    }
}

/// The final state and the actions, one per event, of a run from `s`.
pub open spec fn run(s: Bootstrap, evs: Seq<Event>) -> (Bootstrap, Seq<Action>)
    decreases evs.len(),
{
    if evs.len() == 0 {
        (s, Seq::empty())
    } else {
        let prev = run(s, evs.drop_last());
        let last = next(prev.0, evs.last());
        (last.0, prev.1.push(last.1))
    }
}

/// The state after the first `k` events of a run from the initial state.
pub open spec fn state_at(evs: Seq<Event>, k: int) -> Bootstrap {
    run(initial(), evs.take(k)).0
}

/// The action answering event `i` of a run from the initial state.
pub open spec fn action_at(evs: Seq<Event>, i: int) -> Action {
    next(state_at(evs, i), evs[i]).1
}

/// The status the process exits with.
pub open spec fn exit_status_spec(r: ExitReason) -> i32 {
    1
}

impl Bootstrap {
    /// The state before anything has been done.
    pub fn new() -> (r: Bootstrap)
        ensures
            r == initial(),
            wf(r),
    {
        Bootstrap { phase: Phase::Init, launcher_done: false }
    }

    /// Takes one event, moves to the next state and returns the action to perform.
    pub fn step(&mut self, e: Event) -> (a: Action)
        ensures
            (*final(self), a) == next(*old(self), e),
            wf(*old(self)) ==> wf(*final(self)),
    {
        let s = *self;
        let (t, a) = match (s.phase, e) {
            (Phase::Init, Event::Start) => (Bootstrap { phase: Phase::Probing, ..s }, Action::ProbeDir),
            (Phase::Probing, Event::Probed(DirProbe::Directory)) => (
                Bootstrap { phase: Phase::Listing, ..s },
                Action::ReadNextEntry,
            ),
            (Phase::Probing, Event::Probed(_)) => (
                Bootstrap { phase: Phase::Reporting, launcher_done: true },
                Action::ReportMissingDir,
            ),
            (Phase::Listing, Event::Entry(EntryKind::RegularFile)) => (
                Bootstrap { phase: Phase::Spawning, ..s },
                Action::SpawnEntry,
            ),
            (Phase::Listing, Event::Entry(_)) => (s, Action::ReadNextEntry),
            (Phase::Listing, Event::ListingEnd) => (
                Bootstrap { phase: Phase::Configuring, launcher_done: true },
                Action::ParseAddress,
            ),
            (Phase::Listing, Event::ListingFailed) => (
                Bootstrap { phase: Phase::Exited, ..s },
                Action::Exit(ExitReason::ListingFailed),
            ),
            (Phase::Spawning, Event::Spawned) => (
                Bootstrap { phase: Phase::Listing, ..s },
                Action::ReadNextEntry,
            ),
            (Phase::Spawning, Event::SpawnFailed) => (
                Bootstrap { phase: Phase::Exited, ..s },
                Action::Exit(ExitReason::SpawnFailed),
            ),
            (Phase::Reporting, Event::Acknowledged) => (
                Bootstrap { phase: Phase::Configuring, ..s },
                Action::ParseAddress,
            ),
            (Phase::Configuring, Event::AddressParsed) => (
                Bootstrap { phase: Phase::Building, ..s },
                Action::BuildReflection,
            ),
            (Phase::Configuring, Event::AddressMalformed) => (
                Bootstrap { phase: Phase::Exited, ..s },
                Action::Exit(ExitReason::BadAddress),
            ),
            (Phase::Building, Event::ReflectionBuilt) => (
                Bootstrap { phase: Phase::Serving, ..s },
                Action::Serve,
            ),
            (Phase::Building, Event::ReflectionFailed) => (
                Bootstrap { phase: Phase::Exited, ..s },
                Action::Exit(ExitReason::ReflectionFailed),
            ),
            (Phase::Serving, Event::ServeEnded) => (
                Bootstrap { phase: Phase::Exited, ..s },
                Action::Exit(ExitReason::ServeFailed),
            ),
            _ => (s, Action::Idle),
        };
        *self = t;
        a
    }
}

/// The status the process exits with for `r`: always non-zero.
pub fn exit_status(r: ExitReason) -> (code: i32)
    ensures
        code == exit_status_spec(r),
        code != 0,
{
    1
}

/// Runs the bootstrap from its initial state over `evs`, returning the final
/// state and the action that answered each event.
pub fn run_events(evs: &Vec<Event>) -> (r: (Bootstrap, Vec<Action>))
    ensures
        r.0 == run(initial(), evs@).0,
        r.1@ == run(initial(), evs@).1,
{
    let mut s = Bootstrap::new();
    let mut acts: Vec<Action> = Vec::new();
    let mut i: usize = 0;
    while i < evs.len()
        invariant
            i <= evs@.len(),
            s == run(initial(), evs@.take(i as int)).0,
            acts@ == run(initial(), evs@.take(i as int)).1,
        decreases evs@.len() - i,
    {
        assert(evs@.take(i + 1).drop_last() =~= evs@.take(i as int));
        let a = s.step(evs[i]);
        acts.push(a);
        i = i + 1;
    }
    assert(evs@.take(i as int) =~= evs@);
    (s, acts)
}

/// One event moves the state to the next of the transition table.
proof fn lemma_state_step(evs: Seq<Event>, j: int)
    requires
        0 <= j < evs.len(),
    ensures
        state_at(evs, j + 1) == next(state_at(evs, j), evs[j]).0,
{
    assert(evs.take(j + 1).drop_last() =~= evs.take(j));
}

/// Every state reached from the initial one is well formed, and phases are
/// never passed backwards.
proof fn lemma_reachable(evs: Seq<Event>, i: int, j: int)
    requires
        0 <= i <= j <= evs.len(),
    ensures
        wf(state_at(evs, j)),
        phase_rank(state_at(evs, i).phase) <= phase_rank(state_at(evs, j).phase),
    decreases j,
{
    if j == 0 {
        assert(evs.take(0) =~= Seq::<Event>::empty());
    } else {
        lemma_reachable(evs, if i == j { j - 1 } else { i }, j - 1);
        lemma_state_step(evs, j - 1);
    }
}

/// The host serves only once the launcher phase has completed, by success or
/// by skipping a missing directory, and no launcher action follows.
pub proof fn lemma_serve_after_launcher(evs: Seq<Event>, i: int, j: int)
    requires
        0 <= i <= j < evs.len(),
        action_at(evs, i) == Action::Serve,
    ensures
        state_at(evs, i + 1).launcher_done,
        state_at(evs, i + 1).phase == Phase::Serving,
        !is_launcher_action(action_at(evs, j)),
{
    lemma_reachable(evs, i, i);
    lemma_state_step(evs, i);
    if j > i {
        lemma_reachable(evs, i + 1, j);
        lemma_state_step(evs, j);
    }
}

/// A malformed listen address stops the bootstrap with a non-zero status, and
/// no listener is ever bound in that run.
pub proof fn lemma_malformed_address_exits(evs: Seq<Event>, i: int)
    requires
        0 <= i < evs.len(),
        state_at(evs, i).phase == Phase::Configuring,
        evs[i] == Event::AddressMalformed,
    ensures
        action_at(evs, i) == Action::Exit(ExitReason::BadAddress),
        exit_status_spec(ExitReason::BadAddress) != 0,
        forall|j: int| 0 <= j < evs.len() ==> action_at(evs, j) != Action::Serve,
{
    lemma_state_step(evs, i);
    assert forall|j: int| 0 <= j < evs.len() implies action_at(evs, j) != Action::Serve by {
        lemma_state_step(evs, j);
        if j < i {
            lemma_reachable(evs, j + 1, i);
        } else if j > i {
            lemma_reachable(evs, i + 1, j);
        }
    }
}

/// The number of spawn attempts among `acts`.
pub open spec fn count_spawns(acts: Seq<Action>) -> nat
    decreases acts.len(),
{
    if acts.len() == 0 {
        0
    } else {
        count_spawns(acts.drop_last()) + if acts.last() == Action::SpawnEntry {
            1nat
        } else {
            0nat
        }
    }
}

/// The number of regular files among `kinds`.
pub open spec fn count_files(kinds: Seq<EntryKind>) -> nat
    decreases kinds.len(),
{
    if kinds.len() == 0 {
        0
    } else {
        count_files(kinds.drop_last()) + if kinds.last() == EntryKind::RegularFile {
            1nat
        } else {
            0nat
        }
    }
}

/// The events of one directory entry whose spawn, if any, succeeds.
pub open spec fn entry_events(k: EntryKind) -> Seq<Event> {
    if k == EntryKind::RegularFile {
        seq![Event::Entry(k), Event::Spawned]
    } else {
        seq![Event::Entry(k)]
    }
}

/// The events of a listing of `kinds` whose spawns all succeed.
pub open spec fn listing_events(kinds: Seq<EntryKind>) -> Seq<Event>
    decreases kinds.len(),
{
    if kinds.len() == 0 {
        Seq::empty()
    } else {
        listing_events(kinds.drop_last()) + entry_events(kinds.last())
    }
}

/// The events of a launcher phase on an existing directory holding `kinds`.
pub open spec fn launch_events(kinds: Seq<EntryKind>) -> Seq<Event> {
    seq![Event::Start, Event::Probed(DirProbe::Directory)] + listing_events(kinds) + seq![
        Event::ListingEnd,
    ]
}

proof fn lemma_run_append(s: Bootstrap, a: Seq<Event>, b: Seq<Event>)
    ensures
        run(s, a + b).0 == run(run(s, a).0, b).0,
        run(s, a + b).1 == run(s, a).1 + run(run(s, a).0, b).1,
    decreases b.len(),
{
    if b.len() == 0 {
        assert(a + b =~= a);
        assert(run(s, a).1 + Seq::<Action>::empty() =~= run(s, a).1);
    } else {
        lemma_run_append(s, a, b.drop_last());
        assert((a + b).drop_last() =~= a + b.drop_last());
        let x = run(s, a).1;
        let y = run(run(s, a).0, b.drop_last()).1;
        let z = next(run(run(s, a).0, b.drop_last()).0, b.last()).1;
        assert((x + y).push(z) =~= x + y.push(z));
    }
}

proof fn lemma_count_append(x: Seq<Action>, y: Seq<Action>)
    ensures
        count_spawns(x + y) == count_spawns(x) + count_spawns(y),
    decreases y.len(),
{
    if y.len() == 0 {
        assert(x + y =~= x);
    } else {
        lemma_count_append(x, y.drop_last());
        assert((x + y).drop_last() =~= x + y.drop_last());
    }
}

proof fn lemma_run_single(s: Bootstrap, e: Event)
    ensures
        run(s, seq![e]).0 == next(s, e).0,
        run(s, seq![e]).1 == seq![next(s, e).1],
{
    let one = seq![e];
    assert(one.len() == 1 && one.last() == e);
    assert(one.drop_last() =~= Seq::<Event>::empty());
    assert(run(s, one.drop_last()) == (s, Seq::<Action>::empty()));
    assert(Seq::<Action>::empty().push(next(s, e).1) =~= seq![next(s, e).1]);
}

proof fn lemma_count_single(a: Action)
    ensures
        count_spawns(seq![a]) == if a == Action::SpawnEntry {
            1nat
        } else {
            0nat
        },
{
    let one = seq![a];
    assert(one.len() == 1 && one.last() == a);
    assert(one.drop_last() =~= Seq::<Action>::empty());
    assert(count_spawns(one.drop_last()) == 0);
}

/// Runs two events, one after the other.
proof fn lemma_run_pair(s: Bootstrap, e1: Event, e2: Event)
    ensures
        run(s, seq![e1, e2]).0 == next(next(s, e1).0, e2).0,
        run(s, seq![e1, e2]).1 == seq![next(s, e1).1, next(next(s, e1).0, e2).1],
        count_spawns(run(s, seq![e1, e2]).1) == count_spawns(seq![next(s, e1).1]) + count_spawns(
            seq![next(next(s, e1).0, e2).1],
        ),
{
    assert(seq![e1] + seq![e2] =~= seq![e1, e2]);
    lemma_run_append(s, seq![e1], seq![e2]);
    lemma_run_single(s, e1);
    lemma_run_single(next(s, e1).0, e2);
    let a1 = next(s, e1).1;
    let a2 = next(next(s, e1).0, e2).1;
    assert(seq![a1] + seq![a2] =~= seq![a1, a2]);
    lemma_count_append(seq![a1], seq![a2]);
}

/// Listing entries leaves the state as it was and spawns once per regular file.
proof fn lemma_listing(s: Bootstrap, kinds: Seq<EntryKind>)
    requires
        s.phase == Phase::Listing,
    ensures
        run(s, listing_events(kinds)).0 == s,
        count_spawns(run(s, listing_events(kinds)).1) == count_files(kinds),
    decreases kinds.len(),
{
    if kinds.len() > 0 {
        let pre = listing_events(kinds.drop_last());
        let k = kinds.last();
        lemma_listing(s, kinds.drop_last());
        lemma_run_append(s, pre, entry_events(k));
        lemma_count_append(run(s, pre).1, run(s, entry_events(k)).1);
        if k == EntryKind::RegularFile {
            lemma_run_pair(s, Event::Entry(k), Event::Spawned);
            lemma_count_single(Action::SpawnEntry);
            lemma_count_single(Action::ReadNextEntry);
        } else {
            lemma_run_single(s, Event::Entry(k));
            lemma_count_single(Action::ReadNextEntry);
        }
    } else {
        assert(run(s, listing_events(kinds)).1 =~= Seq::<Action>::empty());
    }
}

/// On an existing directory, the launcher issues one spawn attempt per regular
/// file, whatever else the directory holds, and completes successfully: its
/// last action asks for the listen address.
pub proof fn lemma_one_spawn_per_file(kinds: Seq<EntryKind>)
    ensures
        count_spawns(run(initial(), launch_events(kinds)).1) == count_files(kinds),
        run(initial(), launch_events(kinds)).0 == (Bootstrap {
            phase: Phase::Configuring,
            launcher_done: true,
        }),
        run(initial(), launch_events(kinds)).1.last() == Action::ParseAddress,
{
    let head = seq![Event::Start, Event::Probed(DirProbe::Directory)];
    let tail = seq![Event::ListingEnd];
    let mid = listing_events(kinds);
    let listing = Bootstrap { phase: Phase::Listing, launcher_done: false };
    assert(launch_events(kinds) == (head + mid) + tail);
    lemma_run_append(initial(), head + mid, tail);
    lemma_run_append(initial(), head, mid);
    lemma_run_pair(initial(), Event::Start, Event::Probed(DirProbe::Directory));
    lemma_count_single(Action::ProbeDir);
    lemma_count_single(Action::ReadNextEntry);
    lemma_listing(listing, kinds);
    lemma_run_single(listing, Event::ListingEnd);
    lemma_count_single(Action::ParseAddress);
    let h = run(initial(), head).1;
    lemma_count_append(h, run(listing, mid).1);
    lemma_count_append(h + run(listing, mid).1, run(listing, tail).1);
}

/// A directory of `n` regular files and nothing else gets exactly `n` spawn
/// attempts, and the launcher phase succeeds.
pub proof fn lemma_regular_files_spawned(n: nat)
    ensures
        count_spawns(run(initial(), launch_events(Seq::new(n, |i: int| EntryKind::RegularFile))).1)
            == n,
        run(initial(), launch_events(Seq::new(n, |i: int| EntryKind::RegularFile))).0.launcher_done,
{
    lemma_files_counted(n, EntryKind::RegularFile);
    lemma_one_spawn_per_file(Seq::new(n, |i: int| EntryKind::RegularFile));
}

/// A directory of `n` subdirectories and nothing else gets no spawn attempt,
/// and the launcher phase succeeds.
pub proof fn lemma_subdirectories_not_spawned(n: nat)
    ensures
        count_spawns(run(initial(), launch_events(Seq::new(n, |i: int| EntryKind::Directory))).1)
            == 0,
        run(initial(), launch_events(Seq::new(n, |i: int| EntryKind::Directory))).0.launcher_done,
{
    lemma_files_counted(n, EntryKind::Directory);
    lemma_one_spawn_per_file(Seq::new(n, |i: int| EntryKind::Directory));
}

proof fn lemma_files_counted(n: nat, k: EntryKind)
    ensures
        count_files(Seq::new(n, |i: int| k)) == if k == EntryKind::RegularFile {
            n
        } else {
            0
        },
    decreases n,
{
    if n > 0 {
        lemma_files_counted((n - 1) as nat, k);
        assert(Seq::new(n, |i: int| k).drop_last() =~= Seq::new((n - 1) as nat, |i: int| k));
    }
}

/// A missing path, or one that is not a directory, gets no spawn attempt; the
/// launcher reports it and the bootstrap goes on to the listen address.
pub proof fn lemma_missing_dir_skipped(probe: DirProbe)
    requires
        probe != DirProbe::Directory,
    ensures
        run(initial(), seq![Event::Start, Event::Probed(probe), Event::Acknowledged]).1 == seq![
            Action::ProbeDir,
            Action::ReportMissingDir,
            Action::ParseAddress,
        ],
        count_spawns(
            run(initial(), seq![Event::Start, Event::Probed(probe), Event::Acknowledged]).1,
        ) == 0,
        run(initial(), seq![Event::Start, Event::Probed(probe), Event::Acknowledged]).0 == (
        Bootstrap { phase: Phase::Configuring, launcher_done: true }),
{
    let s1 = next(initial(), Event::Start).0;
    assert(seq![Event::Start] + seq![Event::Probed(probe), Event::Acknowledged] =~= seq![
        Event::Start,
        Event::Probed(probe),
        Event::Acknowledged,
    ]);
    lemma_run_append(
        initial(),
        seq![Event::Start],
        seq![Event::Probed(probe), Event::Acknowledged],
    );
    lemma_run_single(initial(), Event::Start);
    lemma_run_pair(s1, Event::Probed(probe), Event::Acknowledged);
    let acts = run(initial(), seq![Event::Start, Event::Probed(probe), Event::Acknowledged]).1;
    assert(acts =~= seq![Action::ProbeDir] + seq![Action::ReportMissingDir, Action::ParseAddress]);
    lemma_count_append(seq![Action::ProbeDir], seq![Action::ReportMissingDir, Action::ParseAddress]);
    lemma_count_single(Action::ProbeDir);
    lemma_count_single(Action::ReportMissingDir);
    lemma_count_single(Action::ParseAddress);
    assert(seq![Action::ReportMissingDir] + seq![Action::ParseAddress] =~= seq![
        Action::ReportMissingDir,
        Action::ParseAddress,
    ]);
    lemma_count_append(seq![Action::ReportMissingDir], seq![Action::ParseAddress]);
}

} // verus!
