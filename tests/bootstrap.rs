use store_bootstrap::bootstrap::{
    exit_status, run_events, Action, Bootstrap, Event, ExitReason, Phase,
};
use store_bootstrap::launcher::{DirProbe, EntryKind};

fn count_spawns(acts: &[Action]) -> usize {
    acts.iter().filter(|a| **a == Action::SpawnEntry).count()
}

fn launch(kinds: &[EntryKind]) -> Vec<Event> {
    let mut evs = vec![Event::Start, Event::Probed(DirProbe::Directory)];
    for k in kinds {
        evs.push(Event::Entry(*k));
        if *k == EntryKind::RegularFile {
            evs.push(Event::Spawned);
        }
    }
    evs.push(Event::ListingEnd);
    evs
}

#[test]
fn three_regular_files_get_three_spawns() {
    let evs = launch(&[EntryKind::RegularFile; 3]);
    let (s, acts) = run_events(&evs);
    assert_eq!(count_spawns(&acts), 3);
    assert_eq!(acts.len(), evs.len());
    assert_eq!(*acts.last().unwrap(), Action::ParseAddress);
    assert_eq!(s, Bootstrap { phase: Phase::Configuring, launcher_done: true });
}

#[test]
fn empty_directory_gets_no_spawn() {
    let (s, acts) = run_events(&launch(&[]));
    assert_eq!(acts, vec![Action::ProbeDir, Action::ReadNextEntry, Action::ParseAddress]);
    assert!(s.launcher_done);
}

#[test]
fn missing_directory_is_skipped() {
    for probe in [DirProbe::Missing, DirProbe::NotADirectory] {
        let (s, acts) =
            run_events(&vec![Event::Start, Event::Probed(probe), Event::Acknowledged]);
        assert_eq!(
            acts,
            vec![Action::ProbeDir, Action::ReportMissingDir, Action::ParseAddress]
        );
        assert_eq!(count_spawns(&acts), 0);
        assert_eq!(s, Bootstrap { phase: Phase::Configuring, launcher_done: true });
    }
}

#[test]
fn only_subdirectories_get_no_spawn() {
    let (s, acts) = run_events(&launch(&[EntryKind::Directory, EntryKind::Directory]));
    assert_eq!(count_spawns(&acts), 0);
    assert_eq!(s.phase, Phase::Configuring);
    assert!(s.launcher_done);
}

#[test]
fn mixed_directory_spawns_files_only() {
    let kinds = [
        EntryKind::Directory,
        EntryKind::RegularFile,
        EntryKind::Other,
        EntryKind::RegularFile,
    ];
    let (_, acts) = run_events(&launch(&kinds));
    assert_eq!(count_spawns(&acts), 2);
}

#[test]
fn full_run_serves_after_launcher() {
    let mut evs = launch(&[EntryKind::RegularFile]);
    evs.push(Event::AddressParsed);
    evs.push(Event::ReflectionBuilt);
    let (s, acts) = run_events(&evs);
    assert_eq!(s.phase, Phase::Serving);
    assert!(s.launcher_done);
    let serve = acts.iter().position(|a| *a == Action::Serve).unwrap();
    assert_eq!(serve, acts.len() - 1);
    assert!(acts[..serve].contains(&Action::SpawnEntry));
    assert_eq!(acts[serve - 1], Action::BuildReflection);
}

#[test]
fn serve_requests_before_launcher_end_are_ignored() {
    let mut b = Bootstrap::new();
    assert_eq!(b.step(Event::Start), Action::ProbeDir);
    assert_eq!(b.step(Event::Probed(DirProbe::Directory)), Action::ReadNextEntry);
    assert_eq!(b.step(Event::ReflectionBuilt), Action::Idle);
    assert_eq!(b.step(Event::AddressParsed), Action::Idle);
    assert_eq!(b.phase, Phase::Listing);
    assert!(!b.launcher_done);
    assert_eq!(b.step(Event::ListingEnd), Action::ParseAddress);
    assert_eq!(b.step(Event::AddressParsed), Action::BuildReflection);
    assert_eq!(b.step(Event::ReflectionBuilt), Action::Serve);
}

#[test]
fn malformed_address_exits_without_serving() {
    let mut evs = launch(&[EntryKind::RegularFile]);
    evs.push(Event::AddressMalformed);
    evs.push(Event::ReflectionBuilt);
    let (s, acts) = run_events(&evs);
    assert_eq!(s.phase, Phase::Exited);
    assert!(!acts.contains(&Action::Serve));
    assert_eq!(acts[acts.len() - 2], Action::Exit(ExitReason::BadAddress));
    assert_eq!(acts[acts.len() - 1], Action::Idle);
    assert_ne!(exit_status(ExitReason::BadAddress), 0);
}

#[test]
fn listing_failure_aborts_before_host() {
    let evs = vec![
        Event::Start,
        Event::Probed(DirProbe::Directory),
        Event::Entry(EntryKind::RegularFile),
        Event::Spawned,
        Event::ListingFailed,
        Event::AddressParsed,
    ];
    let (s, acts) = run_events(&evs);
    assert_eq!(acts[4], Action::Exit(ExitReason::ListingFailed));
    assert_eq!(acts[5], Action::Idle);
    assert_eq!(s.phase, Phase::Exited);
    assert!(!s.launcher_done);
}

#[test]
fn spawn_failure_aborts_before_host() {
    let evs = vec![
        Event::Start,
        Event::Probed(DirProbe::Directory),
        Event::Entry(EntryKind::RegularFile),
        Event::SpawnFailed,
    ];
    let (s, acts) = run_events(&evs);
    assert_eq!(*acts.last().unwrap(), Action::Exit(ExitReason::SpawnFailed));
    assert_eq!(s.phase, Phase::Exited);
}

#[test]
fn reflection_and_serve_failures_exit() {
    let mut b = Bootstrap { phase: Phase::Building, launcher_done: true };
    assert_eq!(b.step(Event::ReflectionFailed), Action::Exit(ExitReason::ReflectionFailed));
    let mut b = Bootstrap { phase: Phase::Serving, launcher_done: true };
    assert_eq!(b.step(Event::ServeEnded), Action::Exit(ExitReason::ServeFailed));
    assert_eq!(b.phase, Phase::Exited);
    assert_eq!(b.step(Event::Start), Action::Idle);
    for r in [
        ExitReason::ListingFailed,
        ExitReason::SpawnFailed,
        ExitReason::BadAddress,
        ExitReason::ReflectionFailed,
        ExitReason::ServeFailed,
    ] {
        assert_eq!(exit_status(r), 1);
    }
}
