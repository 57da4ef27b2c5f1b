use ouroboros_tui::embed::{
    cache_matches, completion_identity, directory_name, gc, plan_extraction, private_mode,
    sha256_hex, temporary_name, temporary_owner, verify, CacheEntry, Entry, Extraction, KEEP,
};
use ouroboros_tui::ownership::{parting_notice, Daemon, Mode, Ownership, Parting, Quit};
use ouroboros_tui::subprocess::{before_start, before_turn, Drain, DrainStep, ReadEvent};
use ouroboros_tui::wire::Hello;

const ABC: &str = "ba7816bf8f01cfea414140de5dae2223b00361a396177a9cb410ff61f20015ad";

fn complete(version: &str, digest: &str) -> CacheEntry {
    CacheEntry {
        directory: true,
        bin: true,
        releases: true,
        marker: Some(completion_identity(version, digest).into_bytes()),
    }
}

#[test]
fn the_digest_of_three_letters() {
    assert_eq!(sha256_hex(b"abc"), ABC);
    assert!(verify(b"abc", ABC).is_ok());
    let refusal = verify(b"abd", ABC).expect_err("another digest");
    assert!(refusal.contains("refusing to extract it"), "{refusal}");
    assert!(refusal.contains(ABC), "{refusal}");
}

#[test]
fn only_a_completed_extraction_of_the_same_release_is_reused() {
    assert_eq!(directory_name("1.2.3", ABC), format!("1.2.3+{ABC}"));
    assert!(cache_matches(&complete("1.2.3", ABC), "1.2.3", ABC));
    assert!(!cache_matches(&complete("1.2.3", ABC), "1.2.4", ABC));
    assert!(!cache_matches(&CacheEntry { bin: false, ..complete("1.2.3", ABC) }, "1.2.3", ABC));
    assert!(!cache_matches(&CacheEntry { marker: None, ..complete("1.2.3", ABC) }, "1.2.3", ABC));

    let missing = CacheEntry { directory: false, bin: false, releases: false, marker: None };
    let loud = ABC.to_uppercase();
    assert!(matches!(
        plan_extraction(&complete("1.2.3", ABC), b"other", &loud, "1.2.3"),
        Extraction::Reuse
    ));
    assert!(matches!(plan_extraction(&missing, b"abc", &loud, "1.2.3"), Extraction::Unpack));
    assert!(matches!(plan_extraction(&missing, b"abd", &loud, "1.2.3"), Extraction::Refuse(_)));
}

#[test]
fn a_collection_keeps_the_newest_and_the_live() {
    let entry = |name: &str, modified: i128, owner_alive: bool| Entry {
        name: name.to_string(),
        modified,
        owner_alive,
    };
    let entries = vec![
        entry("1.0.0+a", 1, false),
        entry("1.0.1+b", 4, false),
        entry(".tmp-7-0", 9, true),
        entry(".tmp-8-0", 9, false),
        entry("1.0.2+c", 3, false),
    ];

    assert_eq!(gc(&entries, KEEP), vec![3, 0]);
    assert!(gc(&Vec::new(), KEEP).is_empty());
    assert_eq!(temporary_owner(&temporary_name(4242, 7)), 4242);
    assert_eq!(temporary_owner(".tmp-nobody-0"), 0);
}

#[test]
fn a_shared_directory_is_made_private() {
    assert_eq!(private_mode(0o40755), Some(0o40700));
    assert_eq!(private_mode(0o40700), None);
}

#[test]
fn output_is_kept_whole_or_not_at_all() {
    let mut bytes = Vec::new();
    let mut turn = Drain::start();
    assert!(matches!(turn.step(&mut bytes, ReadEvent::Bytes(vec![1, 2])), DrainStep::Read));
    assert!(matches!(
        turn.step(&mut bytes, ReadEvent::Bytes(vec![0; 1_048_575])),
        DrainStep::Fail(_)
    ));
    assert_eq!(bytes, vec![1, 2]);
    assert!(matches!(turn.step(&mut bytes, ReadEvent::End), DrainStep::Done { closed: true }));
}

#[test]
fn a_cancellation_is_reported_ahead_of_a_deadline() {
    assert_eq!(before_start(true), Err("cancelled by the operator".to_string()));
    assert!(before_turn(true, true, 5).expect_err("cancelled").starts_with("cancelled"));
    assert_eq!(
        before_turn(false, true, 5),
        Err(
            "subprocess exceeded its 5 second deadline; inspect the destination before retrying"
                .to_string()
        )
    );
    assert!(before_turn(false, false, 5).is_ok());
}

#[test]
fn only_an_owner_stops_a_runtime() {
    let mut mine = Ownership::Spawned(Box::new(Daemon { pid: 41 }));
    let hello = Hello::default();

    assert_eq!(Ownership::Attached.parting(Quit::Shutdown, &hello), Parting::Disconnect);
    assert_eq!(
        mine.parting(Quit::Shutdown, &hello),
        Parting::Shutdown { pid: 41, ask: false }
    );
    assert_eq!(
        parting_notice(mine.parting(Quit::Detach, &hello)).as_deref(),
        Some("detached; the runtime is still running (pid 41)")
    );
    if let Some(daemon) = mine.owned_mut() {
        daemon.pid = 42;
    }
    assert_eq!(mine.mode(), Mode::Spawned { pid: 42 });
    assert_eq!(
        mine.detach_with_notice().as_deref(),
        Some("the runtime is still running (pid 42); `ouro` attaches to it")
    );
    assert_eq!(mine.mode(), Mode::Attached);
}
