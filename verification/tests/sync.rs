use eso_addons::config::AddonEntry;
use eso_addons::sync::{SyncAction, SyncCommand, SyncProgress};

fn entry(name: &str, url: Option<&str>, dependency: bool) -> AddonEntry {
    AddonEntry { name: name.to_owned(), url: url.map(|u| u.to_owned()), dependency }
}

/// Runs a sync to the end, resolving names with `resolve`; returns the names
/// asked for and the number of saves.
fn run_sync(
    entries: &mut Vec<AddonEntry>,
    installed: &[&str],
    resolve: impl Fn(&str) -> Option<String>,
) -> (Vec<String>, usize) {
    let installed: Vec<String> = installed.iter().map(|s| s.to_string()).collect();
    let mut progress = SyncProgress::new();
    let mut resolved = None;
    let mut asked = Vec::new();
    let mut saves = 0;
    loop {
        match SyncCommand.step(entries, &installed, &mut progress, resolved.take()) {
            SyncAction::Continue => {}
            SyncAction::Resolve(name) => {
                resolved = Some(resolve(&name));
                asked.push(name);
            }
            SyncAction::Save => saves += 1,
            SyncAction::Done => break,
        }
    }
    (asked, saves)
}

#[test]
fn sync_adds_unknown_addons_and_marks_libraries() {
    let mut entries = vec![entry("LibA", Some("u1"), false), entry("Known", Some("u2"), false)];
    let (asked, saves) = run_sync(&mut entries, &["LibA", "Known", "LibNew", "Missing", "Plain"], |n| {
        if n == "Missing" { None } else { Some(format!("dl-{}", n)) }
    });
    assert_eq!(asked, vec!["LibNew", "Missing", "Plain"]);
    assert_eq!(saves, 1);
    assert_eq!(entries.len(), 4);
    assert!(entries[0].dependency);
    assert!(!entries[1].dependency);
    assert_eq!(entries[2].name, "LibNew");
    assert_eq!(entries[2].url, Some("dl-LibNew".to_owned()));
    assert!(entries[2].dependency);
    assert_eq!(entries[3].name, "Plain");
    assert!(!entries[3].dependency);
}

#[test]
fn sync_without_changes_does_not_save() {
    let mut entries = vec![entry("LibA", Some("u1"), true), entry("Known", None, false)];
    let (asked, saves) = run_sync(&mut entries, &["LibA", "Known"], |_| None);
    assert!(asked.is_empty());
    assert_eq!(saves, 0);
    assert_eq!(entries.len(), 2);
}

#[test]
fn sync_lookup_failure_is_skipped() {
    let mut entries = Vec::new();
    let (asked, saves) = run_sync(&mut entries, &["Gone"], |_| None);
    assert_eq!(asked, vec!["Gone"]);
    assert_eq!(saves, 0);
    assert!(entries.is_empty());
}
