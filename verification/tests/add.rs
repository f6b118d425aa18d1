use eso_addons::add::{AddCommand, AddError, DependencyInstall, InstallAction, InstallEvent};
use eso_addons::config::AddonEntry;

fn entry(name: &str, url: Option<&str>, dependency: bool) -> AddonEntry {
    AddonEntry { name: name.to_owned(), url: url.map(|u| u.to_owned()), dependency }
}

#[test]
fn get_entry_needs_url_and_name() {
    let cmd = AddCommand { addon_url: None, dependency: false };
    assert!(cmd.needs_prompt());
    assert_eq!(cmd.addon_url(), Err(AddError::MissingAddonUrl));
    assert!(matches!(cmd.get_entry(Some("X".into()), None), Err(AddError::MissingAddonUrl)));

    let cmd = AddCommand { addon_url: Some("https://www.esoui.com/downloads/info1-X.html".into()), dependency: true };
    assert!(!cmd.needs_prompt());
    assert_eq!(cmd.addon_url(), Ok("https://www.esoui.com/downloads/info1-X.html".to_owned()));
    assert!(matches!(cmd.get_entry(None, None), Err(AddError::NoAddonName)));
    let e = cmd.get_entry(Some("X".into()), Some("dl".into())).unwrap();
    assert_eq!(e.name, "X");
    assert_eq!(e.url, Some("dl".to_owned()));
    assert!(e.dependency);
}

#[test]
fn prompt_answers_fill_the_fields() {
    let mut cmd = AddCommand { addon_url: None, dependency: true };
    cmd.apply_answers(Some(Some("u".into())), Some(None));
    assert_eq!(cmd.addon_url, Some("u".to_owned()));
    assert!(!cmd.dependency);
    cmd.apply_answers(None, Some(Some(true)));
    assert_eq!(cmd.addon_url, Some("u".to_owned()));
    assert!(cmd.dependency);
    cmd.apply_answers(Some(None), None);
    assert_eq!(cmd.addon_url, None);
    assert!(cmd.dependency);
}

#[test]
fn installed_check_goes_by_download_url() {
    let cmd = AddCommand { addon_url: None, dependency: false };
    let entries = vec![entry("A", Some("dl-a"), false), entry("B", None, false)];
    assert!(cmd.already_installed(&entries, &entry("Other", Some("dl-a"), false)));
    assert!(!cmd.already_installed(&entries, &entry("A", Some("dl-x"), false)));
    assert!(cmd.already_installed(&entries, &entry("C", None, false)));
}

#[test]
fn download_renames_the_entry() {
    let cmd = AddCommand { addon_url: None, dependency: false };
    let mut entries = Vec::new();
    cmd.record_download(&mut entries, entry("Page Name", Some("dl"), true), "FolderName".into());
    assert_eq!(entries.len(), 1);
    assert_eq!(entries[0].name, "FolderName");
    assert_eq!(entries[0].url, Some("dl".to_owned()));
    assert!(entries[0].dependency);
}

/// Runs a dependency install to the end against a table of known addons:
/// (lookup name, download URL, installed name, its dependencies, whether the
/// download works). Returns the actions taken, in order.
fn run_install(
    entries: &mut Vec<AddonEntry>,
    depends_on: &[&str],
    known: &[(&str, &str, &str, &[&str], bool)],
) -> Vec<InstallAction> {
    let mut install = DependencyInstall::new(depends_on.iter().map(|s| s.to_string()).collect());
    let mut event = InstallEvent::Continue;
    let mut log = Vec::new();
    loop {
        let action = install.step(entries, std::mem::replace(&mut event, InstallEvent::Continue));
        match &action {
            InstallAction::Continue | InstallAction::Save | InstallAction::Invalidate(_) => {}
            InstallAction::Resolve(name) => {
                let url = known.iter().find(|k| k.0 == name).map(|k| k.1.to_string());
                event = InstallEvent::Resolved(url);
            }
            InstallAction::Download(url) => {
                let k = known.iter().find(|k| k.1 == url).unwrap();
                event = InstallEvent::Downloaded(if k.4 {
                    Some((k.2.to_string(), k.3.iter().map(|s| s.to_string()).collect()))
                } else {
                    None
                });
            }
            InstallAction::Done => {
                log.push(action);
                break;
            }
        }
        log.push(action);
    }
    log
}

#[test]
fn dependencies_install_depth_first() {
    let mut entries = vec![entry("Present", Some("p"), false)];
    let known: &[(&str, &str, &str, &[&str], bool)] = &[
        ("LibA", "dl-a", "LibA", &["LibC", "Present"], true),
        ("LibB", "dl-b", "LibB", &[], true),
        ("LibC", "dl-c", "LibC", &[], true),
        ("Broken", "dl-x", "Broken", &[], false),
    ];
    let log = run_install(&mut entries, &["LibA", "Present", "Unknown", "Broken", "LibB"], known);
    let names: Vec<&str> = entries.iter().map(|e| e.name.as_str()).collect();
    assert_eq!(names, vec!["Present", "LibA", "LibC", "LibB"]);
    assert!(entries[1..].iter().all(|e| e.dependency));
    assert_eq!(entries[2].url, Some("dl-c".to_owned()));
    assert!(log.contains(&InstallAction::Invalidate("Broken".to_owned())));
    assert_eq!(log.iter().filter(|a| **a == InstallAction::Save).count(), 3);
    assert_eq!(log.last(), Some(&InstallAction::Done));
}

#[test]
fn configured_dependencies_are_not_resolved() {
    let mut entries = vec![entry("LibA", None, true)];
    let log = run_install(&mut entries, &["LibA"], &[]);
    assert!(!log.iter().any(|a| matches!(a, InstallAction::Resolve(_))));
    assert_eq!(entries.len(), 1);
}
