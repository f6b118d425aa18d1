//! `sync`: bring the configuration in line with the addons that are installed.
//!
//! Each installed addon that the configuration already knows keeps its entry,
//! which is marked as a dependency where the addon's name starts with `Lib`.
//! Each one it does not know is looked up (cache, then esoui.com) and, where
//! a download URL is found, added. The configuration is saved once at the
//! end, if anything changed.
//!
//! The caller runs the loop: it calls `SyncCommand::step` until it answers
//! `Done`, resolves the names it is asked to resolve, and saves when asked.

use vstd::prelude::*;
use crate::text::{has_prefix, starts_with, opt_view};
use crate::config::{AddonEntry, EntryView, entry_views, find_name, position_of_name, copy_opt};

verus! {

/// Addons whose name starts with `Lib` are libraries: installed as
/// dependencies of other addons.
pub open spec fn is_library_name(name: Seq<char>) -> bool {
    has_prefix(name, "Lib"@)
}

/// An entry after its addon was seen installed.
pub open spec fn seen_installed(e: EntryView) -> EntryView {
    EntryView { name: e.name, url: e.url, dependency: e.dependency || is_library_name(e.name) }
}

/// The entry added for an installed addon that was not configured.
pub open spec fn discovered_entry(name: Seq<char>, url: Seq<char>) -> EntryView {
    EntryView { name, url: Some(url), dependency: is_library_name(name) }
}

/// Entries `new` keep those of `old`, in order, with the same name and URL,
/// and a dependency flag that was set stays set.
pub open spec fn keeps_entries(old: Seq<EntryView>, new: Seq<EntryView>) -> bool {
    &&& old.len() <= new.len()
    &&& forall|i: int|
        0 <= i < old.len() ==> new[i].name == old[i].name && new[i].url == old[i].url && (
        old[i].dependency ==> new[i].dependency)
}

/// `sync` as a command.
pub struct SyncCommand;

/// How far a sync has come: the next installed addon to look at, and whether
/// the configuration changed since it was last saved.
pub struct SyncProgress {
    pub next: usize,
    pub changed: bool,
}

/// What the caller does next.
#[derive(Debug, PartialEq, Eq)]
pub enum SyncAction {
    /// Nothing to do; call `step` again.
    Continue,
    /// Look up the download URL of this installed addon (cache, then
    /// esoui.com) and call `step` again with the result.
    Resolve(String),
    /// Save the configuration, then call `step` again.
    Save,
    /// The sync is finished.
    Done,
}

impl SyncProgress {
    /// A sync that has not started.
    pub fn new() -> (p: SyncProgress)
        ensures
            p.next == 0,
            !p.changed,
    {
        SyncProgress { next: 0, changed: false }
    }
}

impl SyncCommand {
    /// One step of the sync over the `installed` addon names. `resolved` is
    /// the result of the lookup last asked for by `Resolve`, `None` where none
    /// was asked for.
    pub fn step(
        &self,
        entries: &mut Vec<AddonEntry>,
        installed: &Vec<String>,
        progress: &mut SyncProgress,
        resolved: Option<Option<String>>,
    ) -> (action: SyncAction)
        ensures
            keeps_entries(entry_views(old(entries)@), entry_views(final(entries)@)),
            ({
                let old_entries = entry_views(old(entries)@);
                let new_entries = entry_views(final(entries)@);
                let next = old(progress).next;
                if next < installed@.len() {
                    let name = installed@[next as int]@;
                    match find_name(old_entries, name) {
                        Some(k) => {
                            &&& action is Continue
                            &&& final(progress).next == next + 1
                            &&& new_entries == old_entries.update(k, seen_installed(old_entries[k]))
                            &&& final(progress).changed == (old(progress).changed || (
                            is_library_name(name) && !old_entries[k].dependency))
                        },
                        None => match resolved {
                            None => {
                                &&& action matches SyncAction::Resolve(n) && n@ == name
                                &&& final(progress).next == next
                                &&& final(progress).changed == old(progress).changed
                                &&& new_entries == old_entries
                            },
                            Some(None) => {
                                &&& action is Continue
                                &&& final(progress).next == next + 1
                                &&& final(progress).changed == old(progress).changed
                                &&& new_entries == old_entries
                            },
                            Some(Some(url)) => {
                                &&& action is Continue
                                &&& final(progress).next == next + 1
                                &&& final(progress).changed
                                &&& new_entries == old_entries.push(discovered_entry(name, url@))
                            },
                        },
                    }
                } else {
                    &&& action == (if old(progress).changed {
                        SyncAction::Save
                    } else {
                        SyncAction::Done
                    })
                    &&& final(progress).next == next
                    &&& !final(progress).changed
                    &&& new_entries == old_entries
                }
            }),
    {
        let ghost old_entries = entry_views(entries@);
        if progress.next >= installed.len() {
            let was_changed = progress.changed;
            progress.changed = false;
            return if was_changed {
                SyncAction::Save
            } else {
                SyncAction::Done
            };
        }
        let name = &installed[progress.next];
        let is_dependency = starts_with(name.as_str(), "Lib");
        match position_of_name(entries, name) {
            Some(k) => {
                proof {
                    crate::config::lemma_find_name(old_entries, name@);
                }
                if is_dependency && !entries[k].dependency {
                    let marked = AddonEntry {
                        name: entries[k].name.clone(),
                        url: copy_opt(&entries[k].url),
                        dependency: true,
                    };
                    entries.set(k, marked);
                    progress.changed = true;
                }
                proof {
                    assert(entry_views(entries@) =~= old_entries.update(
                        k as int,
                        seen_installed(old_entries[k as int]),
                    ));
                }
                progress.next = progress.next + 1;
                SyncAction::Continue
            },
            None => match resolved {
                None => SyncAction::Resolve(name.clone()),
                Some(None) => {
                    progress.next = progress.next + 1;
                    SyncAction::Continue
                },
                Some(Some(url)) => {
                    let ghost url_view = url@;
                    entries.push(AddonEntry { name: name.clone(), url: Some(url), dependency: is_dependency });
                    assert(entry_views(entries@) =~= old_entries.push(discovered_entry(name@, url_view)));
                    progress.changed = true;
                    progress.next = progress.next + 1;
                    SyncAction::Continue
                },
            },
        }
    }
}

/// A name counts as a library exactly when its first three characters are
/// `L`, `i`, `b`: `LibAddonMenu-2.0` is one, `LoreBooks` and `Lib` cut short
/// (`Li`) are not.
pub proof fn law_library_names(name: Seq<char>)
    ensures
        is_library_name(name) <==> (name.len() >= 3 && name[0] == 'L' && name[1] == 'i' && name[2]
            == 'b'),
{
    reveal_strlit("Lib");
    if name.len() >= 3 && name[0] == 'L' && name[1] == 'i' && name[2] == 'b' {
        assert(name.subrange(0, 3) =~= "Lib"@);
    }
    if is_library_name(name) {
        assert(name.subrange(0, 3)[0] == name[0]);
        assert(name.subrange(0, 3)[1] == name[1]);
        assert(name.subrange(0, 3)[2] == name[2]);
    }
}

/// A sync step that adds an installed addon records it as a dependency
/// exactly when its name starts with `Lib`, and a step that finds a
/// configured addon sets its dependency flag exactly when the flag was set or
/// the name starts with `Lib`.
pub proof fn law_sync_dependency_flags(name: Seq<char>, url: Seq<char>, e: EntryView)
    ensures
        discovered_entry(name, url).dependency <==> (name.len() >= 3 && name[0] == 'L' && name[1]
            == 'i' && name[2] == 'b'),
        discovered_entry(name, url).name == name && discovered_entry(name, url).url == Some(url),
        seen_installed(e).dependency <==> (e.dependency || (e.name.len() >= 3 && e.name[0] == 'L'
            && e.name[1] == 'i' && e.name[2] == 'b')),
        seen_installed(e).name == e.name && seen_installed(e).url == e.url,
{
    law_library_names(name);
    law_library_names(e.name);
}

} // verus!
