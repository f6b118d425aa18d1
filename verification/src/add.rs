//! `add`: install an addon from its esoui.com URL, then its dependencies.
//!
//! The caller prompts, fetches and downloads; the rules that decide what is
//! recorded in the configuration, and in which order dependencies are
//! installed, are here.

use vstd::prelude::*;
use crate::text::opt_view;
use crate::config::{AddonEntry, EntryView, entry_views, find_name, find_url, position_of_name,
    position_of_url, copy_opt};

verus! {

/// `add` as a command: the addon's URL, if given, and whether it is only a
/// dependency for another addon.
pub struct AddCommand {
    pub addon_url: Option<String>,
    pub dependency: bool,
}

/// Why `add` could not make a configuration entry.
#[derive(Debug, PartialEq, Eq)]
pub enum AddError {
    /// No URL was given, nor entered when asked.
    MissingAddonUrl,
    /// The addon's page did not yield its name.
    NoAddonName,
}

impl AddCommand {
    /// Whether the user must be asked for the fields.
    pub fn needs_prompt(&self) -> (r: bool)
        ensures
            r == self.addon_url is None,
    {
        self.addon_url.is_none()
    }

    /// Takes the answers of the prompt: for each question, `None` where it
    /// was not answered; the URL answer is `None` where it is not text, the
    /// dependency answer where it is not a yes or no (which counts as no).
    pub fn apply_answers(&mut self, addon_url: Option<Option<String>>, dependency: Option<Option<bool>>)
        ensures
            final(self).addon_url == match addon_url {
                Some(a) => a,
                None => old(self).addon_url,
            },
            final(self).dependency == match dependency {
                Some(Some(d)) => d,
                Some(None) => false,
                None => old(self).dependency,
            },
    {
        if let Some(a) = addon_url {
            self.addon_url = a;
        }
        if let Some(d) = dependency {
            self.dependency = match d {
                Some(b) => b,
                None => false,
            };
        }
    }

    /// The URL to install from.
    pub fn addon_url(&self) -> (r: Result<String, AddError>)
        ensures
            match self.addon_url {
                Some(u) => r matches Ok(v) && v@ == u@,
                None => r == Err::<String, AddError>(AddError::MissingAddonUrl),
            },
    {
        match &self.addon_url {
            Some(u) => Ok(u.clone()),
            None => Err(AddError::MissingAddonUrl),
        }
    }

    /// The configuration entry for the addon, from the name found on its
    /// page and its download URL.
    pub fn get_entry(&self, addon_name: Option<String>, download_url: Option<String>) -> (r: Result<AddonEntry, AddError>)
        ensures
            match (self.addon_url, addon_name) {
                (None, _) => r == Err::<AddonEntry, AddError>(AddError::MissingAddonUrl),
                (Some(_), None) => r == Err::<AddonEntry, AddError>(AddError::NoAddonName),
                (Some(_), Some(n)) => r matches Ok(e) && e@ == (EntryView {
                    name: n@,
                    url: opt_view(download_url),
                    dependency: self.dependency,
                }),
            },
    {
        if self.addon_url.is_none() {
            return Err(AddError::MissingAddonUrl);
        }
        match addon_name {
            None => Err(AddError::NoAddonName),
            Some(name) => Ok(AddonEntry { name, url: download_url, dependency: self.dependency }),
        }
    }

    /// Whether an addon with the entry's download URL is configured already.
    pub fn already_installed(&self, entries: &Vec<AddonEntry>, entry: &AddonEntry) -> (r: bool)
        ensures
            r == find_url(entry_views(entries@), entry@.url) is Some,
    {
        position_of_url(entries, &entry.url).is_some()
    }

    /// Records the downloaded addon: the entry, under the name that the
    /// download reported.
    pub fn record_download(&self, entries: &mut Vec<AddonEntry>, entry: AddonEntry, installed_name: String)
        ensures
            entry_views(final(entries)@) == entry_views(old(entries)@).push(
                EntryView { name: installed_name@, url: entry@.url, dependency: entry.dependency },
            ),
    {
        let ghost before = entry_views(entries@);
        let mut entry = entry;
        if entry.name != installed_name {
            entry.name = installed_name;
        }
        entries.push(entry);
        assert(entry_views(entries@) =~= before.push(
            EntryView { name: installed_name@, url: opt_view(entries@.last().url), dependency: entries@.last().dependency },
        ));
    }
}

/// What a dependency install waits for.
pub enum Awaiting {
    /// Nothing: the next dependency can be taken.
    Nothing,
    /// The download URL of this dependency.
    Url(String),
    /// The download of this dependency from this URL.
    Download(String, String),
}

/// What a dependency install waits for, as plain values.
pub enum AwaitingView {
    Nothing,
    Url(Seq<char>),
    Download(Seq<char>, Seq<char>),
}

/// A dependency install as plain values: the dependency lists still being
/// worked through, innermost last, each with the position of its next name;
/// and what the install waits for.
pub struct InstallView {
    pub stack: Seq<(Seq<Seq<char>>, int)>,
    pub awaiting: AwaitingView,
}

/// The views of a list of strings.
pub open spec fn name_views(v: Seq<String>) -> Seq<Seq<char>> {
    v.map_values(|s: String| s@)
}

/// The entry recorded for an installed dependency.
pub open spec fn dependency_entry(name: Seq<char>, url: Seq<char>) -> EntryView {
    EntryView { name, url: Some(url), dependency: true }
}

/// Installing the dependencies of an addon, depth first: each dependency that
/// is not configured yet is resolved to a download URL, downloaded, recorded
/// and saved, and then its own dependencies are installed before the next one.
pub struct DependencyInstall {
    stack: Vec<(Vec<String>, usize)>,
    awaiting: Awaiting,
}

/// What happened since the last step.
pub enum InstallEvent {
    /// Nothing to report.
    Continue,
    /// The download URL asked for: `None` where the dependency was not found
    /// or its download URL could not be resolved.
    Resolved(Option<String>),
    /// The download asked for: the installed addon's name and dependencies,
    /// or `None` where the download failed.
    Downloaded(Option<(String, Vec<String>)>),
}

/// What the caller does next.
#[derive(Debug, PartialEq, Eq)]
pub enum InstallAction {
    /// Nothing to do; call `step` again.
    Continue,
    /// Look up the download URL of this dependency and report it.
    Resolve(String),
    /// Download the addon at this URL and report it.
    Download(String),
    /// The download failed: drop this dependency's cached page URL, so that
    /// the next lookup searches esoui.com again; then call `step` again.
    Invalidate(String),
    /// Save the configuration, then call `step` again.
    Save,
    /// All dependencies are handled.
    Done,
}

impl DependencyInstall {
    /// The install as plain values.
    pub closed spec fn view(&self) -> InstallView {
        InstallView {
            stack: self.stack@.map_values(|f: (Vec<String>, usize)| (name_views(f.0@), f.1 as int)),
            awaiting: match self.awaiting {
                Awaiting::Nothing => AwaitingView::Nothing,
                Awaiting::Url(d) => AwaitingView::Url(d@),
                Awaiting::Download(d, u) => AwaitingView::Download(d@, u@),
            },
        }
    }

    /// Starts installing the dependencies `depends_on`.
    pub fn new(depends_on: Vec<String>) -> (r: DependencyInstall)
        ensures
            r.view().stack == seq![(name_views(depends_on@), 0int)],
            r.view().awaiting is Nothing,
    {
        let ghost names = name_views(depends_on@);
        let mut stack: Vec<(Vec<String>, usize)> = Vec::new();
        stack.push((depends_on, 0));
        let r = DependencyInstall { stack, awaiting: Awaiting::Nothing };
        assert(r.view().stack =~= seq![(names, 0int)]);
        r
    }

    /// One step of the install.
    pub fn step(&mut self, entries: &mut Vec<AddonEntry>, event: InstallEvent) -> (action: InstallAction)
        ensures
            ({
                let before = old(self).view();
                let after = final(self).view();
                let old_entries = entry_views(old(entries)@);
                let new_entries = entry_views(final(entries)@);
                match before.awaiting {
                    AwaitingView::Nothing => {
                        &&& new_entries == old_entries
                        &&& if before.stack.len() == 0 {
                            action is Done && after == before
                        } else {
                            let top = before.stack.last();
                            let rest = before.stack.drop_last();
                            if top.1 >= top.0.len() {
                                action is Continue && after.stack == rest && after.awaiting is Nothing
                            } else {
                                let dep = top.0[top.1];
                                &&& after.stack == rest.push((top.0, top.1 + 1))
                                &&& if find_name(old_entries, dep) is Some {
                                    action is Continue && after.awaiting is Nothing
                                } else {
                                    action matches InstallAction::Resolve(d) && d@ == dep
                                        && after.awaiting == AwaitingView::Url(dep)
                                }
                            }
                        }
                    },
                    AwaitingView::Url(dep) => {
                        &&& new_entries == old_entries
                        &&& after.stack == before.stack
                        &&& match event {
                            InstallEvent::Resolved(None) => action is Continue
                                && after.awaiting is Nothing,
                            InstallEvent::Resolved(Some(u)) => action matches InstallAction::Download(
                                v,
                            ) && v == u && after.awaiting == AwaitingView::Download(dep, u@),
                            _ => action matches InstallAction::Resolve(d) && d@ == dep && after
                                == before,
                        }
                    },
                    AwaitingView::Download(dep, url) => match event {
                        InstallEvent::Downloaded(None) => {
                            &&& action matches InstallAction::Invalidate(d) && d@ == dep
                            &&& after.stack == before.stack
                            &&& after.awaiting is Nothing
                            &&& new_entries == old_entries
                        },
                        InstallEvent::Downloaded(Some((name, deps))) => {
                            &&& action is Save
                            &&& after.stack == before.stack.push((name_views(deps@), 0int))
                            &&& after.awaiting is Nothing
                            &&& new_entries == old_entries.push(dependency_entry(name@, url))
                        },
                        _ => {
                            &&& action matches InstallAction::Download(u) && u@ == url
                            &&& after == before
                            &&& new_entries == old_entries
                        },
                    },
                }
            }),
    {
        let ghost before = self.view();
        let ghost old_entries = entry_views(entries@);
        let mut awaiting = Awaiting::Nothing;
        std::mem::swap(&mut awaiting, &mut self.awaiting);
        match awaiting {
            Awaiting::Nothing => {
                let n = self.stack.len();
                if n == 0 {
                    assert(self.view() =~= before);
                    return InstallAction::Done;
                }
                let (names, pos) = self.stack.pop().unwrap();
                proof {
                    assert(self.view().stack =~= before.stack.drop_last());
                }
                if pos >= names.len() {
                    return InstallAction::Continue;
                }
                let dep = names[pos].clone();
                let ghost dep_view = dep@;
                assert(dep_view == name_views(names@)[pos as int]);
                self.stack.push((names, pos + 1));
                assert(self.view().stack =~= before.stack.drop_last().push((before.stack.last().0, before.stack.last().1 + 1)));
                match position_of_name(entries, &dep) {
                    Some(_) => InstallAction::Continue,
                    None => {
                        self.awaiting = Awaiting::Url(dep.clone());
                        InstallAction::Resolve(dep)
                    },
                }
            },
            Awaiting::Url(dep) => match event {
                InstallEvent::Resolved(None) => InstallAction::Continue,
                InstallEvent::Resolved(Some(url)) => {
                    self.awaiting = Awaiting::Download(dep, url.clone());
                    InstallAction::Download(url)
                },
                _ => {
                    self.awaiting = Awaiting::Url(dep.clone());
                    InstallAction::Resolve(dep)
                },
            },
            Awaiting::Download(dep, url) => match event {
                InstallEvent::Downloaded(None) => InstallAction::Invalidate(dep),
                InstallEvent::Downloaded(Some((name, deps))) => {
                    let ghost deps_view = name_views(deps@);
                    entries.push(AddonEntry { name, url: Some(url), dependency: true });
                    assert(entry_views(entries@) =~= old_entries.push(entries@.last()@));
                    self.stack.push((deps, 0));
                    assert(self.view().stack =~= before.stack.push((deps_view, 0int)));
                    InstallAction::Save
                },
                _ => {
                    self.awaiting = Awaiting::Download(dep, url.clone());
                    InstallAction::Download(url)
                },
            },
        }
    }
}

/// A dependency installed by `DependencyInstall::step` is recorded under the
/// name that its download reported, with the URL it was downloaded from, as
/// a dependency.
pub proof fn law_dependency_entries(name: Seq<char>, url: Seq<char>)
    ensures
        dependency_entry(name, url).name == name,
        dependency_entry(name, url).url == Some(url),
        dependency_entry(name, url).dependency,
{
}

} // verus!
