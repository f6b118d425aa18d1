//! The configured addons: one entry per installed addon, with the URL it is
//! downloaded from and whether it was installed only as a dependency.

use vstd::prelude::*;
use crate::text::opt_view;

verus! {

/// One configured addon.
pub struct AddonEntry {
    pub name: String,
    pub url: Option<String>,
    pub dependency: bool,
}

/// An entry as plain values.
pub struct EntryView {
    pub name: Seq<char>,
    pub url: Option<Seq<char>>,
    pub dependency: bool,
}

impl View for AddonEntry {
    type V = EntryView;

    open spec fn view(&self) -> EntryView {
        EntryView {
            name: self.name@,
            url: opt_view(self.url),
            dependency: self.dependency,
        }
    }
}

/// The views of a list of entries.
pub open spec fn entry_views(s: Seq<AddonEntry>) -> Seq<EntryView> {
    s.map_values(|e: AddonEntry| e@)
}

/// The position of the first entry named `name`.
pub open spec fn find_name(s: Seq<EntryView>, name: Seq<char>) -> Option<int>
    decreases s.len(),
{
    if s.len() == 0 {
        None
    } else if s[0].name == name {
        Some(0)
    } else {
        match find_name(s.drop_first(), name) {
            Some(k) => Some(k + 1),
            None => None,
        }
    }
}

/// The position of the first entry whose download URL is `url`.
pub open spec fn find_url(s: Seq<EntryView>, url: Option<Seq<char>>) -> Option<int>
    decreases s.len(),
{
    if s.len() == 0 {
        None
    } else if s[0].url == url {
        Some(0)
    } else {
        match find_url(s.drop_first(), url) {
            Some(k) => Some(k + 1),
            None => None,
        }
    }
}

/// `find_name` is the first position that holds the name.
pub proof fn lemma_find_name(s: Seq<EntryView>, name: Seq<char>)
    ensures
        match find_name(s, name) {
            Some(k) => 0 <= k < s.len() && s[k].name == name && forall|j: int|
                0 <= j < k ==> s[j].name != name,
            None => forall|j: int| 0 <= j < s.len() ==> s[j].name != name,
        },
    decreases s.len(),
{
    if s.len() > 0 {
        lemma_find_name(s.drop_first(), name);
        assert forall|j: int| 0 < j < s.len() implies s[j] == s.drop_first()[j - 1] by {}
    }
}

/// `find_url` is the first position that holds the URL.
pub proof fn lemma_find_url(s: Seq<EntryView>, url: Option<Seq<char>>)
    ensures
        match find_url(s, url) {
            Some(k) => 0 <= k < s.len() && s[k].url == url && forall|j: int|
                0 <= j < k ==> s[j].url != url,
            None => forall|j: int| 0 <= j < s.len() ==> s[j].url != url,
        },
    decreases s.len(),
{
    if s.len() > 0 {
        lemma_find_url(s.drop_first(), url);
        assert forall|j: int| 0 < j < s.len() implies s[j] == s.drop_first()[j - 1] by {}
    }
}

/// A copy of an optional string.
pub fn copy_opt(o: &Option<String>) -> (r: Option<String>)
    ensures
        r == *o,
{
    match o {
        Some(s) => Some(s.clone()),
        None => None,
    }
}

/// Whether two optional strings are equal.
pub fn opt_eq(a: &Option<String>, b: &Option<String>) -> (r: bool)
    ensures
        r == (opt_view(*a) == opt_view(*b)),
{
    match (a, b) {
        (Some(x), Some(y)) => *x == *y,
        (None, None) => true,
        _ => false,
    }
}

/// A copy of an entry.
pub fn copy_entry(e: &AddonEntry) -> (r: AddonEntry)
    ensures
        r@ == e@,
{
    AddonEntry { name: e.name.clone(), url: copy_opt(&e.url), dependency: e.dependency }
}

/// The position of the first entry named `name`.
pub fn position_of_name(entries: &Vec<AddonEntry>, name: &String) -> (r: Option<usize>)
    ensures
        match r {
            Some(k) => find_name(entry_views(entries@), name@) == Some(k as int),
            None => find_name(entry_views(entries@), name@) is None,
        },
{
    let ghost s = entry_views(entries@);
    proof {
        lemma_find_name(s, name@);
    }
    let mut i: usize = 0;
    while i < entries.len()
        invariant
            s == entry_views(entries@),
            i <= entries@.len(),
            forall|j: int| 0 <= j < i ==> s[j].name != name@,
            match find_name(s, name@) {
                Some(k) => 0 <= k < s.len() && s[k].name == name@ && forall|j: int|
                    0 <= j < k ==> s[j].name != name@,
                None => forall|j: int| 0 <= j < s.len() ==> s[j].name != name@,
            },
        decreases entries.len() - i,
    {
        assert(s[i as int] == entries@[i as int]@);
        if entries[i].name == *name {
            return Some(i);
        }
        i = i + 1;
    }
    None
}

/// The position of the first entry whose download URL is `url`.
pub fn position_of_url(entries: &Vec<AddonEntry>, url: &Option<String>) -> (r: Option<usize>)
    ensures
        match r {
            Some(k) => find_url(entry_views(entries@), opt_view(*url)) == Some(k as int),
            None => find_url(entry_views(entries@), opt_view(*url)) is None,
        },
{
    let ghost s = entry_views(entries@);
    let ghost u = opt_view(*url);
    proof {
        lemma_find_url(s, u);
    }
    let mut i: usize = 0;
    while i < entries.len()
        invariant
            s == entry_views(entries@),
            u == opt_view(*url),
            i <= entries@.len(),
            forall|j: int| 0 <= j < i ==> s[j].url != u,
            match find_url(s, u) {
                Some(k) => 0 <= k < s.len() && s[k].url == u && forall|j: int|
                    0 <= j < k ==> s[j].url != u,
                None => forall|j: int| 0 <= j < s.len() ==> s[j].url != u,
            },
        decreases entries.len() - i,
    {
        assert(s[i as int] == entries@[i as int]@);
        if opt_eq(&entries[i].url, url) {
            return Some(i);
        }
        i = i + 1;
    }
    None
}

} // verus!
