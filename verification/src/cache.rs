//! The addon cache: a JSON file in the cache directory mapping addon names to
//! the URLs of their esoui.com pages.
//!
//! The caller reads the file and hands its text in (`None` where it could not
//! be read, which counts as an empty cache); where an operation changes the
//! cache, it hands back the text to write to the file.

use std::path::PathBuf;
use vstd::prelude::*;
use crate::addon_map::{AddonMap, pairs_map};
use crate::text::opt_view;
use crate::json::{json_string_map, decode_string_map, encode_string_map};

verus! {

/// `std::path::PathBuf`, carried through unchanged.
#[verifier::external_type_specification]
#[verifier::external_body]
pub struct ExPathBuf(std::path::PathBuf);

/// Why a cache operation failed.
#[derive(Debug)]
pub enum CacheError {
    /// The cache file's text is not a JSON object of strings.
    Decode(serde_json::Error),
    /// The new cache contents could not be written as JSON.
    Encode(serde_json::Error),
}

/// The view of what was read from the cache file.
pub open spec fn text_view(stored: Option<&str>) -> Option<Seq<char>> {
    match stored {
        Some(t) => Some(t@),
        None => None,
    }
}

/// The entries that the cache file holds: none where it could not be read,
/// what serde_json reads from its text otherwise (`None`: unreadable JSON).
pub open spec fn stored_entries(stored: Option<Seq<char>>) -> Option<Map<Seq<char>, Seq<char>>> {
    match stored {
        None => Some(Map::empty()),
        Some(text) => json_string_map(text),
    }
}

/// What a map holds for `name`.
pub open spec fn lookup(m: Map<Seq<char>, Seq<char>>, name: Seq<char>) -> Option<Seq<char>> {
    if m.contains_key(name) {
        Some(m[name])
    } else {
        None
    }
}

/// `text` is cache-file text that serde_json reads as `m`.
pub open spec fn encodes(text: Seq<char>, m: Map<Seq<char>, Seq<char>>) -> bool {
    json_string_map(text) == Some(m)
}

/// Where a lookup stands after a call of `AddonCache::find_addon`.
#[derive(Debug, PartialEq, Eq)]
pub enum FindStep {
    /// Finished: the page URL, if one was found, and the new cache file text,
    /// where the cache changed.
    Done { url: Option<String>, save: Option<String> },
    /// The name is not cached: search esoui.com for it and call again with
    /// the search's result.
    Search,
}

/// Local cache mapping addon name to esoui.com fileinfo page URL.
///
/// Entries are added whenever an addon is successfully resolved (either
/// found in the cache already, or looked up via the esoui search form).
/// If a cached URL later turns out to be invalid (e.g. downloading from it
/// fails), the entry is removed via `invalidate`.
pub struct AddonCache {
    dir: PathBuf,
}

/// Reads the cache's entries from what the file held.
fn load(stored: Option<&str>) -> (r: Result<AddonMap, CacheError>)
    ensures
        r is Ok <==> stored_entries(text_view(stored)) is Some,
        r matches Ok(m) ==> stored_entries(text_view(stored)) == Some(m.view()),
{
    match stored {
        None => Ok(AddonMap::new()),
        Some(text) => match decode_string_map(text) {
            Err(e) => Err(CacheError::Decode(e)),
            Ok(pairs) => {
                let mut m = AddonMap::new();
                let mut i: usize = 0;
                while i < pairs.len()
                    invariant
                        i <= pairs@.len(),
                        m.view() == pairs_map(pairs@.subrange(0, i as int)),
                    decreases pairs.len() - i,
                {
                    let (name, url) = &pairs[i];
                    m.insert(name.as_str(), url.as_str());
                    assert(pairs@.subrange(0, i + 1).drop_last() == pairs@.subrange(0, i as int));
                    i = i + 1;
                }
                assert(pairs@.subrange(0, pairs@.len() as int) == pairs@);
                Ok(m)
            },
        },
    }
}

/// The cache file text for the entries of `m`.
fn save(m: &AddonMap) -> (r: Result<String, CacheError>)
    ensures
        r matches Ok(text) && encodes(text@, m.view()),
{
    match encode_string_map(m.pairs()) {
        Ok(text) => Ok(text),
        Err(e) => Err(CacheError::Encode(e)),
    }
}

impl AddonCache {
    /// The directory that holds the cache file.
    pub closed spec fn location(&self) -> PathBuf {
        self.dir
    }

    /// Construct a cache backed by an arbitrary directory. Mainly useful for
    /// tests, but also allows callers to point the cache elsewhere.
    pub fn new_with_dir(dir: PathBuf) -> (c: AddonCache)
        ensures
            c.location() == dir,
    {
        AddonCache { dir }
    }

    /// The directory that holds the cache file.
    pub fn dir(&self) -> (d: &PathBuf)
        ensures
            *d == self.location(),
    {
        &self.dir
    }

    /// Look up an addon by exact name in the local cache only.
    pub fn get_cached(&self, stored: Option<&str>, name: &str) -> (r: Result<Option<String>, CacheError>)
        ensures
            r is Err <==> stored_entries(text_view(stored)) is None,
            r matches Ok(found) ==> stored_entries(text_view(stored)) matches Some(m) && opt_view(
                found,
            ) == lookup(m, name@),
    {
        let map = load(stored)?;
        Ok(map.get(name))
    }

    /// Add/update an entry in the cache; on success, the new file text.
    pub fn insert(&self, stored: Option<&str>, name: &str, url: &str) -> (r: Result<String, CacheError>)
        ensures
            r is Err <==> stored_entries(text_view(stored)) is None,
            r matches Ok(text) ==> stored_entries(text_view(stored)) matches Some(m) && encodes(
                text@,
                m.insert(name@, url@),
            ),
    {
        let mut map = load(stored)?;
        map.insert(name, url);
        save(&map)
    }

    /// Remove a (now invalid) entry from the cache; on success, the new file
    /// text where there was an entry to remove.
    pub fn invalidate(&self, stored: Option<&str>, name: &str) -> (r: Result<Option<String>, CacheError>)
        ensures
            r is Err <==> stored_entries(text_view(stored)) is None,
            r matches Ok(save) ==> stored_entries(text_view(stored)) matches Some(m) && match save {
                None => !m.contains_key(name@),
                Some(text) => m.contains_key(name@) && encodes(text@, m.remove(name@)),
            },
    {
        let mut map = load(stored)?;
        if map.remove(name) {
            let text = save(&map)?;
            Ok(Some(text))
        } else {
            Ok(None)
        }
    }

    /// Look up an addon by name, using the local cache first, and falling
    /// back to the esoui.com search form if it isn't cached. A successful
    /// lookup via search is stored back into the cache.
    ///
    /// `searched` is `None` until the search was made, then its result.
    pub fn find_addon(&self, stored: Option<&str>, name: &str, searched: Option<Option<String>>) -> (r: Result<FindStep, CacheError>)
        ensures
            r is Err <==> stored_entries(text_view(stored)) is None,
            r matches Ok(step) ==> stored_entries(text_view(stored)) matches Some(m) && if m.contains_key(name@) {
                step matches FindStep::Done { url: Some(u), save: None } && u@ == m[name@]
            } else {
                match searched {
                    None => step is Search,
                    Some(None) => step matches FindStep::Done { url: None, save: None },
                    Some(Some(found)) => step matches FindStep::Done { url: Some(u), save: Some(text) }
                        && u == found && encodes(text@, m.insert(name@, found@)),
                }
            },
    {
        let mut map = load(stored)?;
        if let Some(url) = map.get(name) {
            return Ok(FindStep::Done { url: Some(url), save: None });
        }
        match searched {
            None => Ok(FindStep::Search),
            Some(None) => Ok(FindStep::Done { url: None, save: None }),
            Some(Some(url)) => {
                map.insert(name, url.as_str());
                let text = save(&map)?;
                Ok(FindStep::Done { url: Some(url), save: Some(text) })
            },
        }
    }
}

/// A cache file that a failed read left unknown counts as an empty cache:
/// no name is found in it.
pub proof fn law_unreadable_cache_is_empty(name: Seq<char>)
    ensures
        stored_entries(None) matches Some(m) && lookup(m, name) is None,
{
}

/// After `insert` records `url` for `name`, a lookup of `name` in the file it
/// wrote finds `url`, in this or any other cache over the same directory;
/// every other name is found as before.
pub proof fn law_lookup_after_insert(
    m: Map<Seq<char>, Seq<char>>,
    text: Seq<char>,
    name: Seq<char>,
    url: Seq<char>,
    other: Seq<char>,
)
    requires
        encodes(text, m.insert(name, url)),
    ensures
        stored_entries(Some(text)) matches Some(n) && lookup(n, name) == Some(url) && (other != name
            ==> lookup(n, other) == lookup(m, other)),
{
}

/// A second `insert` for the same name overwrites the first: a lookup finds
/// the URL of the later one.
pub proof fn law_insert_overwrites(
    m: Map<Seq<char>, Seq<char>>,
    first: Seq<char>,
    second: Seq<char>,
    name: Seq<char>,
    old_url: Seq<char>,
    new_url: Seq<char>,
)
    requires
        encodes(first, m.insert(name, old_url)),
        encodes(second, m.insert(name, old_url).insert(name, new_url)),
    ensures
        stored_entries(Some(second)) matches Some(n) && lookup(n, name) == Some(new_url),
{
}

/// After `invalidate` removes `name`, a lookup of `name` in the file it wrote
/// finds nothing; every other name is found as before.
pub proof fn law_lookup_after_invalidate(
    m: Map<Seq<char>, Seq<char>>,
    text: Seq<char>,
    name: Seq<char>,
    other: Seq<char>,
)
    requires
        encodes(text, m.remove(name)),
    ensures
        stored_entries(Some(text)) matches Some(n) && lookup(n, name) is None && (other != name
            ==> lookup(n, other) == lookup(m, other)),
{
}

/// Invalidating a name that an `insert` added to a cache without it gives
/// back the cache as it was before the insert.
pub proof fn law_invalidate_undoes_insert(
    m: Map<Seq<char>, Seq<char>>,
    inserted: Seq<char>,
    removed: Seq<char>,
    name: Seq<char>,
    url: Seq<char>,
)
    requires
        !m.contains_key(name),
        encodes(inserted, m.insert(name, url)),
        encodes(removed, m.insert(name, url).remove(name)),
    ensures
        stored_entries(Some(removed)) == Some(m),
{
    assert(m.insert(name, url).remove(name) =~= m);
}

/// The file that `insert` writes for a name the cache did not hold holds
/// every entry of the cache, whatever its size, and the new one: one entry
/// more than before.
pub proof fn law_insert_keeps_every_entry(
    m: Map<Seq<char>, Seq<char>>,
    text: Seq<char>,
    name: Seq<char>,
    url: Seq<char>,
)
    requires
        m.dom().finite(),
        !m.contains_key(name),
        encodes(text, m.insert(name, url)),
    ensures
        stored_entries(Some(text)) matches Some(n) && n.dom().len() == m.dom().len() + 1
            && lookup(n, name) == Some(url) && forall|k: Seq<char>|
            #[trigger] m.contains_key(k) ==> lookup(n, k) == lookup(m, k),
{
    assert(m.insert(name, url).dom() =~= m.dom().insert(name));
}

} // verus!
