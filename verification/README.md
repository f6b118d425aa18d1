# eso_addons

Addon lookup for The Elder Scrolls Online, verified with Verus.

- `src/` is the verified library:
  - `text`: prefix and substring tests on strings;
  - `percent`: percent-encoding of query values;
  - `addon_map`: the cache's entries, a map from addon names to page URLs;
  - `json`: the cache file's JSON format (through serde_json);
  - `cache`: the addon cache — lookups, inserts, invalidation, and the
    cache-then-search lookup — computed on the cache file's text;
  - `search`: the esoui.com search URL and the rules that pick an addon page
    out of a search's answer (HTML read through scraper);
  - `config`, `sync`, `add`: the configured addons, and the decisions of the
    `sync` and `add` commands, as steps that the caller drives.
- `app/` holds the I/O around it: the cache file on disk, the HTTP search,
  prompts and the command loops.
- `tests/` runs the library on concrete values.
