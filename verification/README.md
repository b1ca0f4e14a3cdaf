# strata

The verified core of the Strata file manager, written in Verus.

- `src/` is the library, proved by Verus:
  - `exclusions`: parsing search-exclusion entries and deciding which
    entries a search skips;
  - `paths`, `text`, `text_order`: Unix path components, character-level
    string helpers and the lexicographic order they rely on;
  - `camera_library`: the decisions of the walk that lists a camera's photos
    in one flat view (limits, deduplication, most recent folders first);
  - `icon`: bounded reading of a camera's preview icon;
  - `portal`: what the file-manager integration dialog shows and does.
- `tests/` runs the library on concrete values.
- `app/` holds the GTK and GIO code around the library: device I/O, async
  plumbing and widgets.
