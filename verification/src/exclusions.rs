//! Search exclusions: folder names that hide directories of that name
//! anywhere, and directories whose whole subtree is hidden from search.

use vstd::prelude::*;
use crate::paths::{join_spec, path_starts_with_spec, path_starts_with};
use crate::text::{
    ascii_lower, eq_ignore_ascii_case_spec, trim_end_separators_spec, trim_spec, eq_ignore_ascii_case,
};

verus! {

/// The rules that keep entries out of search results.
#[derive(Clone, Debug, Default, PartialEq, Eq, Hash)]
pub struct SearchExclusions {
    /// Directory names excluded wherever they occur, compared ignoring ASCII case.
    pub folder_names: Vec<String>,
    /// Directories excluded with everything below them.
    pub directories: Vec<String>,
}

/// The mathematical value of a `SearchExclusions`.
pub struct SearchExclusionsView {
    pub folder_names: Seq<Seq<char>>,
    pub directories: Seq<Seq<char>>,
}

impl View for SearchExclusions {
    type V = SearchExclusionsView;

    open spec fn view(&self) -> SearchExclusionsView {
        SearchExclusionsView {
            folder_names: self.folder_names@.map_values(|s: String| s@),
            directories: self.directories@.map_values(|s: String| s@),
        }
    }
}

/// The text a raw entry stands for: trimmed of white space, then of trailing
/// path separators.
pub open spec fn entry_text(item: Seq<char>) -> Seq<char> {
    trim_end_separators_spec(trim_spec(item))
}

/// A non-empty entry text names a directory when it starts with `~` or `/`
/// or holds a path separator; otherwise it is a folder name.
pub open spec fn names_directory(t: Seq<char>) -> bool {
    ||| t[0] == '~'
    ||| t[0] == '/'
    ||| t.contains('/')
    ||| t.contains('\\')
}

/// The directory that the entry text `t` names: `~` is the home directory,
/// `~/rest` is `rest` below it, and anything else is taken as written.
pub open spec fn resolve_directory(t: Seq<char>, home: Seq<char>) -> Seq<char> {
    if t == seq!['~'] {
        home
    } else if t.len() >= 2 && t[0] == '~' && t[1] == '/' {
        join_spec(home, t.skip(2))
    } else {
        t
    }
}

/// The folder names that the raw entries give, in order.
pub open spec fn folder_names_spec(raw: Seq<Seq<char>>) -> Seq<Seq<char>>
    decreases raw.len(),
{
    if raw.len() == 0 {
        Seq::empty()
    } else {
        let before = folder_names_spec(raw.drop_last());
        let t = entry_text(raw.last());
        if t.len() > 0 && !names_directory(t) {
            before.push(t)
        } else {
            before
        }
    }
}

/// The directories that the raw entries give, in order, with `home` as the
/// home directory.
pub open spec fn directories_spec(raw: Seq<Seq<char>>, home: Seq<char>) -> Seq<Seq<char>>
    decreases raw.len(),
{
    if raw.len() == 0 {
        Seq::empty()
    } else {
        let before = directories_spec(raw.drop_last(), home);
        let t = entry_text(raw.last());
        if t.len() > 0 && names_directory(t) {
            before.push(resolve_directory(t, home))
        } else {
            before
        }
    }
}

/// The views of a list of strings.
pub open spec fn texts(raw: Seq<String>) -> Seq<Seq<char>> {
    raw.map_values(|s: String| s@)
}

/// `name` matches one of the excluded folder names, ignoring ASCII case.
pub open spec fn matches_folder_name(ex: SearchExclusionsView, name: Seq<char>) -> bool {
    exists|i: int|
        0 <= i < ex.folder_names.len() && eq_ignore_ascii_case_spec(
            name,
            #[trigger] ex.folder_names[i],
        )
}

/// `path` is one of the excluded directories or lies below one of them.
pub open spec fn below_excluded_directory(ex: SearchExclusionsView, path: Seq<char>) -> bool {
    exists|j: int|
        0 <= j < ex.directories.len() && path_starts_with_spec(path, #[trigger] ex.directories[j])
}

/// Whether the entry at `path`, called `name`, is excluded: a directory by
/// its name or its location, a file by its location only.
pub open spec fn is_excluded_spec(
    ex: SearchExclusionsView,
    path: Seq<char>,
    name: Seq<char>,
    is_directory: bool,
) -> bool {
    if is_directory {
        matches_folder_name(ex, name) || below_excluded_directory(ex, path)
    } else {
        below_excluded_directory(ex, path)
    }
}


/// The number of raw entries that are not blank once trimmed.
pub open spec fn count_nonblank(raw: Seq<Seq<char>>) -> nat
    decreases raw.len(),
{
    if raw.len() == 0 {
        0
    } else {
        count_nonblank(raw.drop_last()) + if entry_text(raw.last()).len() > 0 {
            1nat
        } else {
            0nat
        }
    }
}

/// Every non-blank entry gives exactly one rule, a folder name or a
/// directory, and blank entries give none.
pub proof fn law_each_nonblank_entry_gives_one_rule(raw: Seq<Seq<char>>, home: Seq<char>)
    ensures
        folder_names_spec(raw).len() + directories_spec(raw, home).len() == count_nonblank(raw),
    decreases raw.len(),
{
    if raw.len() > 0 {
        law_each_nonblank_entry_gives_one_rule(raw.drop_last(), home);
    }
}

/// Folder names are never blank and never hold a path separator, and none
/// starts with `~`.
pub proof fn law_folder_names_are_plain_names(raw: Seq<Seq<char>>)
    ensures
        forall|i: int|
            0 <= i < folder_names_spec(raw).len() ==> {
                let n = #[trigger] folder_names_spec(raw)[i];
                &&& n.len() > 0
                &&& n[0] != '~'
                &&& !n.contains('/')
                &&& !n.contains('\\')
            },
    decreases raw.len(),
{
    if raw.len() > 0 {
        law_folder_names_are_plain_names(raw.drop_last());
        let before = folder_names_spec(raw.drop_last());
        let all = folder_names_spec(raw);
        assert forall|i: int| 0 <= i < all.len() implies {
            let n = #[trigger] all[i];
            &&& n.len() > 0
            &&& n[0] != '~'
            &&& !n.contains('/')
            &&& !n.contains('\\')
        } by {
            if i < before.len() {
                assert(all[i] == before[i]);
            }
        }
    }
}

proof fn lemma_folder_entry_kept(raw: Seq<Seq<char>>, i: int)
    requires
        0 <= i < raw.len(),
        entry_text(raw[i]).len() > 0,
        !names_directory(entry_text(raw[i])),
    ensures
        folder_names_spec(raw).contains(entry_text(raw[i])),
    decreases raw.len(),
{
    let before = folder_names_spec(raw.drop_last());
    if i == raw.len() - 1 {
        assert(folder_names_spec(raw) == before.push(entry_text(raw[i])));
        assert(folder_names_spec(raw)[before.len() as int] == entry_text(raw[i]));
    } else {
        assert(raw.drop_last()[i] == raw[i]);
        lemma_folder_entry_kept(raw.drop_last(), i);
        let k = choose|k: int| 0 <= k < before.len() && before[k] == entry_text(raw[i]);
        assert(folder_names_spec(raw)[k] == before[k]);
    }
}

proof fn lemma_directory_entry_kept(raw: Seq<Seq<char>>, home: Seq<char>, i: int)
    requires
        0 <= i < raw.len(),
        entry_text(raw[i]).len() > 0,
        names_directory(entry_text(raw[i])),
    ensures
        directories_spec(raw, home).contains(resolve_directory(entry_text(raw[i]), home)),
    decreases raw.len(),
{
    let before = directories_spec(raw.drop_last(), home);
    let d = resolve_directory(entry_text(raw[i]), home);
    if i == raw.len() - 1 {
        assert(directories_spec(raw, home) == before.push(d));
        assert(directories_spec(raw, home)[before.len() as int] == d);
    } else {
        assert(raw.drop_last()[i] == raw[i]);
        lemma_directory_entry_kept(raw.drop_last(), home, i);
        let k = choose|k: int| 0 <= k < before.len() && before[k] == d;
        assert(directories_spec(raw, home)[k] == before[k]);
    }
}

/// `~` stands for the home directory: the entry `~` names the home
/// directory itself, and `~/rest`, for a relative `rest`, names `rest` below
/// it, one separator apart; a `rest` that is absolute stands for itself.
/// Any other entry names the directory as written.
pub proof fn law_tilde_stands_for_home(t: Seq<char>, home: Seq<char>, rest: Seq<char>)
    ensures
        resolve_directory(seq!['~'], home) == home,
        rest.len() > 0 && rest[0] != '/' && home.len() > 0 && home.last() != '/'
            ==> resolve_directory(seq!['~', '/'] + rest, home) == home + seq!['/'] + rest,
        rest.len() > 0 && rest[0] != '/' && home.len() > 0 && home.last() == '/'
            ==> resolve_directory(seq!['~', '/'] + rest, home) == home + rest,
        rest.len() > 0 && rest[0] == '/' ==> resolve_directory(seq!['~', '/'] + rest, home)
            == rest,
        t.len() > 0 && t[0] != '~' ==> resolve_directory(t, home) == t,
{
    let u = seq!['~', '/'] + rest;
    assert(u.skip(2) =~= rest);
    if rest.len() > 0 {
        assert(u != seq!['~']) by {
            assert(u.len() != 1);
        }
    }
    if t.len() > 0 && t[0] != '~' {
        assert(t != seq!['~']) by {
            assert(seq!['~'][0] == '~');
        }
    }
}

/// A folder-name entry hides every directory whose name matches it ignoring
/// ASCII case, wherever that directory lies.
pub proof fn law_folder_entry_hides_matching_directories(
    raw: Seq<Seq<char>>,
    home: Seq<char>,
    i: int,
    path: Seq<char>,
    name: Seq<char>,
)
    requires
        0 <= i < raw.len(),
        entry_text(raw[i]).len() > 0,
        !names_directory(entry_text(raw[i])),
        eq_ignore_ascii_case_spec(name, entry_text(raw[i])),
    ensures
        is_excluded_spec(
            SearchExclusionsView {
                folder_names: folder_names_spec(raw),
                directories: directories_spec(raw, home),
            },
            path,
            name,
            true,
        ),
{
    lemma_folder_entry_kept(raw, i);
    let names = folder_names_spec(raw);
    let k = choose|k: int| 0 <= k < names.len() && names[k] == entry_text(raw[i]);
    let ex = SearchExclusionsView { folder_names: names, directories: directories_spec(raw, home) };
    assert(eq_ignore_ascii_case_spec(name, ex.folder_names[k]));
}

/// A directory entry hides the directory it names and everything below it,
/// files and directories alike.
pub proof fn law_directory_entry_hides_its_subtree(
    raw: Seq<Seq<char>>,
    home: Seq<char>,
    i: int,
    path: Seq<char>,
    name: Seq<char>,
    is_directory: bool,
)
    requires
        0 <= i < raw.len(),
        entry_text(raw[i]).len() > 0,
        names_directory(entry_text(raw[i])),
        path_starts_with_spec(path, resolve_directory(entry_text(raw[i]), home)),
    ensures
        is_excluded_spec(
            SearchExclusionsView {
                folder_names: folder_names_spec(raw),
                directories: directories_spec(raw, home),
            },
            path,
            name,
            is_directory,
        ),
{
    lemma_directory_entry_kept(raw, home, i);
    let dirs = directories_spec(raw, home);
    let d = resolve_directory(entry_text(raw[i]), home);
    let k = choose|k: int| 0 <= k < dirs.len() && dirs[k] == d;
    let ex = SearchExclusionsView { folder_names: folder_names_spec(raw), directories: dirs };
    assert(path_starts_with_spec(path, ex.directories[k]));
}

/// A file is excluded by where it lies alone: its name plays no part.
pub proof fn law_file_exclusion_ignores_names(
    ex: SearchExclusionsView,
    path: Seq<char>,
    name: Seq<char>,
    other_name: Seq<char>,
)
    ensures
        is_excluded_spec(ex, path, name, false) == is_excluded_spec(ex, path, other_name, false),
{
}

/// Where a file is excluded, a directory at the same place is excluded too,
/// whatever its name.
pub proof fn law_excluded_location_excludes_directories(
    ex: SearchExclusionsView,
    path: Seq<char>,
    name: Seq<char>,
    other_name: Seq<char>,
)
    ensures
        is_excluded_spec(ex, path, name, false) ==> is_excluded_spec(ex, path, other_name, true),
{
}

/// Directory names that differ only in ASCII case are excluded alike.
pub proof fn law_directory_names_ignore_ascii_case(
    ex: SearchExclusionsView,
    path: Seq<char>,
    name: Seq<char>,
    other_name: Seq<char>,
)
    requires
        eq_ignore_ascii_case_spec(name, other_name),
    ensures
        is_excluded_spec(ex, path, name, true) == is_excluded_spec(ex, path, other_name, true),
{
    if matches_folder_name(ex, name) {
        let i = choose|i: int|
            0 <= i < ex.folder_names.len() && eq_ignore_ascii_case_spec(
                name,
                #[trigger] ex.folder_names[i],
            );
        let f = ex.folder_names[i];
        assert forall|k: int| 0 <= k < other_name.len() implies #[trigger] ascii_lower(other_name[k])
            == ascii_lower(f[k]) by {
            assert(ascii_lower(name[k]) == ascii_lower(other_name[k]));
            assert(ascii_lower(name[k]) == ascii_lower(f[k]));
        }
        assert(eq_ignore_ascii_case_spec(other_name, ex.folder_names[i]));
    }
    if matches_folder_name(ex, other_name) {
        let i = choose|i: int|
            0 <= i < ex.folder_names.len() && eq_ignore_ascii_case_spec(
                other_name,
                #[trigger] ex.folder_names[i],
            );
        let f = ex.folder_names[i];
        assert forall|k: int| 0 <= k < name.len() implies #[trigger] ascii_lower(name[k])
            == ascii_lower(f[k]) by {
            assert(ascii_lower(name[k]) == ascii_lower(other_name[k]));
            assert(ascii_lower(other_name[k]) == ascii_lower(f[k]));
        }
        assert(eq_ignore_ascii_case_spec(name, ex.folder_names[i]));
    }
}

/// Whatever lies below an entry excluded by its location is excluded too:
/// exclusion by directory carries down the whole subtree.
pub proof fn law_location_exclusion_is_inherited(
    ex: SearchExclusionsView,
    parent: Seq<char>,
    path: Seq<char>,
    name: Seq<char>,
    is_directory: bool,
)
    requires
        below_excluded_directory(ex, parent),
        path_starts_with_spec(path, parent),
    ensures
        is_excluded_spec(ex, path, name, is_directory),
{
    let j = choose|j: int|
        0 <= j < ex.directories.len() && path_starts_with_spec(
            parent,
            #[trigger] ex.directories[j],
        );
    let d = ex.directories[j];
    let cp = crate::paths::components(path);
    let cq = crate::paths::components(parent);
    let cd = crate::paths::components(d);
    assert(cp.take(cd.len() as int) =~= cq.take(cd.len() as int)) by {
        assert forall|k: int| 0 <= k < cd.len() implies cp[k] == cq[k] by {
            assert(cp.take(cq.len() as int)[k] == cq[k]);
        }
    }
    assert(path_starts_with_spec(path, ex.directories[j]));
}

impl SearchExclusions {
    /// Parses the raw exclusion entries: blank entries are dropped, entries
    /// that look like paths become directories (`~` standing for `home`), and
    /// the rest become folder names.
    pub fn from_strings(raw: &[String], home: &str) -> (r: Self)
        ensures
            r@.folder_names == folder_names_spec(texts(raw@)),
            r@.directories == directories_spec(texts(raw@), home@),
    {
        let mut folder_names: Vec<String> = Vec::new();
        let mut directories: Vec<String> = Vec::new();
        let ghost all = texts(raw@);
        let mut i: usize = 0;
        while i < raw.len()
            invariant
                i <= raw@.len(),
                all == texts(raw@),
                folder_names@.map_values(|s: String| s@) == folder_names_spec(
                    all.take(i as int),
                ),
                directories@.map_values(|s: String| s@) == directories_spec(
                    all.take(i as int),
                    home@,
                ),
            decreases raw.len() - i,
        {
            let chars = crate::text::chars_of(raw[i].as_str());
            let t = crate::text::trim_entry(&chars);
            let ghost prefix = all.take(i + 1);
            proof {
                assert(prefix.drop_last() =~= all.take(i as int));
                assert(prefix.last() == raw@[i as int]@);
            }
            if t.len() > 0 {
                let is_directory = t[0] == '~' || t[0] == '/' || crate::text::contains_char(&t, '/')
                    || crate::text::contains_char(&t, '\\');
                if is_directory {
                    let resolved = resolve(&t, home);
                    let ghost before = directories@.map_values(|s: String| s@);
                    directories.push(resolved);
                    assert(directories@.map_values(|s: String| s@) =~= before.push(resolved@));
                } else {
                    let name = crate::text::string_of(&t, 0, t.len());
                    assert(t@.subrange(0, t@.len() as int) =~= t@);
                    let ghost before = folder_names@.map_values(|s: String| s@);
                    folder_names.push(name);
                    assert(folder_names@.map_values(|s: String| s@) =~= before.push(name@));
                }
            }
            i = i + 1;
        }
        assert(all.take(raw@.len() as int) =~= all);
        let r = SearchExclusions { folder_names, directories };
        r
    }

    /// Whether the entry at `path`, called `name`, is excluded from search.
    pub fn is_excluded(&self, path: &str, name: &str, is_directory: bool) -> (r: bool)
        ensures
            r == is_excluded_spec(self@, path@, name@, is_directory),
    {
        if is_directory && self.matches_folder_name(name) {
            return true;
        }
        self.below_excluded_directory(path)
    }

    fn matches_folder_name(&self, name: &str) -> (r: bool)
        ensures
            r == matches_folder_name(self@, name@),
    {
        let mut i: usize = 0;
        while i < self.folder_names.len()
            invariant
                i <= self.folder_names@.len(),
                forall|k: int|
                    0 <= k < i ==> !eq_ignore_ascii_case_spec(
                        name@,
                        #[trigger] self@.folder_names[k],
                    ),
            decreases self.folder_names.len() - i,
        {
            if eq_ignore_ascii_case(name, self.folder_names[i].as_str()) {
                assert(self@.folder_names[i as int] == self.folder_names@[i as int]@);
                return true;
            }
            i = i + 1;
        }
        false
    }

    fn below_excluded_directory(&self, path: &str) -> (r: bool)
        ensures
            r == below_excluded_directory(self@, path@),
    {
        let mut j: usize = 0;
        while j < self.directories.len()
            invariant
                j <= self.directories@.len(),
                forall|k: int|
                    0 <= k < j ==> !path_starts_with_spec(
                        path@,
                        #[trigger] self@.directories[k],
                    ),
            decreases self.directories.len() - j,
        {
            if path_starts_with(path, self.directories[j].as_str()) {
                assert(self@.directories[j as int] == self.directories@[j as int]@);
                return true;
            }
            j = j + 1;
        }
        false
    }
}

/// The directory that the non-empty entry text `t` names, as
/// `resolve_directory` states.
fn resolve(t: &Vec<char>, home: &str) -> (r: String)
    requires
        t@.len() > 0,
    ensures
        r@ == resolve_directory(t@, home@),
{
    if t.len() == 1 && t[0] == '~' {
        assert(t@ =~= seq!['~']);
        let h = crate::text::chars_of(home);
        assert(h@.subrange(0, h@.len() as int) =~= h@);
        return crate::text::string_of(&h, 0, h.len());
    }
    if t.len() >= 2 && t[0] == '~' && t[1] == '/' {
        let rest = crate::text::slice_range(t, 2, t.len());
        assert(rest@ =~= t@.skip(2));
        return crate::paths::join(home, &rest);
    }
    assert(t@ != seq!['~']);
    let r = crate::text::string_of(t, 0, t.len());
    assert(t@.subrange(0, t@.len() as int) =~= t@);
    r
}

} // verus!
