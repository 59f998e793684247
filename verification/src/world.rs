//! Setting up a world directory: the starting files, the metadata of a new
//! world, whether existing narrative files call for an extraction guide, and
//! which SQL scripts an import runs, in which order.

use vstd::prelude::*;
use crate::order::{sorted_strings, sorted_texts};
use crate::paths::{file_name_of, path_file_name};
use crate::text::{chars_of, string_of};
use crate::world_config::{contains_string, strings_view, type_names, VisualIdentity, WorldMeta};

verus! {

broadcast use vstd::string::group_string_axioms;

/// The position of the last `c` in `s`, or -1 when there is none.
pub open spec fn last_index_of(s: Seq<char>, c: char) -> int
    decreases s.len(),
{
    if s.len() == 0 {
        -1
    } else if s.last() == c {
        s.len() - 1
    } else {
        last_index_of(s.drop_last(), c)
    }
}

/// The extension of a file name, as `std::path::Path::extension` documents
/// it: what follows the final `.`; none when there is no `.`, when the only
/// `.` begins the name, or for `..`.
pub open spec fn extension_of(name: Seq<char>) -> Option<Seq<char>> {
    let i = last_index_of(name, '.');
    if name.len() == 2 && name[0] == '.' && name[1] == '.' {
        None
    } else if i <= 0 {
        None
    } else {
        Some(name.subrange(i + 1, name.len() as int))
    }
}

proof fn lemma_last_index_of(s: Seq<char>, c: char, k: int)
    requires
        -1 <= k < s.len(),
        k >= 0 ==> s[k] == c,
        forall|j: int| k < j < s.len() ==> s[j] != c,
    ensures
        last_index_of(s, c) == k,
    decreases s.len(),
{
    if s.len() > 0 && s.len() - 1 != k {
        lemma_last_index_of(s.drop_last(), c, k);
    }
}

/// Whether the file name `name` has the extension `ext`.
pub fn has_extension(name: &str, ext: &str) -> (r: bool)
    ensures
        r == (extension_of(name@) == Some(ext@)),
{
    let v = chars_of(name);
    let e = chars_of(ext);
    let n = v.len();
    if n == 2 && v[0] == '.' && v[1] == '.' {
        return false;
    }
    let mut i: usize = n;
    let mut found = false;
    while i > 0 && !found
        invariant
            i <= n,
            n == v@.len(),
            v@ == name@,
            found ==> i > 0 && v@[i - 1] == '.',
            forall|j: int| i <= j < n ==> v@[j] != '.',
        decreases i + (if found { 0int } else { 1int }),
    {
        if v[i - 1] == '.' {
            found = true;
        } else {
            i = i - 1;
        }
    }
    proof {
        if found {
            lemma_last_index_of(name@, '.', i - 1);
        } else {
            lemma_last_index_of(name@, '.', -1);
        }
    }
    if !found || i == 1 {
        return false;
    }
    let ghost ext_spec = extension_of(name@);
    assert(ext_spec == Some(name@.subrange(i as int, n as int)));
    // the extension is v[i..n]
    if n - i != e.len() {
        assert(name@.subrange(i as int, n as int).len() != ext@.len());
        return false;
    }
    let mut k: usize = 0;
    while k < e.len()
        invariant
            k <= e@.len(),
            e@ == ext@,
            v@ == name@,
            n == v@.len(),
            i + e@.len() == n,
            ext_spec == extension_of(name@),
            ext_spec == Some(name@.subrange(i as int, n as int)),
            forall|j: int| 0 <= j < k ==> v@[i + j] == e@[j],
        decreases e@.len() - k,
    {
        if v[i + k] != e[k] {
            assert(name@.subrange(i as int, n as int)[k as int] != ext@[k as int]);
            return false;
        }
        k = k + 1;
    }
    assert(name@.subrange(i as int, n as int) =~= ext@);
    true
}

/// A file name with the `md` extension.
pub open spec fn is_markdown(name: Seq<char>) -> bool {
    extension_of(name) == Some("md"@)
}

/// One entry of a directory: its name, whether it is a directory or a
/// regular file, and (for a directory that could be read) the names of its
/// own entries.
#[derive(Debug)]
pub struct DirEntryInfo {
    pub name: String,
    pub is_dir: bool,
    pub is_file: bool,
    pub children: Vec<String>,
}

/// An entry of `stories/` that holds narrative text: a directory with a
/// Markdown entry, or a Markdown file.
pub open spec fn story_entry_has_markdown(e: DirEntryInfo) -> bool {
    if e.is_dir {
        exists|j: int| 0 <= j < e.children@.len() && is_markdown(#[trigger] e.children@[j]@)
    } else {
        is_markdown(e.name@)
    }
}

/// The Markdown files at the top of a world that are not narrative.
pub open spec fn non_narrative_files() -> Seq<Seq<char>> {
    seq!["README.md"@, "EXTRACTION_GUIDE.md"@]
}

/// A regular Markdown file at the top of a world that may be narrative.
pub open spec fn is_narrative_file(e: DirEntryInfo) -> bool {
    e.is_file && is_markdown(e.name@) && !non_narrative_files().contains(e.name@)
}

/// A world holds narrative content to extract: an entry of `stories/`
/// (`stories`, empty when that directory is missing or unreadable) holds
/// Markdown, or the top of the world (`top`, its readable entries) has a
/// narrative file.
pub open spec fn extraction_guide_needed(stories: Seq<DirEntryInfo>, top: Seq<DirEntryInfo>) -> bool {
    ||| exists|i: int| 0 <= i < stories.len() && story_entry_has_markdown(#[trigger] stories[i])
    ||| exists|i: int| 0 <= i < top.len() && is_narrative_file(#[trigger] top[i])
}

fn story_entry_check(e: &DirEntryInfo) -> (r: bool)
    ensures
        r == story_entry_has_markdown(*e),
{
    if e.is_dir {
        let mut j: usize = 0;
        while j < e.children.len()
            invariant
                e.is_dir,
                j <= e.children@.len(),
                forall|k: int| 0 <= k < j ==> !is_markdown(#[trigger] e.children@[k]@),
            decreases e.children@.len() - j,
        {
            if has_extension(e.children[j].as_str(), "md") {
                assert(is_markdown(e.children@[j as int]@));
                return true;
            }
            j = j + 1;
        }
        false
    } else {
        has_extension(e.name.as_str(), "md")
    }
}

fn narrative_check(e: &DirEntryInfo) -> (r: bool)
    ensures
        r == is_narrative_file(*e),
{
    if !e.is_file || !has_extension(e.name.as_str(), "md") {
        return false;
    }
    let n = e.name.as_str();
    proof {
        reveal_strlit("README.md");
        reveal_strlit("EXTRACTION_GUIDE.md");
        assert(non_narrative_files().contains(n@) <==> (n@ == "README.md"@ || n@ == "EXTRACTION_GUIDE.md"@)) by {
            if non_narrative_files().contains(n@) {
                let k = choose|k: int| 0 <= k < 2 && non_narrative_files()[k] == n@;
            }
            if n@ == "README.md"@ {
                assert(non_narrative_files()[0] == n@);
            }
            if n@ == "EXTRACTION_GUIDE.md"@ {
                assert(non_narrative_files()[1] == n@);
            }
        }
    }
    !(crate::text::str_eq(n, "README.md") || crate::text::str_eq(n, "EXTRACTION_GUIDE.md"))
}

/// Whether some entry of `stories/` holds Markdown.
fn any_story_markdown(s: &Vec<DirEntryInfo>) -> (r: bool)
    ensures
        r == exists|i: int| 0 <= i < s@.len() && story_entry_has_markdown(#[trigger] s@[i]),
{
    let mut i: usize = 0;
    while i < s.len()
        invariant
            i <= s@.len(),
            forall|k: int| 0 <= k < i ==> !story_entry_has_markdown(#[trigger] s@[k]),
        decreases s@.len() - i,
    {
        if story_entry_check(&s[i]) {
            assert(story_entry_has_markdown(s@[i as int]));
            return true;
        }
        i = i + 1;
    }
    false
}

/// Whether a world, whose `stories/` entries and top-level entries are
/// given, holds narrative content that an extraction guide should cover.
pub fn should_generate_extraction_guide(stories: &Vec<DirEntryInfo>, top: &Vec<DirEntryInfo>) -> (r: bool)
    ensures
        r == extraction_guide_needed(stories@, top@),
{
    if any_story_markdown(stories) {
        return true;
    }
    let mut i: usize = 0;
    while i < top.len()
        invariant
            i <= top@.len(),
            forall|k: int| 0 <= k < i ==> !is_narrative_file(#[trigger] top@[k]),
        decreases top@.len() - i,
    {
        if narrative_check(&top[i]) {
            assert(is_narrative_file(top@[i as int]));
            return true;
        }
        i = i + 1;
    }
    false
}

/// The files every new world starts with.
pub open spec fn fundamental_file_names() -> Seq<Seq<char>> {
    seq!["00_ESSENTIAL.md"@, "01_HISTORY.md"@, "README.md"@]
}

/// `f`, unless merging into a directory that already has it.
pub open spec fn to_write(f: Seq<char>, merge: bool, existing: Seq<Seq<char>>) -> Seq<Seq<char>> {
    if merge && existing.contains(f) {
        Seq::empty()
    } else {
        seq![f]
    }
}

/// The starting files written into a world: without merging, the three
/// fundamental files in order; when merging, exactly those fundamental files
/// the directory does not hold yet, each once.
pub proof fn lemma_fundamental_files_written(merge: bool, existing: Seq<Seq<char>>)
    ensures
        !merge ==> to_write(fundamental_file_names()[0], merge, existing)
            + to_write(fundamental_file_names()[1], merge, existing)
            + to_write(fundamental_file_names()[2], merge, existing)
            == seq!["00_ESSENTIAL.md"@, "01_HISTORY.md"@, "README.md"@],
        forall|f: Seq<char>|
            #![trigger existing.contains(f)]
            (to_write(fundamental_file_names()[0], merge, existing)
                + to_write(fundamental_file_names()[1], merge, existing)
                + to_write(fundamental_file_names()[2], merge, existing)).contains(f)
            <==> (fundamental_file_names().contains(f) && !(merge && existing.contains(f))),
{
    reveal_strlit("00_ESSENTIAL.md");
    reveal_strlit("01_HISTORY.md");
    reveal_strlit("README.md");
    let n = fundamental_file_names();
    let w = to_write(n[0], merge, existing) + to_write(n[1], merge, existing) + to_write(n[2], merge, existing);
    if !merge {
        assert(w =~= n);
    }
    assert forall|f: Seq<char>| #![trigger existing.contains(f)]
        w.contains(f) <==> (n.contains(f) && !(merge && existing.contains(f))) by {
        if w.contains(f) {
            let i = choose|i: int| 0 <= i < w.len() && w[i] == f;
            let a = to_write(n[0], merge, existing);
            let b = to_write(n[1], merge, existing);
            if i < a.len() {
                assert(f == n[0]);
                assert(n[0] == n[0]);
            } else if i < a.len() + b.len() {
                assert(f == n[1]);
            } else {
                assert(f == n[2]);
            }
            assert(n.contains(f)) by {
                if f == n[0] { assert(n[0] == f); } else if f == n[1] { assert(n[1] == f); } else { assert(n[2] == f); }
            }
        }
        if n.contains(f) && !(merge && existing.contains(f)) {
            let j = choose|j: int| 0 <= j < n.len() && n[j] == f;
            let a = to_write(n[0], merge, existing);
            let b = to_write(n[1], merge, existing);
            if j == 0 {
                assert(w[0] == f);
            } else if j == 1 {
                assert(w[a.len() as int] == f);
            } else {
                assert(w[(a.len() + b.len()) as int] == f);
            }
        }
    }
}

/// The starting files to write (empty) in a new world whose directory holds
/// the entries `existing`: all of them, except, when merging, those already
/// there.
pub fn fundamental_files_to_write(merge: bool, existing: &Vec<String>) -> (r: Vec<String>)
    ensures
        strings_view(r@) == to_write(fundamental_file_names()[0], merge, strings_view(existing@))
            + to_write(fundamental_file_names()[1], merge, strings_view(existing@))
            + to_write(fundamental_file_names()[2], merge, strings_view(existing@)),
{
    let mut out: Vec<String> = Vec::new();
    let ghost ex = strings_view(existing@);
    if !(merge && contains_string(existing, "00_ESSENTIAL.md")) {
        out.push(string_of("00_ESSENTIAL.md"));
    }
    let ghost a = strings_view(out@);
    assert(a =~= to_write(fundamental_file_names()[0], merge, ex));
    if !(merge && contains_string(existing, "01_HISTORY.md")) {
        out.push(string_of("01_HISTORY.md"));
    }
    let ghost b = strings_view(out@);
    assert(b =~= a + to_write(fundamental_file_names()[1], merge, ex));
    if !(merge && contains_string(existing, "README.md")) {
        out.push(string_of("README.md"));
    }
    assert(strings_view(out@) =~= b + to_write(fundamental_file_names()[2], merge, ex));
    out
}

/// The metadata of a world created by `world init`: the defaults, with the
/// aesthetic given on the command line, if any, as a custom look.
pub fn new_world_meta(name: String, description: Option<String>, aesthetic: Option<String>) -> (r: WorldMeta)
    ensures
        r.name@ == name@,
        r.description == description,
        match aesthetic {
            Some(a) => r.visual_identity.estetica@ == a@ && r.visual_identity.descrizione@ == "Custom aesthetic"@,
            None => r.visual_identity.estetica@ == "moderna"@
                && r.visual_identity.descrizione@ == "Interfaccia pulita e minimalista"@,
        },
        r.global_config.formato_numerazione@ == "001"@,
        r.global_config.template_default@ == "diary"@,
        type_names(r.global_config.story_types@) == seq!["diary"@, "book"@],
{
    let mut meta = WorldMeta::new(name, description);
    match aesthetic {
        Some(a) => {
            meta.visual_identity = VisualIdentity::custom(a);
        },
        None => {},
    }
    meta
}

/// The name given to a world cloned into `dir` that has no configuration of
/// its own: the last component of `dir`, else `Unknown World`.
pub fn cloned_world_name(dir: &str) -> (r: String)
    ensures
        match path_file_name(dir@) {
            Some(n) => r@ == n,
            None => r@ == "Unknown World"@,
        },
{
    match file_name_of(dir) {
        Some(n) => n,
        None => string_of("Unknown World"),
    }
}

/// The names among `s` with the `sql` extension, in order.
pub open spec fn sql_names(s: Seq<Seq<char>>) -> Seq<Seq<char>>
    decreases s.len(),
{
    if s.len() == 0 {
        Seq::empty()
    } else if extension_of(s.last()) == Some("sql"@) {
        sql_names(s.drop_last()).push(s.last())
    } else {
        sql_names(s.drop_last())
    }
}

/// The SQL scripts of a directory are exactly its entries with the `sql`
/// extension, in the order the entries come, each as often as it occurs.
pub proof fn lemma_sql_names_are_the_sql_entries(s: Seq<Seq<char>>)
    ensures
        forall|n: Seq<char>| #[trigger] sql_names(s).contains(n) <==> (s.contains(n) && extension_of(n) == Some("sql"@)),
        sql_names(s).len() <= s.len(),
    decreases s.len(),
{
    if s.len() > 0 {
        lemma_sql_names_are_the_sql_entries(s.drop_last());
        let prev = sql_names(s.drop_last());
        assert forall|n: Seq<char>| #[trigger] sql_names(s).contains(n) <==> (s.contains(n) && extension_of(n) == Some("sql"@)) by {
            if s.contains(n) && extension_of(n) == Some("sql"@) {
                let i = choose|i: int| 0 <= i < s.len() && s[i] == n;
                if i < s.len() - 1 {
                    assert(s.drop_last()[i] == n);
                    assert(prev.contains(n));
                    let j = choose|j: int| 0 <= j < prev.len() && prev[j] == n;
                    if extension_of(s.last()) == Some("sql"@) {
                        assert(sql_names(s)[j] == n);
                    }
                } else {
                    assert(sql_names(s)[sql_names(s).len() - 1] == n);
                }
            }
            if sql_names(s).contains(n) {
                let j = choose|j: int| 0 <= j < sql_names(s).len() && sql_names(s)[j] == n;
                if extension_of(s.last()) == Some("sql"@) && j == prev.len() {
                    assert(s[s.len() - 1] == n);
                } else {
                    assert(prev[j] == n);
                    assert(prev.contains(n));
                    let i = choose|i: int| 0 <= i < s.drop_last().len() && s.drop_last()[i] == n;
                    assert(s[i] == n);
                }
            }
        }
    }
}

/// Why an import of SQL scripts has nothing to run.
#[derive(Debug)]
pub enum SqlImportError {
    /// The directory holds no `.sql` file.
    NoSqlFiles,
}

/// The SQL scripts to run, given the names of the entries of a directory:
/// those with the `sql` extension, sorted, each run once. `Err` when there is
/// none, if `require_some` (an import of `sql/` needs one).
pub fn sql_files_to_import(names: &Vec<String>, require_some: bool) -> (r: Result<Vec<String>, SqlImportError>)
    ensures
        match r {
            Ok(files) => sorted_texts(strings_view(files@))
                && strings_view(files@).to_multiset() == sql_names(strings_view(names@)).to_multiset()
                && !(require_some && sql_names(strings_view(names@)).len() == 0),
            Err(SqlImportError::NoSqlFiles) => require_some && sql_names(strings_view(names@)).len() == 0,
        },
{
    let mut picked: Vec<String> = Vec::new();
    let mut i: usize = 0;
    while i < names.len()
        invariant
            i <= names@.len(),
            strings_view(picked@) == sql_names(strings_view(names@.take(i as int))),
        decreases names@.len() - i,
    {
        let ghost before = picked@;
        assert(strings_view(names@.take(i + 1)).drop_last() =~= strings_view(names@.take(i as int)));
        assert(strings_view(names@.take(i + 1)).last() == names@[i as int]@);
        if has_extension(names[i].as_str(), "sql") {
            picked.push(names[i].clone());
            assert(strings_view(picked@) =~= strings_view(before).push(names@[i as int]@));
        }
        i = i + 1;
    }
    assert(names@.take(names@.len() as int) =~= names@);
    if require_some && picked.len() == 0 {
        return Err(SqlImportError::NoSqlFiles);
    }
    Ok(sorted_strings(&picked))
}

/// The position of the first marked directory in `dirs`, if any.
pub open spec fn first_marked(dirs: Seq<(String, bool)>) -> Option<int>
    decreases dirs.len(),
{
    if dirs.len() == 0 {
        None
    } else if dirs[0].1 {
        Some(0)
    } else {
        match first_marked(dirs.drop_first()) {
            Some(i) => Some(i + 1),
            None => None,
        }
    }
}

/// The first marked directory is a marked one, and none before it is
/// marked; there is none only when no directory is marked.
pub proof fn lemma_first_marked_is_nearest(dirs: Seq<(String, bool)>)
    ensures
        match first_marked(dirs) {
            Some(i) => 0 <= i < dirs.len() && dirs[i].1 && forall|j: int| 0 <= j < i ==> !(#[trigger] dirs[j]).1,
            None => forall|j: int| 0 <= j < dirs.len() ==> !(#[trigger] dirs[j]).1,
        },
    decreases dirs.len(),
{
    if dirs.len() > 0 && !dirs[0].1 {
        lemma_first_marked_is_nearest(dirs.drop_first());
        let rest = dirs.drop_first();
        match first_marked(rest) {
            Some(i) => {
                assert(dirs[i + 1] == rest[i]);
                assert forall|j: int| 0 <= j < i + 1 implies !(#[trigger] dirs[j]).1 by {
                    if j > 0 {
                        assert(dirs[j] == rest[j - 1]);
                    }
                }
            },
            None => {
                assert forall|j: int| 0 <= j < dirs.len() implies !(#[trigger] dirs[j]).1 by {
                    if j > 0 {
                        assert(dirs[j] == rest[j - 1]);
                    }
                }
            },
        }
    }
}

/// The nearest directory that holds a marker (a `.multiverse` directory, a
/// `.multiverse.toml` file): `dirs` lists the current directory and then each
/// of its parents up to the root, each with whether it holds the marker.
pub fn nearest_marked(dirs: &Vec<(String, bool)>) -> (r: Option<String>)
    ensures
        match first_marked(dirs@) {
            Some(i) => r matches Some(d) && d@ == dirs@[i].0@,
            None => r is None,
        },
{
    let mut i: usize = 0;
    assert(dirs@.skip(0) =~= dirs@);
    while i < dirs.len()
        invariant
            i <= dirs@.len(),
            first_marked(dirs@) == (match first_marked(dirs@.skip(i as int)) {
                Some(k) => Some(k + i),
                None => None,
            }),
        decreases dirs@.len() - i,
    {
        assert(dirs@.skip(i as int)[0] == dirs@[i as int]);
        if dirs[i].1 {
            return Some(dirs[i].0.clone());
        }
        assert(dirs@.skip(i as int).drop_first() =~= dirs@.skip(i + 1));
        i = i + 1;
    }
    None
}

/// What a workspace listing reads of a loadable `.world.json`: the
/// description and the look of the world.
#[derive(Debug)]
pub struct WorldSummary {
    pub description: Option<String>,
    pub estetica: String,
    pub descrizione: String,
}

/// One entry of the workspace directory, as `world list` inspects it.
#[derive(Debug)]
pub struct WorldCandidate {
    /// The name of the entry.
    pub name: String,
    pub is_dir: bool,
    /// Whether the entry holds a `.world.json` file.
    pub has_meta_file: bool,
    /// What that file says, when it could be read; `None` when it could not.
    pub loaded: Option<WorldSummary>,
    /// Whether the entry holds the world database.
    pub has_database: bool,
}

/// A world found in the workspace.
#[derive(Debug)]
pub struct ListedWorld {
    pub name: String,
    pub summary: WorldSummary,
    pub has_database: bool,
}

/// The worlds of a workspace, in the order their directories were read, and
/// the names of the directories whose `.world.json` could not be read.
#[derive(Debug)]
pub struct WorldListing {
    pub listed: Vec<ListedWorld>,
    pub invalid: Vec<String>,
}

/// Whether an entry of the workspace is a world directory: a directory with a `.world.json`.
pub open spec fn is_world_dir(c: WorldCandidate) -> bool {
    c.is_dir && c.has_meta_file
}

/// The worlds that a listing of `cs` shows: the world directories whose
/// metadata could be read, in order, each with its database flag.
pub open spec fn listed_in(cs: Seq<WorldCandidate>) -> Seq<ListedWorld>
    decreases cs.len(),
{
    if cs.len() == 0 {
        Seq::empty()
    } else {
        let prev = listed_in(cs.drop_last());
        let c = cs.last();
        if is_world_dir(c) {
            match c.loaded {
                Some(s) => prev.push(ListedWorld { name: c.name, summary: s, has_database: c.has_database }),
                None => prev,
            }
        } else {
            prev
        }
    }
}

/// The names of the world directories of `cs` whose metadata could not be read, in order.
pub open spec fn invalid_in(cs: Seq<WorldCandidate>) -> Seq<String>
    decreases cs.len(),
{
    if cs.len() == 0 {
        Seq::empty()
    } else {
        let prev = invalid_in(cs.drop_last());
        let c = cs.last();
        if is_world_dir(c) && c.loaded is None {
            prev.push(c.name)
        } else {
            prev
        }
    }
}

/// A workspace listing shows only world directories whose metadata could be
/// read, each with its own name, summary and database flag, and reports as
/// invalid only world directories whose metadata could not be read; every
/// entry that is a world directory ends up in exactly one of the two lists.
pub proof fn lemma_listing_partitions_world_dirs(cs: Seq<WorldCandidate>)
    ensures
        forall|i: int| 0 <= i < listed_in(cs).len() ==> exists|j: int| 0 <= j < cs.len()
            && is_world_dir(#[trigger] cs[j]) && cs[j].name == (#[trigger] listed_in(cs)[i]).name
            && cs[j].loaded == Some(listed_in(cs)[i].summary) && cs[j].has_database == listed_in(cs)[i].has_database,
        forall|i: int| 0 <= i < invalid_in(cs).len() ==> exists|j: int| 0 <= j < cs.len()
            && is_world_dir(#[trigger] cs[j]) && cs[j].loaded is None && cs[j].name == #[trigger] invalid_in(cs)[i],
        listed_in(cs).len() + invalid_in(cs).len() == cs.filter(|c: WorldCandidate| is_world_dir(c)).len(),
    decreases cs.len(),
{
    if cs.len() > 0 {
        let init = cs.drop_last();
        lemma_listing_partitions_world_dirs(init);
        let l = listed_in(cs);
        let v = invalid_in(cs);
        assert forall|i: int| 0 <= i < l.len() implies exists|j: int| 0 <= j < cs.len()
            && is_world_dir(#[trigger] cs[j]) && cs[j].name == (#[trigger] l[i]).name
            && cs[j].loaded == Some(l[i].summary) && cs[j].has_database == l[i].has_database by {
            if i < listed_in(init).len() {
                assert(l[i] == listed_in(init)[i]);
                let j = choose|j: int| 0 <= j < init.len()
                    && is_world_dir(#[trigger] init[j]) && init[j].name == (#[trigger] listed_in(init)[i]).name
                    && init[j].loaded == Some(listed_in(init)[i].summary) && init[j].has_database == listed_in(init)[i].has_database;
                assert(cs[j] == init[j]);
            } else {
                assert(cs[cs.len() - 1] == cs.last());
            }
        }
        assert forall|i: int| 0 <= i < v.len() implies exists|j: int| 0 <= j < cs.len()
            && is_world_dir(#[trigger] cs[j]) && cs[j].loaded is None && cs[j].name == #[trigger] v[i] by {
            if i < invalid_in(init).len() {
                assert(v[i] == invalid_in(init)[i]);
                let j = choose|j: int| 0 <= j < init.len()
                    && is_world_dir(#[trigger] init[j]) && init[j].loaded is None && init[j].name == #[trigger] invalid_in(init)[i];
                assert(cs[j] == init[j]);
            } else {
                assert(cs[cs.len() - 1] == cs.last());
            }
        }
        let f = |c: WorldCandidate| is_world_dir(c);
        reveal(Seq::filter);
        assert(cs.filter(f) == (if f(cs.last()) { init.filter(f).push(cs.last()) } else { init.filter(f) }));
    }
}

fn copy_summary(s: &WorldSummary) -> (r: WorldSummary)
    ensures
        r == *s,
{
    let description = match &s.description {
        Some(d) => Some(d.clone()),
        None => None,
    };
    WorldSummary { description, estetica: s.estetica.clone(), descrizione: s.descrizione.clone() }
}

/// Sorts the entries of the workspace for `world list`: the world
/// directories whose `.world.json` could be read are listed, in order, with
/// their database flag; those whose file could not be read are reported as
/// invalid; every other entry is skipped.
pub fn list_worlds(candidates: &Vec<WorldCandidate>) -> (r: WorldListing)
    ensures
        r.listed@ == listed_in(candidates@),
        r.invalid@ == invalid_in(candidates@),
{
    let mut listed: Vec<ListedWorld> = Vec::new();
    let mut invalid: Vec<String> = Vec::new();
    let mut i: usize = 0;
    while i < candidates.len()
        invariant
            i <= candidates@.len(),
            listed@ == listed_in(candidates@.take(i as int)),
            invalid@ == invalid_in(candidates@.take(i as int)),
        decreases candidates@.len() - i,
    {
        let c = &candidates[i];
        assert(candidates@.take(i + 1).drop_last() =~= candidates@.take(i as int));
        assert(candidates@.take(i + 1).last() == candidates@[i as int]);
        if c.is_dir && c.has_meta_file {
            match &c.loaded {
                Some(s) => {
                    listed.push(ListedWorld { name: c.name.clone(), summary: copy_summary(s), has_database: c.has_database });
                },
                None => {
                    invalid.push(c.name.clone());
                },
            }
        }
        i = i + 1;
    }
    assert(candidates@.take(candidates@.len() as int) =~= candidates@);
    WorldListing { listed, invalid }
}

} // verus!
