//! The repository index cache and the installed-package database.
use vstd::prelude::*;
use vstd::string::*;
use crate::config::{Config, DEBIAN_CACHE, DEBIAN_DATABASE};
use crate::control::{
    opt_strings_view, parse_all, parse_all_spec, parse_view, parse_views, ControlFile,
    ControlModel, DebPackage, PkgKind,
};
use crate::errors::InstallError;
use crate::text::{
    append_joined, chars_eq, chars_of, chars_view, contains, contains_chars, join, split,
    split_chars, string_of,
};

verus! {

/// One flattened index file of the cache directory: its file name and text.
#[derive(Debug, Clone, PartialEq, Eq)]
pub struct IndexFile {
    pub name: String,
    pub contents: String,
}

/// The index cache directory that the configuration selects, known to exist.
#[derive(Debug, Clone, PartialEq, Eq)]
pub struct Cache {
    cache: String,
}

/// The answer of a cache query: one package for an exact lookup, all the
/// matches for a search.
#[derive(Debug, Clone, PartialEq, Eq)]
pub struct CacheResult {
    pub pkg: Option<DebPackage>,
    pub pkgs: Option<Vec<DebPackage>>,
}

/// The index cache directory that `config` selects.
pub open spec fn selected_cache(config: Config) -> Seq<char> {
    if config.use_pre_existing_cache {
        DEBIAN_CACHE@
    } else {
        config.cache@
    }
}

/// The installed-package database that `config` selects.
pub open spec fn selected_db(config: Config) -> Seq<char> {
    if config.use_pre_existing_db {
        DEBIAN_DATABASE@
    } else {
        config.db@
    }
}

/// The path of the index cache directory that `config` selects.
pub fn cache_dir(config: &Config) -> (r: String)
    ensures
        r@ == selected_cache(*config),
{
    if config.use_pre_existing_cache {
        DEBIAN_CACHE.to_owned()
    } else {
        config.cache.clone()
    }
}

/// The path of the installed-package database that `config` selects.
pub fn db_path(config: &Config) -> (r: String)
    ensures
        r@ == selected_db(*config),
{
    if config.use_pre_existing_db {
        DEBIAN_DATABASE.to_owned()
    } else {
        config.db.clone()
    }
}

impl Cache {
    /// The directory, known to exist when the cache was obtained.
    pub closed spec fn dir(&self) -> Seq<char> {
        self.cache@
    }

    /// The path of the cache directory.
    pub fn path(&self) -> (r: String)
        ensures
            r@ == self.dir(),
    {
        self.cache.clone()
    }

    /// The selected cache directory; an error when `dir_exists`, the result of
    /// looking for it, is false.
    pub fn get_cache(config: &Config, dir_exists: bool) -> (r: Result<Cache, InstallError>)
        ensures
            dir_exists ==> (r matches Ok(c) && c.dir() == selected_cache(*config)),
            !dir_exists ==> (r matches Err(InstallError::ConfigError(m)) && m@ == selected_cache(*config)
                + " was not found"@),
    {
        let dir = cache_dir(config);
        if !dir_exists {
            let mut msg = dir;
            msg.append(" was not found");
            return Err(InstallError::ConfigError(msg));
        }
        Ok(Cache { cache: dir })
    }
}

/// Index of the first segment equal to `dists`.
pub open spec fn is_first_dists(segs: Seq<Seq<char>>, k: int) -> bool {
    &&& 0 <= k < segs.len()
    &&& segs[k] == "dists"@
    &&& forall|j: int| 0 <= j < k ==> segs[j] != "dists"@
}

/// The repository prefix that a flattened index file name encodes: the
/// `_`-separated segments before the first `dists` segment, joined by `/`.
/// `None` for a name that is not an index file name.
pub open spec fn index_prefix(name: Seq<char>) -> Option<Seq<char>> {
    let segs = split(name, '_');
    if exists|k: int| is_first_dists(segs, k) {
        let k = choose|k: int| is_first_dists(segs, k);
        Some(join(segs.take(k), "/"@))
    } else {
        None
    }
}

/// The records of the stanzas that parse, in order.
pub open spec fn ok_records(rs: Seq<Option<Result<ControlModel, Seq<char>>>>) -> Seq<ControlModel>
    decreases rs.len(),
{
    if rs.len() == 0 {
        Seq::empty()
    } else {
        let prev = ok_records(rs.drop_last());
        match rs.last() {
            Some(Ok(m)) => prev.push(m),
            _ => prev,
        }
    }
}

/// A record with its filename joined under `prefix`.
pub open spec fn under_prefix(m: ControlModel, prefix: Seq<char>) -> ControlModel {
    ControlModel { filename: prefix + "/"@ + m.filename, ..m }
}

/// The index entries of one file, in order: its records with the download
/// path as filename; none for a file that is not an index file.
pub open spec fn file_entries(name: Seq<char>, contents: Seq<char>) -> Seq<ControlModel> {
    match index_prefix(name) {
        Some(p) => ok_records(parse_all_spec(contents)).map_values(
            |m: ControlModel| under_prefix(m, p),
        ),
        None => Seq::empty(),
    }
}

/// The index files as (name, contents) pairs.
pub open spec fn files_view(files: Seq<IndexFile>) -> Seq<(Seq<char>, Seq<char>)> {
    files.map_values(|f: IndexFile| (f.name@, f.contents@))
}

/// The index entries of every file, file after file.
pub open spec fn all_entries(files: Seq<(Seq<char>, Seq<char>)>) -> Seq<ControlModel>
    decreases files.len(),
{
    if files.len() == 0 {
        Seq::empty()
    } else {
        all_entries(files.drop_last()) + file_entries(files.last().0, files.last().1)
    }
}

/// The first record named `name`.
pub open spec fn first_named(s: Seq<ControlModel>, name: Seq<char>) -> Option<ControlModel>
    decreases s.len(),
{
    if s.len() == 0 {
        None
    } else {
        match first_named(s.drop_last(), name) {
            Some(m) => Some(m),
            None => if s.last().package == name {
                Some(s.last())
            } else {
                None
            },
        }
    }
}

/// The records whose name contains `needle`, in order.
pub open spec fn named_containing(s: Seq<ControlModel>, needle: Seq<char>) -> Seq<ControlModel>
    decreases s.len(),
{
    if s.len() == 0 {
        Seq::empty()
    } else {
        let prev = named_containing(s.drop_last(), needle);
        if contains(s.last().package, needle) {
            prev.push(s.last())
        } else {
            prev
        }
    }
}

/// The records of a sequence of packages.
pub open spec fn controls_view(s: Seq<DebPackage>) -> Seq<ControlModel> {
    s.map_values(|p: DebPackage| p.control@)
}

/// All packages are binary packages.
pub open spec fn all_binary(s: Seq<DebPackage>) -> bool {
    forall|i: int| 0 <= i < s.len() ==> s[i].kind == PkgKind::Binary
}

/// The model of an optional package.
pub open spec fn opt_control_view(p: Option<DebPackage>) -> Option<ControlModel> {
    match p {
        Some(p) => Some(p.control@),
        None => None,
    }
}

/// The repository prefix of an index file name.
pub fn index_prefix_of(name: &str) -> (r: Option<Vec<char>>)
    ensures
        match index_prefix(name@) {
            Some(p) => r matches Some(v) && v@ == p,
            None => r is None,
        },
{
    let segs = split_chars(&chars_of(name), '_');
    let ghost sv = chars_view(segs@);
    let dists = chars_of("dists");
    let mut k: usize = 0;
    while k < segs.len() && !chars_eq(&segs[k], &dists)
        invariant
            k <= segs@.len(),
            sv == chars_view(segs@),
            dists@ == "dists"@,
            forall|j: int| 0 <= j < k ==> sv[j] != "dists"@,
        decreases segs@.len() - k,
    {
        k = k + 1;
    }
    if k == segs.len() {
        assert(!exists|k2: int| is_first_dists(sv, k2));
        return None;
    }
    assert(is_first_dists(sv, k as int));
    assert forall|k2: int| is_first_dists(sv, k2) implies k2 == k by {
        if k2 < k {
            assert(sv[k2] != "dists"@);
        } else if k2 > k {
            assert(sv[k as int] != "dists"@);
        }
    }
    let mut out: Vec<char> = Vec::new();
    let mut i: usize = 0;
    while i < k
        invariant
            i <= k < segs@.len(),
            sv == chars_view(segs@),
            out@ == join(sv.take(i as int), "/"@),
        decreases k - i,
    {
        let ghost t = sv.take(i + 1);
        assert(t.drop_last() =~= sv.take(i as int));
        if i > 0 {
            out.push('/');
        }
        let seg = &segs[i];
        let mut j: usize = 0;
        let ghost base = out@;
        while j < seg.len()
            invariant
                j <= seg@.len(),
                out@ == base + seg@.take(j as int),
            decreases seg@.len() - j,
        {
            out.push(seg[j]);
            assert(out@ =~= base + seg@.take(j + 1));
            j = j + 1;
        }
        proof {
            reveal_strlit("/");
            assert(seg@.take(seg@.len() as int) =~= seg@);
            assert(t.last() == seg@);
            if i == 0 {
                assert(out@ =~= join(t, "/"@));
            } else {
                assert(out@ =~= join(t, "/"@));
            }
        }
        i = i + 1;
    }
    Some(out)
}

/// The records that parse among the stanzas of `text`, in order.
fn ok_controls(text: &str) -> (r: Vec<ControlFile>)
    ensures
        r@.map_values(|c: ControlFile| c@) == ok_records(parse_all_spec(text@)),
{
    let parsed = parse_all(text);
    let mut out: Vec<ControlFile> = Vec::new();
    let mut i: usize = 0;
    while i < parsed.len()
        invariant
            i <= parsed@.len(),
            parse_views(parsed@) == parse_all_spec(text@),
            out@.map_values(|c: ControlFile| c@) == ok_records(parse_views(parsed@).take(i as int)),
        decreases parsed@.len() - i,
    {
        let ghost t = parse_views(parsed@).take(i + 1);
        assert(t.drop_last() =~= parse_views(parsed@).take(i as int));
        assert(t.last() == parse_view(parsed@[i as int]));
        let ghost before = out@;
        match &parsed[i] {
            Ok(c) => {
                out.push(c.clone_record());
                assert(out@.map_values(|c: ControlFile| c@) =~= before.map_values(
                    |c: ControlFile| c@,
                ).push(c@));
            },
            Err(_) => {},
        }
        i = i + 1;
    }
    assert(parse_views(parsed@).take(parsed@.len() as int) =~= parse_views(parsed@));
    out
}

/// The index entries of one file.
pub fn index_entries(file: &IndexFile) -> (r: Vec<DebPackage>)
    ensures
        controls_view(r@) == file_entries(file.name@, file.contents@),
        all_binary(r@),
{
    let prefix = match index_prefix_of(file.name.as_str()) {
        Some(p) => p,
        None => return Vec::new(),
    };
    let records = ok_controls(file.contents.as_str());
    let ghost want = file_entries(file.name@, file.contents@);
    let mut out: Vec<DebPackage> = Vec::new();
    let mut i: usize = 0;
    while i < records.len()
        invariant
            i <= records@.len(),
            index_prefix(file.name@) == Some(prefix@),
            records@.map_values(|c: ControlFile| c@) == ok_records(parse_all_spec(file.contents@)),
            want == file_entries(file.name@, file.contents@),
            controls_view(out@) == want.take(i as int),
            all_binary(out@),
        decreases records@.len() - i,
    {
        let mut pkg = records[i].clone_record();
        let mut path = string_of(&prefix);
        path.append("/");
        path.append(pkg.filename.as_str());
        pkg.set_filename(path.as_str());
        assert(records@.map_values(|c: ControlFile| c@)[i as int] == records@[i as int]@);
        assert(want[i as int] == under_prefix(records@[i as int]@, prefix@));
        assert(pkg@ == under_prefix(records@[i as int]@, prefix@));
        let ghost pv = pkg@;
        let ghost before = out@;
        out.push(DebPackage { control: pkg, kind: PkgKind::Binary });
        assert(controls_view(out@) =~= controls_view(before).push(pv));
        assert(controls_view(out@) =~= want.take(i + 1));
        i = i + 1;
    }
    assert(want.take(records@.len() as int) =~= want);
    out
}

/// The first index entry named `name`, file after file; `None` when no index
/// file holds it. When several files define the name, the earliest file in
/// `files` wins: callers list the files in a fixed order (sources first to
/// last) to make the choice deterministic.
pub fn cache_lookup(cache: &Cache, files: &Vec<IndexFile>, name: &str) -> (r: Option<DebPackage>)
    ensures
        opt_control_view(r) == first_named(all_entries(files_view(files@)), name@),
        r matches Some(p) ==> p.kind == PkgKind::Binary,
{
    let key = chars_of(name);
    let mut i: usize = 0;
    while i < files.len()
        invariant
            i <= files@.len(),
            key@ == name@,
            first_named(all_entries(files_view(files@).take(i as int)), name@) is None,
        decreases files@.len() - i,
    {
        let ghost t = files_view(files@).take(i + 1);
        assert(t.drop_last() =~= files_view(files@).take(i as int));
        let ghost prev = all_entries(files_view(files@).take(i as int));
        let entries = index_entries(&files[i]);
        let ghost es = controls_view(entries@);
        let mut j: usize = 0;
        while j < entries.len()
            invariant
                i < files@.len(),
                j <= entries@.len(),
                all_binary(entries@),
                key@ == name@,
                es == controls_view(entries@),
                first_named(prev, name@) is None,
                first_named(es.take(j as int), name@) is None,
                prev == all_entries(files_view(files@).take(i as int)),
                es == file_entries(files@[i as int].name@, files@[i as int].contents@),
            decreases entries@.len() - j,
        {
            assert(es.take(j + 1).drop_last() =~= es.take(j as int));
            if chars_eq(&chars_of(entries[j].control.package.as_str()), &key) {
                let found = entries[j].clone_package();
                proof {
                    let all = files_view(files@);
                    assert(all.len() == files@.len());
                    assert(all[i as int] == (files@[i as int].name@, files@[i as int].contents@));
                    assert(es.take(j + 1).drop_last() =~= es.take(j as int));
                    assert(first_named(es.take(j + 1), name@) == Some(es[j as int]));
                    assert(es =~= es.take(j + 1) + es.skip(j + 1));
                    lemma_first_named_append(es.take(j + 1), es.skip(j + 1), name@);
                    assert(all =~= all.take(i as int) + (seq![all[i as int]] + all.skip(i + 1)));
                    lemma_all_entries_append(all.take(i as int), seq![all[i as int]] + all.skip(i + 1));
                    lemma_all_entries_append(seq![all[i as int]], all.skip(i + 1));
                    assert(seq![all[i as int]].drop_last() =~= Seq::<(Seq<char>, Seq<char>)>::empty());
                    assert(all_entries(Seq::<(Seq<char>, Seq<char>)>::empty()) =~= Seq::empty());
                    assert(all_entries(seq![all[i as int]]) =~= es);
                    lemma_first_named_append(es, all_entries(all.skip(i + 1)), name@);
                    lemma_first_named_append(prev, es + all_entries(all.skip(i + 1)), name@);
                    assert(prev + (es + all_entries(all.skip(i + 1))) =~= all_entries(all));
                }
                return Some(found);
            }
            j = j + 1;
        }
        assert(es.take(entries@.len() as int) =~= es);
        assert(all_entries(t) == prev + es);
        proof {
            lemma_first_named_append(prev, es, name@);
        }
        i = i + 1;
    }
    assert(files_view(files@).take(files@.len() as int) =~= files_view(files@));
    None
}

/// Every index entry whose name contains `name`, file after file.
pub fn cache_search(cache: &Cache, files: &Vec<IndexFile>, name: &str) -> (r: Vec<DebPackage>)
    ensures
        controls_view(r@) == named_containing(all_entries(files_view(files@)), name@),
        all_binary(r@),
{
    let key = chars_of(name);
    let mut out: Vec<DebPackage> = Vec::new();
    let mut i: usize = 0;
    while i < files.len()
        invariant
            i <= files@.len(),
            key@ == name@,
            controls_view(out@) == named_containing(all_entries(files_view(files@).take(i as int)), name@),
            all_binary(out@),
        decreases files@.len() - i,
    {
        let ghost t = files_view(files@).take(i + 1);
        assert(t.drop_last() =~= files_view(files@).take(i as int));
        let ghost prev = all_entries(files_view(files@).take(i as int));
        let ghost start = controls_view(out@);
        let entries = index_entries(&files[i]);
        let ghost es = controls_view(entries@);
        let mut j: usize = 0;
        while j < entries.len()
            invariant
                i < files@.len(),
                j <= entries@.len(),
                key@ == name@,
                es == controls_view(entries@),
                all_binary(out@),
                all_binary(entries@),
                controls_view(out@) == start + named_containing(es.take(j as int), name@),
            decreases entries@.len() - j,
        {
            assert(es.take(j + 1).drop_last() =~= es.take(j as int));
            if contains_chars(&chars_of(entries[j].control.package.as_str()), &key) {
                let found = entries[j].clone_package();
                let ghost before = out@;
                out.push(found);
                assert(controls_view(out@) =~= controls_view(before).push(es[j as int]));
            }
            assert(controls_view(out@) =~= start + named_containing(es.take(j + 1), name@));
            j = j + 1;
        }
        assert(es.take(entries@.len() as int) =~= es);
        proof {
            assert(files_view(files@)[i as int] == (files@[i as int].name@, files@[i as int].contents@));
            assert(all_entries(t) == prev + es);
            lemma_named_containing_append(prev, es, name@);
        }
        i = i + 1;
    }
    assert(files_view(files@).take(files@.len() as int) =~= files_view(files@));
    out
}

/// The answer to an exact lookup (`exact`) or a search for `name`.
pub fn cache_inter(cache: &Cache, files: &Vec<IndexFile>, name: &str, exact: bool) -> (r: CacheResult)
    ensures
        exact ==> r.pkgs is None && opt_control_view(r.pkg) == first_named(
            all_entries(files_view(files@)),
            name@,
        ),
        !exact ==> r.pkg is None && (r.pkgs matches Some(v) && controls_view(v@) == named_containing(
            all_entries(files_view(files@)),
            name@,
        )),
        r.pkg matches Some(p) ==> p.kind == PkgKind::Binary,
        r.pkgs matches Some(v) ==> all_binary(v@),
{
    if exact {
        CacheResult { pkg: cache_lookup(cache, files, name), pkgs: None }
    } else {
        CacheResult { pkg: None, pkgs: Some(cache_search(cache, files, name)) }
    }
}

/// The records of an installed-package database text: every stanza that
/// parses, in order.
pub open spec fn db_records(db: Seq<char>) -> Seq<ControlModel> {
    ok_records(parse_all_spec(db))
}

/// Every record of the installed-package database `db` (its text).
pub fn db_dump(db: &str) -> (r: Vec<DebPackage>)
    ensures
        controls_view(r@) == db_records(db@),
        all_binary(r@),
{
    let records = ok_controls(db);
    let mut out: Vec<DebPackage> = Vec::new();
    let mut i: usize = 0;
    while i < records.len()
        invariant
            i <= records@.len(),
            records@.map_values(|c: ControlFile| c@) == db_records(db@),
            controls_view(out@) == db_records(db@).take(i as int),
            all_binary(out@),
        decreases records@.len() - i,
    {
        let c = records[i].clone_record();
        assert(records@.map_values(|c: ControlFile| c@)[i as int] == records@[i as int]@);
        let ghost before = out@;
        out.push(DebPackage { control: c, kind: PkgKind::Binary });
        assert(controls_view(out@) =~= controls_view(before).push(records@[i as int]@));
        assert(controls_view(out@) =~= db_records(db@).take(i + 1));
        i = i + 1;
    }
    assert(db_records(db@).take(records@.len() as int) =~= db_records(db@));
    out
}

/// The first installed package named `name`.
pub fn find_installed(installed: &Vec<DebPackage>, name: &str) -> (r: Option<DebPackage>)
    ensures
        opt_control_view(r) == first_named(controls_view(installed@), name@),
{
    let key = chars_of(name);
    let ghost all = controls_view(installed@);
    let mut i: usize = 0;
    while i < installed.len()
        invariant
            i <= installed@.len(),
            key@ == name@,
            all == controls_view(installed@),
            first_named(all.take(i as int), name@) is None,
        decreases installed@.len() - i,
    {
        assert(all.take(i + 1).drop_last() =~= all.take(i as int));
        if chars_eq(&chars_of(installed[i].control.package.as_str()), &key) {
            proof {
                assert(first_named(all.take(i + 1), name@) == Some(all[i as int]));
                assert(all =~= all.take(i + 1) + all.skip(i + 1));
                lemma_first_named_append(all.take(i + 1), all.skip(i + 1), name@);
            }
            return Some(installed[i].clone_package());
        }
        i = i + 1;
    }
    assert(all.take(installed@.len() as int) =~= all);
    None
}

/// The installed record named `name` in the database text `db`.
pub fn check_installed(db: &str, name: &str) -> (r: Option<DebPackage>)
    ensures
        opt_control_view(r) == first_named(db_records(db@), name@),
{
    find_installed(&db_dump(db), name)
}

/// The database line of an optional relationship field: none when absent.
pub open spec fn list_line(label: Seq<char>, o: Option<Seq<Seq<char>>>) -> Seq<char> {
    match o {
        Some(t) => "\n"@ + label + ": "@ + join(t, ", "@),
        None => Seq::empty(),
    }
}

/// The text that the database stores for a record: its fields in a fixed
/// order, then a blank line.
pub open spec fn db_text(m: ControlModel) -> Seq<char> {
    "Package: "@ + m.package + "\nVersion: "@ + m.version + "\nPriority: "@ + m.priority
        + "\nArchitecture: "@ + m.architecture + "\nMaintainer: "@ + m.maintainer
        + "\nDescription: "@ + m.description + list_line("Depends"@, m.depends) + list_line(
        "Pre-Depends"@,
        m.pre_depends,
    ) + list_line("Recommends"@, m.recommends) + list_line("Suggests"@, m.suggests) + list_line(
        "Enhances"@,
        m.enhances,
    ) + list_line("Breaks"@, m.breaks) + list_line("Conflicts"@, m.conflicts) + "\n\n"@
}

fn append_list(out: &mut String, label: &str, o: &Option<Vec<String>>)
    ensures
        final(out)@ == old(out)@ + list_line(label@, opt_strings_view(*o)),
{
    match o {
        Some(t) => {
            let ghost start = out@;
            out.append("\n");
            out.append(label);
            out.append(": ");
            append_joined(out, t, ", ");
            assert(out@ =~= start + list_line(label@, opt_strings_view(*o)));
        },
        None => {
            assert(out@ =~= out@ + Seq::<char>::empty());
        },
    }
}

/// The stanza that appending `pkg` to the database writes, blank line
/// included; the database is only ever appended to.
pub fn db_stanza(pkg: &DebPackage) -> (r: String)
    ensures
        r@ == db_text(pkg.control@),
{
    let c = &pkg.control;
    let mut out = "Package: ".to_owned();
    out.append(c.package.as_str());
    out.append("\nVersion: ");
    out.append(c.version.as_str());
    out.append("\nPriority: ");
    out.append(c.priority.as_str());
    out.append("\nArchitecture: ");
    out.append(c.architecture.as_str());
    out.append("\nMaintainer: ");
    out.append(c.maintainer.as_str());
    out.append("\nDescription: ");
    out.append(c.description.as_str());
    append_list(&mut out, "Depends", &c.depends);
    append_list(&mut out, "Pre-Depends", &c.pre_depends);
    append_list(&mut out, "Recommends", &c.recommends);
    append_list(&mut out, "Suggests", &c.suggests);
    append_list(&mut out, "Enhances", &c.enhances);
    append_list(&mut out, "Breaks", &c.breaks);
    append_list(&mut out, "Conflicts", &c.conflicts);
    out.append("\n\n");
    out
}

/// The database text that keeps every record but those named `name`, each
/// written as `db_stanza` writes it.
pub open spec fn db_text_without(records: Seq<ControlModel>, name: Seq<char>) -> Seq<char>
    decreases records.len(),
{
    if records.len() == 0 {
        Seq::empty()
    } else {
        db_text_without(records.drop_last(), name) + if records.last().package == name {
            Seq::empty()
        } else {
            db_text(records.last())
        }
    }
}

/// The database `db` rewritten without the records named `name`: the
/// database is append-only, so removal writes it anew.
pub fn db_without(db: &str, name: &str) -> (r: String)
    ensures
        r@ == db_text_without(db_records(db@), name@),
{
    let records = db_dump(db);
    let key = chars_of(name);
    let ghost all = controls_view(records@);
    let mut out = String::new();
    let mut i: usize = 0;
    while i < records.len()
        invariant
            i <= records@.len(),
            key@ == name@,
            all == controls_view(records@),
            all == db_records(db@),
            out@ == db_text_without(all.take(i as int), name@),
        decreases records@.len() - i,
    {
        let ghost t = all.take(i + 1);
        assert(t.drop_last() =~= all.take(i as int));
        assert(t.last() == records@[i as int].control@);
        let ghost before = out@;
        if chars_eq(&chars_of(records[i].control.package.as_str()), &key) {
            assert(out@ =~= before + Seq::<char>::empty());
        } else {
            let text = db_stanza(&records[i]);
            out.append(text.as_str());
        }
        i = i + 1;
    }
    assert(all.take(records@.len() as int) =~= all);
    out
}

pub proof fn lemma_first_named_append(a: Seq<ControlModel>, b: Seq<ControlModel>, name: Seq<char>)
    ensures
        first_named(a + b, name) == match first_named(a, name) {
            Some(m) => Some(m),
            None => first_named(b, name),
        },
    decreases b.len(),
{
    if b.len() == 0 {
        assert(a + b =~= a);
    } else {
        lemma_first_named_append(a, b.drop_last(), name);
        assert((a + b).drop_last() =~= a + b.drop_last());
    }
}

pub proof fn lemma_all_entries_append(a: Seq<(Seq<char>, Seq<char>)>, b: Seq<(Seq<char>, Seq<char>)>)
    ensures
        all_entries(a + b) == all_entries(a) + all_entries(b),
    decreases b.len(),
{
    if b.len() == 0 {
        assert(a + b =~= a);
        assert(all_entries(a) + all_entries(b) =~= all_entries(a));
    } else {
        lemma_all_entries_append(a, b.drop_last());
        assert((a + b).drop_last() =~= a + b.drop_last());
        assert(all_entries(a + b) =~= all_entries(a) + all_entries(b));
    }
}

pub proof fn lemma_named_containing_append(a: Seq<ControlModel>, b: Seq<ControlModel>, needle: Seq<char>)
    ensures
        named_containing(a + b, needle) == named_containing(a, needle) + named_containing(b, needle),
    decreases b.len(),
{
    if b.len() == 0 {
        assert(a + b =~= a);
        assert(named_containing(a, needle) + named_containing(b, needle) =~= named_containing(a, needle));
    } else {
        lemma_named_containing_append(a, b.drop_last(), needle);
        assert((a + b).drop_last() =~= a + b.drop_last());
        assert(named_containing(a + b, needle) =~= named_containing(a, needle) + named_containing(b, needle));
    }
}

} // verus!
