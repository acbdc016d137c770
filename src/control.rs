//! Control metadata: the stanza grammar and the package records it describes.
use vstd::prelude::*;
use crate::config::Config;
use crate::errors::InstallError;
use crate::text::{chars_eq, chars_of, chars_view, split, split_chars, string_of, strings_view, trim, trim_bounds, trim_range};

verus! {

/// Kind of the package.
#[derive(Debug, Clone, Copy, PartialEq, Eq, Structural)]
pub enum PkgKind {
    Binary,
    Source,
}

#[derive(Debug, Clone, Copy, PartialEq, Eq, Structural)]
pub enum PkgPriority {
    Required,
    Important,
    Standard,
    Optional,
    /// Deprecated, kept for compatibility.
    Extra,
}

/// The model of a control record: every text as a character sequence.
pub struct ControlModel {
    pub package: Seq<char>,
    pub version: Seq<char>,
    pub priority: Seq<char>,
    pub architecture: Seq<char>,
    pub maintainer: Seq<char>,
    pub description: Seq<char>,
    pub depends: Option<Seq<Seq<char>>>,
    pub recommends: Option<Seq<Seq<char>>>,
    pub suggests: Option<Seq<Seq<char>>>,
    pub enhances: Option<Seq<Seq<char>>>,
    pub pre_depends: Option<Seq<Seq<char>>>,
    pub breaks: Option<Seq<Seq<char>>>,
    pub conflicts: Option<Seq<Seq<char>>>,
    pub conffiles: Option<Seq<Seq<char>>>,
    pub filename: Seq<char>,
    pub size: Seq<char>,
    pub md5sum: Seq<char>,
    pub sha1: Seq<char>,
    pub sha256: Seq<char>,
    pub sha512: Seq<char>,
}

/// One package's metadata, as a control stanza gives it.
#[derive(Debug, Clone, PartialEq, Eq)]
pub struct ControlFile {
    pub package: String,
    pub version: String,
    pub priority: String,
    pub architecture: String,
    pub maintainer: String,
    pub description: String,
    pub depends: Option<Vec<String>>,
    pub recommends: Option<Vec<String>>,
    pub suggests: Option<Vec<String>>,
    pub enhances: Option<Vec<String>>,
    pub pre_depends: Option<Vec<String>>,
    pub breaks: Option<Vec<String>>,
    pub conflicts: Option<Vec<String>>,
    pub conffiles: Option<Vec<String>>,
    pub filename: String,
    pub size: String,
    pub md5sum: String,
    pub sha1: String,
    pub sha256: String,
    pub sha512: String,
}

/// The model of an optional list of strings.
pub open spec fn opt_strings_view(o: Option<Vec<String>>) -> Option<Seq<Seq<char>>> {
    match o {
        Some(v) => Some(strings_view(v@)),
        None => None,
    }
}

impl View for ControlFile {
    type V = ControlModel;

    open spec fn view(&self) -> ControlModel {
        ControlModel {
            package: self.package@,
            version: self.version@,
            priority: self.priority@,
            architecture: self.architecture@,
            maintainer: self.maintainer@,
            description: self.description@,
            depends: opt_strings_view(self.depends),
            recommends: opt_strings_view(self.recommends),
            suggests: opt_strings_view(self.suggests),
            enhances: opt_strings_view(self.enhances),
            pre_depends: opt_strings_view(self.pre_depends),
            breaks: opt_strings_view(self.breaks),
            conflicts: opt_strings_view(self.conflicts),
            conffiles: opt_strings_view(self.conffiles),
            filename: self.filename@,
            size: self.size@,
            md5sum: self.md5sum@,
            sha1: self.sha1@,
            sha256: self.sha256@,
            sha512: self.sha512@,
        }
    }
}

/// `j` is the position of the first `:` of `l`.
pub open spec fn is_first_colon(l: Seq<char>, j: int) -> bool {
    &&& 0 <= j < l.len()
    &&& l[j] == ':'
    &&& forall|k: int| 0 <= k < j ==> l[k] != ':'
}

/// The (name, value) pair of a `Name: value` line, both trimmed; `None` for a
/// line without `:`.
pub open spec fn entry(l: Seq<char>) -> Option<(Seq<char>, Seq<char>)> {
    if exists|j: int| is_first_colon(l, j) {
        let j = choose|j: int| is_first_colon(l, j);
        Some((trim(l.take(j)), trim(l.skip(j + 1))))
    } else {
        None
    }
}

/// The value of field `key` among `lines`: the last line that names it wins.
pub open spec fn field(lines: Seq<Seq<char>>, key: Seq<char>) -> Option<Seq<char>>
    decreases lines.len(),
{
    if lines.len() == 0 {
        None
    } else {
        match entry(lines.last()) {
            Some((k, v)) => if k == key {
                Some(v)
            } else {
                field(lines.drop_last(), key)
            },
            None => field(lines.drop_last(), key),
        }
    }
}

/// A relationship value: comma-separated, each token trimmed; an absent or
/// empty value gives `None`.
pub open spec fn split_list(v: Option<Seq<char>>) -> Option<Seq<Seq<char>>> {
    match v {
        Some(s) => if s.len() > 0 {
            Some(split(s, ',').map_values(|t: Seq<char>| trim(t)))
        } else {
            None
        },
        None => None,
    }
}

pub open spec fn value_or_empty(o: Option<Seq<char>>) -> Seq<char> {
    match o {
        Some(v) => v,
        None => Seq::empty(),
    }
}

/// The field has a non-empty value.
pub open spec fn has_value(o: Option<Seq<char>>) -> bool {
    o matches Some(v) && v.len() > 0
}

/// The first mandatory field that `lines` lacks or leaves empty, in the
/// order Package, Version, Architecture, Maintainer, Description.
pub open spec fn missing_mandatory(lines: Seq<Seq<char>>) -> Option<Seq<char>> {
    if !has_value(field(lines, "Package"@)) {
        Some("Package"@)
    } else if !has_value(field(lines, "Version"@)) {
        Some("Version"@)
    } else if !has_value(field(lines, "Architecture"@)) {
        Some("Architecture"@)
    } else if !has_value(field(lines, "Maintainer"@)) {
        Some("Maintainer"@)
    } else if !has_value(field(lines, "Description"@)) {
        Some("Description"@)
    } else {
        None
    }
}

/// The record that the lines of a stanza describe.
pub open spec fn record_of(lines: Seq<Seq<char>>) -> ControlModel {
    ControlModel {
        package: value_or_empty(field(lines, "Package"@)),
        version: value_or_empty(field(lines, "Version"@)),
        priority: value_or_empty(field(lines, "Priority"@)),
        architecture: value_or_empty(field(lines, "Architecture"@)),
        maintainer: value_or_empty(field(lines, "Maintainer"@)),
        description: value_or_empty(field(lines, "Description"@)),
        depends: split_list(field(lines, "Depends"@)),
        recommends: split_list(field(lines, "Recommends"@)),
        suggests: split_list(field(lines, "Suggests"@)),
        enhances: split_list(field(lines, "Enhances"@)),
        pre_depends: split_list(field(lines, "Pre-Depends"@)),
        breaks: split_list(field(lines, "Breaks"@)),
        conflicts: split_list(field(lines, "Conflicts"@)),
        conffiles: None,
        filename: value_or_empty(field(lines, "Filename"@)),
        size: value_or_empty(field(lines, "Size"@)),
        md5sum: value_or_empty(field(lines, "MD5sum"@)),
        sha1: value_or_empty(field(lines, "SHA1"@)),
        sha256: value_or_empty(field(lines, "SHA256"@)),
        sha512: value_or_empty(field(lines, "SHA512"@)),
    }
}

/// The outcome of parsing the lines of one stanza: the record, or the name of
/// the first missing mandatory field.
pub open spec fn parse_stanza(lines: Seq<Seq<char>>) -> Result<ControlModel, Seq<char>> {
    match missing_mandatory(lines) {
        Some(name) => Err(name),
        None => Ok(record_of(lines)),
    }
}

/// The outcome of parsing `text` as one stanza.
pub open spec fn parse_text(text: Seq<char>) -> Result<ControlModel, Seq<char>> {
    parse_stanza(split(text, '\n'))
}

/// The model of a parse result; `None` for an error other than a missing field.
pub open spec fn parse_view(r: Result<ControlFile, InstallError>) -> Option<Result<ControlModel, Seq<char>>> {
    match r {
        Ok(c) => Some(Ok(c@)),
        Err(InstallError::MissingField(n)) => Some(Err(n@)),
        Err(_) => None,
    }
}

/// The (name, value) pair of one line.
fn line_entry(l: &Vec<char>) -> (r: Option<(Vec<char>, Vec<char>)>)
    ensures
        match entry(l@) {
            Some((k, v)) => match r {
                Some((rk, rv)) => rk@ == k && rv@ == v,
                None => false,
            },
            None => r is None,
        },
{
    let mut j: usize = 0;
    while j < l.len() && l[j] != ':'
        invariant
            j <= l@.len(),
            forall|k: int| 0 <= k < j ==> l@[k] != ':',
        decreases l@.len() - j,
    {
        j = j + 1;
    }
    if j == l.len() {
        assert(!exists|j2: int| is_first_colon(l@, j2));
        None
    } else {
        assert(is_first_colon(l@, j as int));
        assert forall|j2: int| is_first_colon(l@, j2) implies j2 == j by {
            if j2 < j {
                assert(l@[j2] != ':');
            } else if j2 > j {
                assert(l@[j as int] != ':');
            }
        }
        let key = trim_range(l, 0, j);
        let value = trim_range(l, j + 1, l.len());
        assert(l@.subrange(0, j as int) =~= l@.take(j as int));
        assert(l@.subrange(j + 1, l@.len() as int) =~= l@.skip(j + 1));
        Some((key, value))
    }
}

/// The model of an optional character vector.
pub open spec fn opt_chars_view(o: Option<Vec<char>>) -> Option<Seq<char>> {
    match o {
        Some(v) => Some(v@),
        None => None,
    }
}

/// The value of field `key` among `lines`.
fn lookup(lines: &Vec<Vec<char>>, key: &Vec<char>) -> (r: Option<Vec<char>>)
    ensures
        opt_chars_view(r) == field(chars_view(lines@), key@),
{
    let mut found: Option<Vec<char>> = None;
    let mut i: usize = 0;
    while i < lines.len()
        invariant
            i <= lines@.len(),
            opt_chars_view(found) == field(chars_view(lines@).take(i as int), key@),
        decreases lines@.len() - i,
    {
        let ghost before = chars_view(lines@).take(i as int);
        let ghost after = chars_view(lines@).take(i + 1);
        assert(after.drop_last() =~= before);
        assert(after.last() == lines@[i as int]@);
        match line_entry(&lines[i]) {
            Some((k, v)) => {
                if chars_eq(&k, key) {
                    found = Some(v);
                }
            },
            None => {},
        }
        i = i + 1;
    }
    assert(chars_view(lines@).take(lines@.len() as int) =~= chars_view(lines@));
    found
}

impl PkgPriority {
    /// The priority that a `Priority` value names; unknown values are optional.
    pub fn get_priority(p: &str) -> (r: PkgPriority)
        ensures
            p@ == "required"@ ==> r == PkgPriority::Required,
            p@ == "important"@ ==> r == PkgPriority::Important,
            p@ == "standard"@ ==> r == PkgPriority::Standard,
            p@ == "extra"@ ==> r == PkgPriority::Extra,
            p@ != "required"@ && p@ != "important"@ && p@ != "standard"@ && p@ != "extra"@
                ==> r == PkgPriority::Optional,
    {
        proof {
            reveal_strlit("required");
            reveal_strlit("important");
            reveal_strlit("standard");
            reveal_strlit("extra");
            assert("required"@.len() != "important"@.len());
            assert("required"@[0] != "standard"@[0]);
            assert("required"@.len() != "extra"@.len());
            assert("important"@.len() != "standard"@.len());
            assert("important"@.len() != "extra"@.len());
            assert("standard"@.len() != "extra"@.len());
        }
        let v = chars_of(p);
        if chars_eq(&v, &chars_of("required")) {
            PkgPriority::Required
        } else if chars_eq(&v, &chars_of("important")) {
            PkgPriority::Important
        } else if chars_eq(&v, &chars_of("standard")) {
            PkgPriority::Standard
        } else if chars_eq(&v, &chars_of("extra")) {
            PkgPriority::Extra
        } else {
            PkgPriority::Optional
        }
    }
}

/// The lines of `text`, trimmed, without the blank ones.
pub open spec fn nonblank_lines(lines: Seq<Seq<char>>) -> Seq<Seq<char>>
    decreases lines.len(),
{
    if lines.len() == 0 {
        Seq::empty()
    } else {
        let prev = nonblank_lines(lines.drop_last());
        if trim(lines.last()).len() == 0 {
            prev
        } else {
            prev.push(trim(lines.last()))
        }
    }
}

/// The record that a control file describes, with its conffiles list when
/// `conffiles` is given.
pub open spec fn record_with_conffiles(
    control: Seq<char>,
    conffiles: Option<Seq<char>>,
) -> Result<ControlModel, Seq<char>> {
    match parse_text(control) {
        Ok(m) => Ok(
            ControlModel {
                conffiles: match conffiles {
                    Some(t) => Some(nonblank_lines(split(t, '\n'))),
                    None => None,
                },
                ..m
            },
        ),
        Err(n) => Err(n),
    }
}

impl ControlFile {
    /// The value of a mandatory field, or `MissingField` naming it when it
    /// is absent or empty.
    pub fn try_get(lines: &Vec<Vec<char>>, name: &str) -> (r: Result<String, InstallError>)
        ensures
            has_value(field(chars_view(lines@), name@)) ==> (r matches Ok(s) && Some(s@) == field(
                chars_view(lines@),
                name@,
            )),
            !has_value(field(chars_view(lines@), name@)) ==> (r matches Err(
                InstallError::MissingField(n),
            ) && n@ == name@),
    {
        match lookup(lines, &chars_of(name)) {
            Some(v) => if v.len() > 0 {
                Ok(string_of(&v))
            } else {
                Err(InstallError::MissingField(name.to_owned()))
            },
            None => Err(InstallError::MissingField(name.to_owned())),
        }
    }

    /// The value of an optional text field, empty when absent.
    fn get_or_empty(lines: &Vec<Vec<char>>, name: &str) -> (r: String)
        ensures
            r@ == value_or_empty(field(chars_view(lines@), name@)),
    {
        match lookup(lines, &chars_of(name)) {
            Some(v) => string_of(&v),
            None => String::new(),
        }
    }

    /// Splits a relationship value on `,`, trimming each token; an absent or
    /// empty value gives `None`.
    pub fn split_optional(dependencies: Option<&Vec<char>>) -> (r: Option<Vec<String>>)
        ensures
            opt_strings_view(r) == split_list(
                match dependencies {
                    Some(d) => Some(d@),
                    None => None,
                },
            ),
    {
        match dependencies {
            Some(val) => {
                if val.len() == 0 {
                    None
                } else {
                    let pieces = split_chars(val, ',');
                    let ghost want = split(val@, ',').map_values(|t: Seq<char>| trim(t));
                    let mut out: Vec<String> = Vec::new();
                    let mut i: usize = 0;
                    while i < pieces.len()
                        invariant
                            i <= pieces@.len(),
                            chars_view(pieces@) == split(val@, ','),
                            want == split(val@, ',').map_values(|t: Seq<char>| trim(t)),
                            strings_view(out@) == want.take(i as int),
                        decreases pieces@.len() - i,
                    {
                        let piece = &pieces[i];
                        let t = trim_range(piece, 0, piece.len());
                        assert(piece@.subrange(0, piece@.len() as int) =~= piece@);
                        assert(chars_view(pieces@)[i as int] == piece@);
                        assert(want[i as int] == trim(piece@));
                        let ts = string_of(&t);
                        let ghost before = out@;
                        out.push(ts);
                        assert(strings_view(out@) =~= strings_view(before).push(ts@));
                        assert(strings_view(out@) =~= want.take(i + 1));
                        i = i + 1;
                    }
                    assert(want.take(pieces@.len() as int) =~= want);
                    Some(out)
                }
            },
            None => None,
        }
    }

    fn get_list(lines: &Vec<Vec<char>>, name: &str) -> (r: Option<Vec<String>>)
        ensures
            opt_strings_view(r) == split_list(field(chars_view(lines@), name@)),
    {
        let v = lookup(lines, &chars_of(name));
        match v {
            Some(d) => Self::split_optional(Some(&d)),
            None => None,
        }
    }

    /// Parses the lines of one stanza.
    pub fn parse_lines(lines: &Vec<Vec<char>>) -> (r: Result<ControlFile, InstallError>)
        ensures
            parse_view(r) == Some(parse_stanza(chars_view(lines@))),
    {
        let package = match Self::try_get(lines, "Package") {
            Ok(v) => v,
            Err(e) => return Err(e),
        };
        let version = match Self::try_get(lines, "Version") {
            Ok(v) => v,
            Err(e) => return Err(e),
        };
        let architecture = match Self::try_get(lines, "Architecture") {
            Ok(v) => v,
            Err(e) => return Err(e),
        };
        let maintainer = match Self::try_get(lines, "Maintainer") {
            Ok(v) => v,
            Err(e) => return Err(e),
        };
        let description = match Self::try_get(lines, "Description") {
            Ok(v) => v,
            Err(e) => return Err(e),
        };
        let r = ControlFile {
            package,
            version,
            architecture,
            maintainer,
            description,
            // Installed-database stanzas legitimately omit the priority.
            priority: Self::get_or_empty(lines, "Priority"),
            depends: Self::get_list(lines, "Depends"),
            recommends: Self::get_list(lines, "Recommends"),
            suggests: Self::get_list(lines, "Suggests"),
            enhances: Self::get_list(lines, "Enhances"),
            pre_depends: Self::get_list(lines, "Pre-Depends"),
            breaks: Self::get_list(lines, "Breaks"),
            conflicts: Self::get_list(lines, "Conflicts"),
            conffiles: None,
            filename: Self::get_or_empty(lines, "Filename"),
            size: Self::get_or_empty(lines, "Size"),
            md5sum: Self::get_or_empty(lines, "MD5sum"),
            sha1: Self::get_or_empty(lines, "SHA1"),
            sha256: Self::get_or_empty(lines, "SHA256"),
            sha512: Self::get_or_empty(lines, "SHA512"),
        };
        Ok(r)
    }

    /// Parses `contents` as one control stanza.
    pub fn new(_config: &Config, contents: &str) -> (r: Result<ControlFile, InstallError>)
        ensures
            parse_view(r) == Some(parse_text(contents@)),
    {
        let lines = split_chars(&chars_of(contents), '\n');
        Self::parse_lines(&lines)
    }

    /// Replaces the record's filename.
    pub fn set_filename(&mut self, filename: &str)
        ensures
            final(self)@ == (ControlModel { filename: filename@, ..old(self)@ }),
    {
        self.filename = filename.to_owned();
    }

    /// The record of an unpacked control tree: `control` is the text of its
    /// `control` file and `conffiles` that of its `conffiles` file. `None`
    /// when the tree holds no `control` file.
    pub fn from_info(
        config: &Config,
        info: &Info,
        control: &str,
        conffiles: &str,
    ) -> (r: Result<Option<ControlFile>, InstallError>)
        ensures
            info.control is None ==> r matches Ok(None),
            info.control is Some ==> match record_with_conffiles(
                control@,
                if info.conffiles is Some { Some(conffiles@) } else { None },
            ) {
                Ok(m) => r matches Ok(Some(c)) && c@ == m,
                Err(n) => r matches Err(InstallError::MissingField(e)) && e@ == n,
            },
    {
        if info.control.is_none() {
            return Ok(None);
        }
        let mut result = match Self::new(config, control) {
            Ok(c) => c,
            Err(e) => return Err(e),
        };
        if info.conffiles.is_some() {
            let lines = split_chars(&chars_of(conffiles), '\n');
            result.conffiles = Some(trimmed_nonblank(&lines));
        }
        Ok(Some(result))
    }
}

/// The lines trimmed, without the blank ones.
fn trimmed_nonblank(lines: &Vec<Vec<char>>) -> (r: Vec<String>)
    ensures
        strings_view(r@) == nonblank_lines(chars_view(lines@)),
{
    let mut out: Vec<String> = Vec::new();
    let mut i: usize = 0;
    while i < lines.len()
        invariant
            i <= lines@.len(),
            strings_view(out@) == nonblank_lines(chars_view(lines@).take(i as int)),
        decreases lines@.len() - i,
    {
        let l = &lines[i];
        let ghost after = chars_view(lines@).take(i + 1);
        assert(after.drop_last() =~= chars_view(lines@).take(i as int));
        assert(after.last() == l@);
        assert(l@.subrange(0, l@.len() as int) =~= l@);
        let t = trim_range(l, 0, l.len());
        if t.len() > 0 {
            out.push(string_of(&t));
            assert(strings_view(out@) =~= nonblank_lines(after));
        }
        i = i + 1;
    }
    assert(chars_view(lines@).take(lines@.len() as int) =~= chars_view(lines@));
    out
}

/// Filesystem locations of the recognised files of an unpacked control tree.
#[derive(Debug, Clone, PartialEq, Eq)]
pub struct Info {
    pub conffiles: Option<String>,
    pub control: Option<String>,
    pub md5sums: Option<String>,
    pub preinst: Option<String>,
    pub postinst: Option<String>,
    pub prerm: Option<String>,
    pub postrm: Option<String>,
}

/// A package: its control record and kind.
#[derive(Debug, Clone, PartialEq, Eq)]
pub struct DebPackage {
    pub control: ControlFile,
    pub kind: PkgKind,
}

impl DebPackage {
    /// The package of an unpacked control tree (see `ControlFile::from_info`);
    /// a tree without a `control` file is a `MissingField` error.
    pub fn new(
        config: &Config,
        info: &Info,
        control: &str,
        conffiles: &str,
        kind: PkgKind,
    ) -> (r: Result<DebPackage, InstallError>)
        ensures
            info.control is None ==> (r matches Err(InstallError::MissingField(e)) && e@ == "control"@),
            info.control is Some ==> match record_with_conffiles(
                control@,
                if info.conffiles is Some { Some(conffiles@) } else { None },
            ) {
                Ok(m) => r matches Ok(p) && p.control@ == m && p.kind == kind,
                Err(n) => r matches Err(InstallError::MissingField(e)) && e@ == n,
            },
    {
        match ControlFile::from_info(config, info, control, conffiles) {
            Ok(Some(c)) => Ok(DebPackage { control: c, kind }),
            Ok(None) => Err(InstallError::MissingField("control".to_owned())),
            Err(e) => Err(e),
        }
    }
}

/// A line that holds only whitespace.
pub open spec fn is_blank(l: Seq<char>) -> bool {
    trim(l).len() == 0
}

/// The stanzas closed so far, and the lines of the one still open, after
/// reading `lines` in order.
pub open spec fn stanza_scan(lines: Seq<Seq<char>>) -> (Seq<Seq<Seq<char>>>, Seq<Seq<char>>)
    decreases lines.len(),
{
    if lines.len() == 0 {
        (Seq::empty(), Seq::empty())
    } else {
        let (done, open) = stanza_scan(lines.drop_last());
        if is_blank(lines.last()) {
            if open.len() == 0 {
                (done, open)
            } else {
                (done.push(open), Seq::empty())
            }
        } else {
            (done, open.push(lines.last()))
        }
    }
}

/// The stanzas of `lines`: maximal runs of non-blank lines, in order.
pub open spec fn stanzas(lines: Seq<Seq<char>>) -> Seq<Seq<Seq<char>>> {
    let (done, open) = stanza_scan(lines);
    if open.len() == 0 {
        done
    } else {
        done.push(open)
    }
}

/// The outcome of parsing every stanza of `text`, in order.
pub open spec fn parse_all_spec(text: Seq<char>) -> Seq<Option<Result<ControlModel, Seq<char>>>> {
    stanzas(split(text, '\n')).map_values(|g: Seq<Seq<char>>| Some(parse_stanza(g)))
}

/// The models of a sequence of parse results.
pub open spec fn parse_views(s: Seq<Result<ControlFile, InstallError>>) -> Seq<Option<Result<ControlModel, Seq<char>>>> {
    s.map_values(|r: Result<ControlFile, InstallError>| parse_view(r))
}

/// Whether a line holds only whitespace.
fn line_is_blank(l: &Vec<char>) -> (r: bool)
    ensures
        r == is_blank(l@),
{
    let (lo, hi) = trim_bounds(l, 0, l.len());
    assert(l@.subrange(0, l@.len() as int) =~= l@);
    lo == hi
}

/// Parses every blank-line separated stanza of `text`, in order.
pub fn parse_all(text: &str) -> (r: Vec<Result<ControlFile, InstallError>>)
    ensures
        parse_views(r@) == parse_all_spec(text@),
{
    let lines = split_chars(&chars_of(text), '\n');
    let ghost all = chars_view(lines@);
    let mut out: Vec<Result<ControlFile, InstallError>> = Vec::new();
    let mut open: Vec<Vec<char>> = Vec::new();
    let mut i: usize = 0;
    while i < lines.len()
        invariant
            i <= lines@.len(),
            all == chars_view(lines@),
            all == split(text@, '\n'),
            parse_views(out@) == stanza_scan(all.take(i as int)).0.map_values(
                |g: Seq<Seq<char>>| Some(parse_stanza(g)),
            ),
            chars_view(open@) == stanza_scan(all.take(i as int)).1,
        decreases lines@.len() - i,
    {
        let ghost after = all.take(i + 1);
        assert(after.drop_last() =~= all.take(i as int));
        assert(after.last() == lines@[i as int]@);
        let ghost prev_out = out@;
        if line_is_blank(&lines[i]) {
            if open.len() > 0 {
                let parsed = ControlFile::parse_lines(&open);
                out.push(parsed);
                open = Vec::new();
                assert(parse_views(out@) =~= parse_views(prev_out).push(parse_view(parsed)));
                assert(chars_view(open@) =~= Seq::<Seq<char>>::empty());
            }
        } else {
            let ghost prev_open = open@;
            open.push(lines[i].clone());
            assert(chars_view(open@) =~= chars_view(prev_open).push(lines@[i as int]@));
        }
        assert(parse_views(out@) =~= stanza_scan(after).0.map_values(
            |g: Seq<Seq<char>>| Some(parse_stanza(g)),
        ));
        i = i + 1;
    }
    assert(all.take(lines@.len() as int) =~= all);
    if open.len() > 0 {
        let ghost prev_out = out@;
        let parsed = ControlFile::parse_lines(&open);
        out.push(parsed);
        assert(parse_views(out@) =~= parse_views(prev_out).push(parse_view(parsed)));
    }
    assert(parse_views(out@) =~= parse_all_spec(text@));
    out
}

/// A copy of an optional list of strings.
pub fn clone_list(o: &Option<Vec<String>>) -> (r: Option<Vec<String>>)
    ensures
        opt_strings_view(r) == opt_strings_view(*o),
{
    match o {
        Some(v) => {
            let mut out: Vec<String> = Vec::new();
            let mut i: usize = 0;
            while i < v.len()
                invariant
                    i <= v@.len(),
                    strings_view(out@) == strings_view(v@).take(i as int),
                decreases v@.len() - i,
            {
                let c = v[i].clone();
                assert(strings_view(v@)[i as int] == c@);
                let ghost before = out@;
                out.push(c);
                assert(strings_view(out@) =~= strings_view(before).push(c@));
                assert(strings_view(out@) =~= strings_view(v@).take(i + 1));
                i = i + 1;
            }
            assert(strings_view(v@).take(v@.len() as int) =~= strings_view(v@));
            Some(out)
        },
        None => None,
    }
}

impl ControlFile {
    /// A copy of the record.
    pub fn clone_record(&self) -> (r: ControlFile)
        ensures
            r@ == self@,
    {
        ControlFile {
            package: self.package.clone(),
            version: self.version.clone(),
            priority: self.priority.clone(),
            architecture: self.architecture.clone(),
            maintainer: self.maintainer.clone(),
            description: self.description.clone(),
            depends: clone_list(&self.depends),
            recommends: clone_list(&self.recommends),
            suggests: clone_list(&self.suggests),
            enhances: clone_list(&self.enhances),
            pre_depends: clone_list(&self.pre_depends),
            breaks: clone_list(&self.breaks),
            conflicts: clone_list(&self.conflicts),
            conffiles: clone_list(&self.conffiles),
            filename: self.filename.clone(),
            size: self.size.clone(),
            md5sum: self.md5sum.clone(),
            sha1: self.sha1.clone(),
            sha256: self.sha256.clone(),
            sha512: self.sha512.clone(),
        }
    }
}

impl DebPackage {
    /// A copy of the package.
    pub fn clone_package(&self) -> (r: DebPackage)
        ensures
            r.control@ == self.control@,
            r.kind == self.kind,
    {
        DebPackage { control: self.control.clone_record(), kind: self.kind }
    }
}

/// The mandatory fields, in the order they are checked.
pub open spec fn mandatory_fields() -> Seq<Seq<char>> {
    seq!["Package"@, "Version"@, "Architecture"@, "Maintainer"@, "Description"@]
}

/// A stanza that lacks a mandatory field, or leaves it empty, does not
/// parse, and the error names the first such mandatory field.
pub proof fn lemma_missing_field_named(text: Seq<char>, k: int)
    requires
        0 <= k < 5,
        !has_value(field(split(text, '\n'), mandatory_fields()[k])),
        forall|j: int| 0 <= j < k ==> has_value(field(split(text, '\n'), #[trigger] mandatory_fields()[j])),
    ensures
        parse_text(text) == Err::<ControlModel, Seq<char>>(mandatory_fields()[k]),
{
    let lines = split(text, '\n');
    if k > 0 {
        assert(has_value(field(lines, mandatory_fields()[0])));
    }
    if k > 1 {
        assert(has_value(field(lines, mandatory_fields()[1])));
    }
    if k > 2 {
        assert(has_value(field(lines, mandatory_fields()[2])));
    }
    if k > 3 {
        assert(has_value(field(lines, mandatory_fields()[3])));
    }
}

pub proof fn lemma_split_without_sep(s: Seq<char>, sep: char)
    requires
        !s.contains(sep),
    ensures
        split(s, sep) == seq![s],
    decreases s.len(),
{
    if s.len() == 0 {
        assert(s =~= Seq::<char>::empty());
    } else {
        assert(!s.drop_last().contains(sep)) by {
            if s.drop_last().contains(sep) {
                let i = choose|i: int| 0 <= i < s.drop_last().len() && s.drop_last()[i] == sep;
                assert(s[i] == sep);
            }
        }
        lemma_split_without_sep(s.drop_last(), sep);
        assert(s.last() != sep) by {
            assert(s[s.len() - 1] == s.last());
        }
        assert(s.drop_last().push(s.last()) =~= s);
        assert(split(s, sep) =~= seq![s]);
    }
}

/// A relationship field's presence decides its parse: an absent field and
/// an empty value both give `None`; a single token gives a one-item list.
/// Every relationship field of a record is parsed this way (see `record_of`).
pub proof fn lemma_relationship_presence(v: Seq<char>)
    ensures
        split_list(None) is None,
        split_list(Some(Seq::<char>::empty())) is None,
        v.len() > 0 && !v.contains(',') && trim(v) == v ==> split_list(Some(v)) == Some(seq![v]),
{
    if v.len() > 0 && !v.contains(',') && trim(v) == v {
        lemma_split_without_sep(v, ',');
        assert(split(v, ',').map_values(|t: Seq<char>| trim(t)) =~= seq![v]);
    }
}

} // verus!
