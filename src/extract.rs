//! Archive extraction: which container member goes where, how a member is
//! decompressed, and the package that an unpacked control tree describes.
use vstd::prelude::*;
use crate::config::Config;
use crate::control::{record_with_conffiles, DebPackage, Info, PkgKind};
use crate::errors::InstallError;
use crate::text::{chars_eq, chars_of, ends_with, ends_with_str, split, split_chars};

verus! {

/// What the decompression of a gzip stream gives: the bytes, or `None`
/// when the stream does not decode.
pub uninterp spec fn gunzip_of(data: Seq<u8>) -> Option<Seq<u8>>;

/// What the decompression of an xz stream gives: the bytes, or `None` when
/// the stream does not decode.
pub uninterp spec fn unxz_of(data: Seq<u8>) -> Option<Seq<u8>>;

/// The model of an optional byte vector.
pub open spec fn opt_bytes(o: Option<Vec<u8>>) -> Option<Seq<u8>> {
    match o {
        Some(v) => Some(v@),
        None => None,
    }
}

/// Relies on flate2::read::GzDecoder: the decompressed bytes of the gzip
/// stream `data`, or `None` when reading it fails.
#[verifier::external_body]
fn gunzip(data: &Vec<u8>) -> (r: Option<Vec<u8>>)
    ensures
        opt_bytes(r) == gunzip_of(data@),
{
    let mut out = Vec::new();
    let mut decoder = flate2::read::GzDecoder::new(data.as_slice());
    match std::io::Read::read_to_end(&mut decoder, &mut out) {
        Ok(_) => Some(out),
        Err(_) => None,
    }
}

/// Relies on xz2::read::XzDecoder: the decompressed bytes of the xz stream
/// `data`, or `None` when reading it fails.
#[verifier::external_body]
fn unxz(data: &Vec<u8>) -> (r: Option<Vec<u8>>)
    ensures
        opt_bytes(r) == unxz_of(data@),
{
    let mut out = Vec::new();
    let mut decoder = xz2::read::XzDecoder::new(data.as_slice());
    match std::io::Read::read_to_end(&mut decoder, &mut out) {
        Ok(_) => Some(out),
        Err(_) => None,
    }
}

/// Decompresses `data` by the suffix of `filename`: `.gz` with gzip, `.xz`
/// with xz. `None` for another suffix or a stream that fails to decompress.
pub fn unpack(filename: &str, data: &Vec<u8>) -> (r: Option<Vec<u8>>)
    ensures
        ends_with(filename@, ".gz"@) ==> opt_bytes(r) == gunzip_of(data@),
        ends_with(filename@, ".xz"@) ==> opt_bytes(r) == unxz_of(data@),
        !ends_with(filename@, ".gz"@) && !ends_with(filename@, ".xz"@) ==> r is None,
{
    proof {
        lemma_gz_xz_exclusive(filename@);
    }
    if ends_with_str(filename, ".gz") {
        gunzip(data)
    } else if ends_with_str(filename, ".xz") {
        unxz(data)
    } else {
        None
    }
}

/// Where a member of a package container goes.
#[derive(Debug, Clone, Copy, PartialEq, Eq, Structural)]
pub enum MemberTarget {
    /// Untarred into the info directory.
    Control,
    /// Untarred into the staging directory.
    Data,
    /// Written out and discarded.
    Discard,
}

/// The destination of a container member, by exact name.
pub open spec fn member_target_of(name: Seq<char>) -> MemberTarget {
    if name == "control.tar.gz"@ || name == "control.tar.xz"@ {
        MemberTarget::Control
    } else if name == "data.tar.gz"@ || name == "data.tar.xz"@ {
        MemberTarget::Data
    } else {
        MemberTarget::Discard
    }
}

/// The destination of the container member called `name`.
pub fn member_target(name: &str) -> (r: MemberTarget)
    ensures
        r == member_target_of(name@),
{
    let n = chars_of(name);
    if chars_eq(&n, &chars_of("control.tar.gz")) || chars_eq(&n, &chars_of("control.tar.xz")) {
        MemberTarget::Control
    } else if chars_eq(&n, &chars_of("data.tar.gz")) || chars_eq(&n, &chars_of("data.tar.xz")) {
        MemberTarget::Data
    } else {
        MemberTarget::Discard
    }
}

/// The tar stream of a container member that is unpacked: its decompressed
/// bytes. `None` for a member that is discarded or fails to decompress;
/// such a member is skipped without stopping the others.
pub fn member_tar(name: &str, data: &Vec<u8>) -> (r: Option<Vec<u8>>)
    ensures
        member_target_of(name@) == MemberTarget::Discard ==> r is None,
        member_target_of(name@) != MemberTarget::Discard && ends_with(name@, ".gz"@) ==> opt_bytes(r)
            == gunzip_of(data@),
        member_target_of(name@) != MemberTarget::Discard && ends_with(name@, ".xz"@) ==> opt_bytes(r)
            == unxz_of(data@),
{
    match member_target(name) {
        MemberTarget::Discard => None,
        _ => unpack(name, data),
    }
}

/// No name ends with both `.gz` and `.xz`.
pub proof fn lemma_gz_xz_exclusive(n: Seq<char>)
    ensures
        !(ends_with(n, ".gz"@) && ends_with(n, ".xz"@)),
{
    reveal_strlit(".gz");
    reveal_strlit(".xz");
    if ends_with(n, ".gz"@) && ends_with(n, ".xz"@) {
        assert(n.skip(n.len() - 3)[1] == ".xz"@[1]);
        assert(n.skip(n.len() - 3)[1] == ".gz"@[1]);
    }
}

/// The last `/`-separated component of a path.
pub open spec fn base_name(path: Seq<char>) -> Seq<char> {
    split(path, '/').last()
}

/// The last of `paths` whose base name is `name`.
pub open spec fn last_named(paths: Seq<Seq<char>>, name: Seq<char>) -> Option<Seq<char>>
    decreases paths.len(),
{
    if paths.len() == 0 {
        None
    } else if base_name(paths.last()) == name {
        Some(paths.last())
    } else {
        last_named(paths.drop_last(), name)
    }
}

/// The model of an optional string.
pub open spec fn opt_string_view(o: Option<String>) -> Option<Seq<char>> {
    match o {
        Some(s) => Some(s@),
        None => None,
    }
}

/// The seven recognised files of a control tree, found among `paths`.
pub open spec fn info_of(paths: Seq<Seq<char>>, info: Info) -> bool {
    &&& opt_string_view(info.conffiles) == last_named(paths, "conffiles"@)
    &&& opt_string_view(info.control) == last_named(paths, "control"@)
    &&& opt_string_view(info.md5sums) == last_named(paths, "md5sums"@)
    &&& opt_string_view(info.preinst) == last_named(paths, "preinst"@)
    &&& opt_string_view(info.postinst) == last_named(paths, "postinst"@)
    &&& opt_string_view(info.prerm) == last_named(paths, "prerm"@)
    &&& opt_string_view(info.postrm) == last_named(paths, "postrm"@)
}

/// The strings as character sequences.
pub open spec fn paths_view(paths: Seq<String>) -> Seq<Seq<char>> {
    paths.map_values(|p: String| p@)
}

fn set_if_named(slot: &mut Option<String>, base: &Vec<char>, name: &str, path: &String)
    ensures
        base@ == name@ ==> opt_string_view(*final(slot)) == Some(path@),
        base@ != name@ ==> *final(slot) == *old(slot),
{
    if chars_eq(base, &chars_of(name)) {
        *slot = Some(path.clone());
    }
}

impl Info {
    /// The recognised files among the entries of an unpacked control tree,
    /// given as paths; a later path with the same base name wins.
    pub fn load(paths: &Vec<String>) -> (r: Info)
        ensures
            info_of(paths_view(paths@), r),
    {
        let mut result = Info {
            conffiles: None,
            control: None,
            md5sums: None,
            preinst: None,
            postinst: None,
            prerm: None,
            postrm: None,
        };
        let ghost all = paths_view(paths@);
        let mut i: usize = 0;
        while i < paths.len()
            invariant
                i <= paths@.len(),
                all == paths_view(paths@),
                info_of(all.take(i as int), result),
            decreases paths@.len() - i,
        {
            let ghost t = all.take(i + 1);
            assert(t.drop_last() =~= all.take(i as int));
            assert(t.last() == paths@[i as int]@);
            let parts = split_chars(&chars_of(paths[i].as_str()), '/');
            proof {
                crate::text::lemma_split_nonempty(paths@[i as int]@, '/');
            }
            let base = &parts[parts.len() - 1];
            assert(base@ == base_name(paths@[i as int]@));
            set_if_named(&mut result.conffiles, base, "conffiles", &paths[i]);
            set_if_named(&mut result.control, base, "control", &paths[i]);
            set_if_named(&mut result.md5sums, base, "md5sums", &paths[i]);
            set_if_named(&mut result.preinst, base, "preinst", &paths[i]);
            set_if_named(&mut result.postinst, base, "postinst", &paths[i]);
            set_if_named(&mut result.prerm, base, "prerm", &paths[i]);
            set_if_named(&mut result.postrm, base, "postrm", &paths[i]);
            i = i + 1;
        }
        assert(all.take(paths@.len() as int) =~= all);
        result
    }
}

/// An extracted package: its record and the files of its control tree.
#[derive(Debug, Clone, PartialEq, Eq)]
pub struct Package(pub DebPackage, pub Info);

impl Package {
    /// Whether the package declares that it breaks others; install must
    /// then stop before any maintainer script runs.
    pub fn declares_breaks(&self) -> (r: bool)
        ensures
            r == (self.0.control@.breaks is Some),
    {
        self.0.control.breaks.is_some()
    }
}

/// The package of an unpacked archive, from its control tree: `info` as
/// `Info::load` found it, `control` and `conffiles` the texts of those files.
/// A package that declares `Breaks` is returned too, for the caller to stop
/// on (see `Package::declares_breaks`).
pub fn extract(
    config: &Config,
    info: &Info,
    control: &str,
    conffiles: &str,
) -> (r: Result<Package, InstallError>)
    ensures
        info.control is None ==> (r matches Err(InstallError::MissingField(e)) && e@ == "control"@),
        info.control is Some ==> match record_with_conffiles(
            control@,
            if info.conffiles is Some { Some(conffiles@) } else { None },
        ) {
            Ok(m) => r matches Ok(p) && p.0.control@ == m && p.0.kind == PkgKind::Binary && p.1 == *info,
            Err(n) => r matches Err(InstallError::MissingField(e)) && e@ == n,
        },
{
    match DebPackage::new(config, info, control, conffiles, PkgKind::Binary) {
        Ok(pkg) => Ok(Package(pkg, info.clone_info())),
        Err(e) => Err(e),
    }
}

impl Info {
    /// A copy of the locations.
    pub fn clone_info(&self) -> (r: Info)
        ensures
            r == *self,
    {
        Info {
            conffiles: clone_opt(&self.conffiles),
            control: clone_opt(&self.control),
            md5sums: clone_opt(&self.md5sums),
            preinst: clone_opt(&self.preinst),
            postinst: clone_opt(&self.postinst),
            prerm: clone_opt(&self.prerm),
            postrm: clone_opt(&self.postrm),
        }
    }
}

fn clone_opt(o: &Option<String>) -> (r: Option<String>)
    ensures
        r == *o,
{
    match o {
        Some(s) => Some(s.clone()),
        None => None,
    }
}

} // verus!
