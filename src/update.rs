//! Repository sync: the jobs that a source list declares, the names and
//! URLs each job uses, and the decisions of one job's fetch sequence.
//!
//! The fetches themselves, and the concurrency between jobs, belong to the
//! caller: it performs the action that `sync_action` names, hands the result
//! to `sync_event`, and stores what that returns. Each job's destination
//! files depend on the job alone, so jobs never write the same file.
//!
//! The release signature is only checked for presence, not verified: a job
//! without one ends as `Unsigned`, apart from the other jobs, and the caller
//! reports it loudly.
use vstd::prelude::*;
use vstd::string::*;
use crate::config::{Arch, Config};
use crate::errors::InstallError;
use crate::extract::{gunzip_of, unpack, unxz_of};
use crate::text::{chars_of, matches_at, occurs_at, push_char, strings_view};

verus! {

/// A repository source: its URL, distribution and components.
#[derive(Debug, Clone, PartialEq, Eq)]
pub struct DebianSource {
    pub url: String,
    pub distribution: String,
    pub components: Vec<String>,
}

/// One (repository, distribution, component) triple to refresh, with the
/// architecture directory to fetch.
#[derive(Debug, Clone, PartialEq, Eq)]
pub struct SyncJob {
    pub url: String,
    pub dist: String,
    pub component: String,
    pub arch: String,
}

/// The architecture directory of the configured target architecture.
pub fn os_arch(config: &Config) -> (r: Result<&'static str, InstallError>)
    ensures
        config.arch == Arch::Amd64 ==> (r matches Ok(s) && s@ == "binary-amd64"@),
        config.arch == Arch::I386 ==> (r matches Ok(s) && s@ == "binary-i386"@),
        config.arch == Arch::Other ==> r matches Err(InstallError::ConfigError(_)),
{
    match config.arch {
        Arch::Amd64 => Ok("binary-amd64"),
        Arch::I386 => Ok("binary-i386"),
        Arch::Other => Err(InstallError::ConfigError("Unknown architecture".to_owned())),
    }
}

/// The jobs of `sources`: one per component, source after source.
pub open spec fn jobs_of(sources: Seq<DebianSource>, arch: Seq<char>) -> Seq<(Seq<char>, Seq<char>, Seq<char>, Seq<char>)>
    decreases sources.len(),
{
    if sources.len() == 0 {
        Seq::empty()
    } else {
        let s = sources.last();
        jobs_of(sources.drop_last(), arch) + strings_view(s.components@).map_values(
            |c: Seq<char>| (s.url@, s.distribution@, c, arch),
        )
    }
}

/// The model of a job.
pub open spec fn job_view(j: SyncJob) -> (Seq<char>, Seq<char>, Seq<char>, Seq<char>) {
    (j.url@, j.dist@, j.component@, j.arch@)
}

/// Every job that `sources` declare, for the configured architecture.
pub fn sync_jobs(config: &Config, sources: &Vec<DebianSource>) -> (r: Result<Vec<SyncJob>, InstallError>)
    ensures
        config.arch == Arch::Other ==> r is Err,
        config.arch != Arch::Other ==> (r matches Ok(v) && v@.map_values(|j: SyncJob| job_view(j))
            == jobs_of(sources@, if config.arch == Arch::Amd64 { "binary-amd64"@ } else { "binary-i386"@ })),
{
    let arch = match os_arch(config) {
        Ok(a) => a,
        Err(e) => return Err(e),
    };
    let ghost av = arch@;
    let mut out: Vec<SyncJob> = Vec::new();
    let mut i: usize = 0;
    while i < sources.len()
        invariant
            i <= sources@.len(),
            arch@ == av,
            out@.map_values(|j: SyncJob| job_view(j)) == jobs_of(sources@.take(i as int), av),
        decreases sources@.len() - i,
    {
        let ghost t = sources@.take(i + 1);
        assert(t.drop_last() =~= sources@.take(i as int));
        let src = &sources[i];
        let ghost start = out@.map_values(|j: SyncJob| job_view(j));
        let ghost comps = strings_view(src.components@);
        let mut k: usize = 0;
        while k < src.components.len()
            invariant
                k <= src.components@.len(),
                arch@ == av,
                comps == strings_view(src.components@),
                out@.map_values(|j: SyncJob| job_view(j)) == start + comps.take(k as int).map_values(
                    |c: Seq<char>| (src.url@, src.distribution@, c, av),
                ),
            decreases src.components@.len() - k,
        {
            let job = SyncJob {
                url: src.url.clone(),
                dist: src.distribution.clone(),
                component: src.components[k].clone(),
                arch: arch.to_owned(),
            };
            let ghost before = out@;
            let ghost jv = job_view(job);
            out.push(job);
            assert(out@.map_values(|j: SyncJob| job_view(j)) =~= before.map_values(|j: SyncJob| job_view(j)).push(jv));
            assert(comps.take(k + 1) =~= comps.take(k as int).push(comps[k as int]));
            assert(out@.map_values(|j: SyncJob| job_view(j)) =~= start + comps.take(k + 1).map_values(
                |c: Seq<char>| (src.url@, src.distribution@, c, av),
            ));
            k = k + 1;
        }
        assert(comps.take(src.components@.len() as int) =~= comps);
        assert(t.last() == *src);
        i = i + 1;
    }
    assert(sources@.take(sources@.len() as int) =~= sources@);
    Ok(out)
}

/// The URL without its `http://` or `https://` scheme.
pub open spec fn strip_scheme(url: Seq<char>) -> Seq<char> {
    if occurs_at(url, "http://"@, 0) {
        url.skip(7)
    } else if occurs_at(url, "https://"@, 0) {
        url.skip(8)
    } else {
        url
    }
}

/// The URL without scheme, each `/` turned into `_`.
pub open spec fn flat_url(url: Seq<char>) -> Seq<char> {
    strip_scheme(url).map_values(|c: char| if c == '/' { '_' } else { c })
}

/// The flattened file name of a job's package index.
pub open spec fn index_name(j: SyncJob) -> Seq<char> {
    flat_url(j.url@) + "dists_"@ + j.dist@ + "_"@ + j.component@ + "_"@ + j.arch@ + "_Packages"@
}

/// The flattened file name of a job's release manifest.
pub open spec fn release_name(j: SyncJob) -> Seq<char> {
    flat_url(j.url@) + "dists_"@ + j.dist@ + "_"@ + j.component@ + "_"@ + j.arch@ + "_InRelease"@
}

/// The URL of a job's detached release signature.
pub open spec fn signature_url(j: SyncJob) -> Seq<char> {
    j.url@ + "dists/"@ + j.dist@ + "/Release.gpg"@
}

/// The URL of a job's release manifest.
pub open spec fn in_release_url(j: SyncJob) -> Seq<char> {
    j.url@ + "dists/"@ + j.dist@ + "/InRelease"@
}

/// The URL of a job's package index with the compression suffix `ext`.
pub open spec fn packages_url(j: SyncJob, ext: Seq<char>) -> Seq<char> {
    j.url@ + "dists/"@ + j.dist@ + "/"@ + j.component@ + "/"@ + j.arch@ + "/Packages"@ + ext
}

/// The flattened form of a repository URL.
pub fn flatten_url(url: &str) -> (r: String)
    ensures
        r@ == flat_url(url@),
{
    let v = chars_of(url);
    let start: usize = if matches_at(&v, &chars_of("http://"), 0) {
        proof {
            reveal_strlit("http://");
        }
        7
    } else if matches_at(&v, &chars_of("https://"), 0) {
        proof {
            reveal_strlit("https://");
        }
        8
    } else {
        0
    };
    let ghost want = flat_url(url@);
    assert(strip_scheme(url@) =~= v@.skip(start as int));
    let mut out = String::new();
    let mut i: usize = start;
    while i < v.len()
        invariant
            start <= i <= v@.len(),
            want == v@.skip(start as int).map_values(|c: char| if c == '/' { '_' } else { c }),
            out@ == want.take(i - start),
        decreases v@.len() - i,
    {
        let c = v[i];
        push_char(&mut out, if c == '/' { '_' } else { c });
        assert(out@ =~= want.take(i + 1 - start));
        i = i + 1;
    }
    assert(want.take(v@.len() - start) =~= want);
    out
}

fn flat_prefix(j: &SyncJob) -> (r: String)
    ensures
        r@ == flat_url(j.url@) + "dists_"@ + j.dist@ + "_"@ + j.component@ + "_"@ + j.arch@,
{
    let mut s = flatten_url(j.url.as_str());
    s.append("dists_");
    s.append(j.dist.as_str());
    s.append("_");
    s.append(j.component.as_str());
    s.append("_");
    s.append(j.arch.as_str());
    s
}

/// The flattened file name of a job's package index.
pub fn index_file_name(j: &SyncJob) -> (r: String)
    ensures
        r@ == index_name(*j),
{
    let mut s = flat_prefix(j);
    s.append("_Packages");
    s
}

/// The flattened file name of a job's release manifest.
pub fn release_file_name(j: &SyncJob) -> (r: String)
    ensures
        r@ == release_name(*j),
{
    let mut s = flat_prefix(j);
    s.append("_InRelease");
    s
}

fn dists_url(j: &SyncJob) -> (r: String)
    ensures
        r@ == j.url@ + "dists/"@ + j.dist@,
{
    let mut s = j.url.clone();
    s.append("dists/");
    s.append(j.dist.as_str());
    s
}

/// `dir/name`.
pub fn path_in(dir: &String, name: &String) -> (r: String)
    ensures
        r@ == dir@ + "/"@ + name@,
{
    let mut s = dir.clone();
    s.append("/");
    s.append(name.as_str());
    s
}

/// Where one job stands in its fetch sequence.
#[derive(Debug, Clone, Copy, PartialEq, Eq, Structural)]
pub enum SyncStep {
    /// Confirm that the detached release signature exists.
    CheckSignature,
    /// Fetch the release manifest.
    FetchRelease,
    /// Fetch the xz-compressed package index.
    FetchIndexXz,
    /// Fetch the gzip-compressed package index.
    FetchIndexGz,
    /// Both artifacts are stored.
    Done,
    /// The release signature is missing; nothing was stored.
    Unsigned,
    /// A fetch or a decompression failed.
    Failed,
}

/// The step is one a job ends in.
pub open spec fn is_final(s: SyncStep) -> bool {
    s == SyncStep::Done || s == SyncStep::Unsigned || s == SyncStep::Failed
}

/// What the caller does next for a job.
#[derive(Debug, Clone, PartialEq, Eq)]
pub enum SyncAction {
    /// Fetch this URL and report the outcome.
    Fetch(String),
    /// The job is over.
    Finish,
}

/// The outcome of a fetch.
#[derive(Debug, Clone, PartialEq, Eq)]
pub enum SyncEvent {
    Fetched(Vec<u8>),
    FetchFailed,
}

/// A file to write: its path and bytes.
#[derive(Debug, Clone, PartialEq, Eq)]
pub struct SyncStore {
    pub path: String,
    pub data: Vec<u8>,
}

/// The action of a job at a step.
pub fn sync_action(j: &SyncJob, step: SyncStep) -> (r: SyncAction)
    ensures
        step == SyncStep::CheckSignature ==> (r matches SyncAction::Fetch(u) && u@ == signature_url(*j)),
        step == SyncStep::FetchRelease ==> (r matches SyncAction::Fetch(u) && u@ == in_release_url(*j)),
        step == SyncStep::FetchIndexXz ==> (r matches SyncAction::Fetch(u) && u@ == packages_url(*j, ".xz"@)),
        step == SyncStep::FetchIndexGz ==> (r matches SyncAction::Fetch(u) && u@ == packages_url(*j, ".gz"@)),
        is_final(step) ==> r == SyncAction::Finish,
{
    match step {
        SyncStep::CheckSignature => {
            let mut u = dists_url(j);
            u.append("/Release.gpg");
            SyncAction::Fetch(u)
        },
        SyncStep::FetchRelease => {
            let mut u = dists_url(j);
            u.append("/InRelease");
            SyncAction::Fetch(u)
        },
        SyncStep::FetchIndexXz | SyncStep::FetchIndexGz => {
            let mut u = dists_url(j);
            u.append("/");
            u.append(j.component.as_str());
            u.append("/");
            u.append(j.arch.as_str());
            u.append("/Packages");
            if step == SyncStep::FetchIndexXz {
                u.append(".xz");
            } else {
                u.append(".gz");
            }
            SyncAction::Fetch(u)
        },
        _ => SyncAction::Finish,
    }
}

/// The next step of a job and the file to store, after the outcome of the
/// fetch that its step asked for. A missing signature ends the job as
/// `Unsigned`; a failed xz index falls back to the gzip one.
pub fn sync_event(config: &Config, j: &SyncJob, step: SyncStep, event: SyncEvent) -> (r: (SyncStep, Option<SyncStore>))
    ensures
        is_final(step) ==> r == (step, Option::<SyncStore>::None),
        step == SyncStep::CheckSignature ==> r.1 is None && r.0 == (if event is Fetched {
            SyncStep::FetchRelease
        } else {
            SyncStep::Unsigned
        }),
        step == SyncStep::FetchRelease ==> match event {
            SyncEvent::Fetched(b) => r.0 == SyncStep::FetchIndexXz && (r.1 matches Some(s)
                && s.path@ == config.rls@ + "/"@ + release_name(*j) && s.data@ == b@),
            SyncEvent::FetchFailed => r.0 == SyncStep::Failed && r.1 is None,
        },
        step == SyncStep::FetchIndexXz ==> match event {
            SyncEvent::Fetched(b) => match unxz_of(b@) {
                Some(d) => r.0 == SyncStep::Done && (r.1 matches Some(s) && s.path@ == config.cache@
                    + "/"@ + index_name(*j) && s.data@ == d),
                None => r.0 == SyncStep::FetchIndexGz && r.1 is None,
            },
            SyncEvent::FetchFailed => r.0 == SyncStep::FetchIndexGz && r.1 is None,
        },
        step == SyncStep::FetchIndexGz ==> match event {
            SyncEvent::Fetched(b) => match gunzip_of(b@) {
                Some(d) => r.0 == SyncStep::Done && (r.1 matches Some(s) && s.path@ == config.cache@
                    + "/"@ + index_name(*j) && s.data@ == d),
                None => r.0 == SyncStep::Failed && r.1 is None,
            },
            SyncEvent::FetchFailed => r.0 == SyncStep::Failed && r.1 is None,
        },
{
    match step {
        SyncStep::CheckSignature => match event {
            SyncEvent::Fetched(_) => (SyncStep::FetchRelease, None),
            SyncEvent::FetchFailed => (SyncStep::Unsigned, None),
        },
        SyncStep::FetchRelease => match event {
            SyncEvent::Fetched(b) => {
                let path = path_in(&config.rls, &release_file_name(j));
                (SyncStep::FetchIndexXz, Some(SyncStore { path, data: b }))
            },
            SyncEvent::FetchFailed => (SyncStep::Failed, None),
        },
        SyncStep::FetchIndexXz | SyncStep::FetchIndexGz => match event {
            SyncEvent::Fetched(b) => {
                let fallback = if step == SyncStep::FetchIndexXz {
                    SyncStep::FetchIndexGz
                } else {
                    SyncStep::Failed
                };
                let suffix = if step == SyncStep::FetchIndexXz { "Packages.xz" } else { "Packages.gz" };
                proof {
                    reveal_strlit("Packages.xz");
                    reveal_strlit("Packages.gz");
                    reveal_strlit(".xz");
                    reveal_strlit(".gz");
                    assert("Packages.xz"@.skip(8) =~= ".xz"@);
                    assert("Packages.gz"@.skip(8) =~= ".gz"@);
                    assert("Packages.xz"@.skip(8) != ".gz"@) by {
                        assert("Packages.xz"@.skip(8)[1] != ".gz"@[1]);
                    }
                }
                match unpack(suffix, &b) {
                    Some(data) => {
                        let path = path_in(&config.cache, &index_file_name(j));
                        (SyncStep::Done, Some(SyncStore { path, data }))
                    },
                    None => (fallback, None),
                }
            },
            SyncEvent::FetchFailed => if step == SyncStep::FetchIndexXz {
                (SyncStep::FetchIndexGz, None)
            } else {
                (SyncStep::Failed, None)
            },
        },
        _ => (step, None),
    }
}

/// How a job is named in a sync report.
pub open spec fn job_label(j: SyncJob) -> Seq<char> {
    " "@ + j.url@ + "dists/"@ + j.dist@ + "/"@ + j.component@
}

/// The labels of the first `n` jobs that did not end `Done`, in order.
pub open spec fn failed_labels(jobs: Seq<SyncJob>, steps: Seq<SyncStep>, n: nat) -> Seq<char>
    decreases n,
{
    if n == 0 {
        Seq::empty()
    } else {
        failed_labels(jobs, steps, (n - 1) as nat) + if steps[n - 1] != SyncStep::Done {
            job_label(jobs[n - 1])
        } else {
            Seq::empty()
        }
    }
}

/// The result of a whole sync, from the final step of every job: an error
/// naming each job that did not finish, when there are any. A failed job
/// does not stop the others.
pub fn update_result(jobs: &Vec<SyncJob>, steps: &Vec<SyncStep>) -> (r: Result<(), InstallError>)
    requires
        jobs@.len() == steps@.len(),
    ensures
        r is Ok <==> (forall|i: int| 0 <= i < steps@.len() ==> steps@[i] == SyncStep::Done),
        r is Err ==> (r matches Err(InstallError::NetworkingError(m)) && m@ == "Could not refresh:"@
            + failed_labels(jobs@, steps@, steps@.len() as nat)),
{
    let mut msg = "Could not refresh:".to_owned();
    let mut all_done = true;
    let mut i: usize = 0;
    while i < steps.len()
        invariant
            i <= steps@.len(),
            jobs@.len() == steps@.len(),
            all_done <==> (forall|k: int| 0 <= k < i ==> steps@[k] == SyncStep::Done),
            msg@ == "Could not refresh:"@ + failed_labels(jobs@, steps@, i as nat),
        decreases steps@.len() - i,
    {
        let ghost before = msg@;
        if steps[i] != SyncStep::Done {
            all_done = false;
            msg.append(" ");
            msg.append(jobs[i].url.as_str());
            msg.append("dists/");
            msg.append(jobs[i].dist.as_str());
            msg.append("/");
            msg.append(jobs[i].component.as_str());
            assert(msg@ =~= before + job_label(jobs@[i as int]));
        } else {
            assert(msg@ =~= before + Seq::<char>::empty());
        }
        assert(msg@ =~= "Could not refresh:"@ + failed_labels(jobs@, steps@, (i + 1) as nat));
        i = i + 1;
    }
    if all_done {
        Ok(())
    } else {
        Err(InstallError::NetworkingError(msg))
    }
}

} // verus!
