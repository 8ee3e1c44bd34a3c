use vstd::prelude::*;

use crate::text::concat;

verus! {

/// The branch an archive is fetched from: `main` first, `master` on retry.
#[derive(Clone, Copy, Debug, PartialEq, Eq, Structural)]
pub enum Branch {
    Main,
    Master,
}

/// One repository to fetch, and the directory its archive goes to.
#[derive(Debug)]
pub struct FetchTarget {
    pub user: String,
    pub repo: String,
    pub dir: String,
}

/// Where the fetch of one repository stands.
#[derive(Debug)]
pub enum FetchState {
    /// Nothing done yet.
    Start,
    /// Waiting for the metadata probe of the archive on `branch`.
    Probing { branch: Branch },
    /// Waiting to learn whether the archive cached under its version tag exists.
    CheckingCache { branch: Branch, path: String },
    /// Waiting for the archive body; it is to be stored at `target`.
    Downloading { branch: Branch, target: String },
    /// Waiting to learn whether the un-tagged archive holds the same bytes.
    Comparing { branch: Branch, target: String },
    /// Waiting for the body to be stored at `target`.
    Writing { branch: Branch, target: String },
    /// Waiting out the pause before the retry on `master`.
    BackingOff,
    /// The archive is at `path`.
    Done { path: String },
    /// Both branches failed.
    Failed,
}

/// What happened since the last step.
#[derive(Debug)]
pub enum FetchEvent {
    /// The fetch is started.
    Begin,
    /// The probe returned the remote version tag, if any.
    Probed(Option<String>),
    /// Whether the cached archive exists.
    CacheChecked(bool),
    /// Whether the body was downloaded (a 2xx answer, fully read).
    Downloaded(bool),
    /// Whether the un-tagged archive exists and holds the downloaded bytes.
    Compared(bool),
    /// Whether the body was stored.
    Written(bool),
    /// The pause is over.
    Slept,
}

/// What to do next.
#[derive(Debug)]
pub enum FetchAction {
    /// Send a metadata probe for `url`.
    Probe { url: String },
    /// Check whether `path` exists.
    CheckExists { path: String },
    /// Download the body at `url`.
    Download { url: String },
    /// Compare the downloaded body with the file at `path`.
    CompareWith { path: String },
    /// Store the downloaded body at `path`.
    WriteTo { path: String },
    /// Pause for `seconds`.
    Sleep { seconds: u64 },
    /// The archive is at `path`; stop.
    Finish { path: String },
    /// Give the repository up; stop.
    Abandon,
}

/// The pause before the retry on `master`, in seconds.
pub const BACKOFF_SECONDS: u64 = 1;

/// The name of a branch.
pub open spec fn branch_name(b: Branch) -> Seq<char> {
    match b {
        Branch::Main => "main"@,
        Branch::Master => "master"@,
    }
}

/// The download address of a repository's archive on a branch.
pub open spec fn archive_url(user: Seq<char>, repo: Seq<char>, b: Branch) -> Seq<char> {
    "https://github.com/"@ + user + "/"@ + repo + "/archive/refs/heads/"@ + branch_name(b)
        + ".zip"@
}

/// The local path of an archive, `<dir>/<user>-<repo>[_<tag>].zip`.
pub open spec fn archive_path(t: FetchTarget, tag: Option<Seq<char>>) -> Seq<char> {
    let base = t.dir@ + "/"@ + t.user@ + "-"@ + t.repo@;
    match tag {
        Some(g) => base + "_"@ + g + ".zip"@,
        None => base + ".zip"@,
    }
}

fn branch_string(b: Branch) -> (r: String)
    ensures
        r@ == branch_name(b),
{
    match b {
        Branch::Main => "main".to_owned(),
        Branch::Master => "master".to_owned(),
    }
}

/// The download address of the target's archive on `b`.
pub fn url_for(t: &FetchTarget, b: Branch) -> (r: String)
    ensures
        r@ == archive_url(t.user@, t.repo@, b),
{
    let s1 = concat("https://github.com/", t.user.as_str());
    let s2 = concat(s1.as_str(), "/");
    let s3 = concat(s2.as_str(), t.repo.as_str());
    let s4 = concat(s3.as_str(), "/archive/refs/heads/");
    let name = branch_string(b);
    let s5 = concat(s4.as_str(), name.as_str());
    concat(s5.as_str(), ".zip")
}

/// The local path of the target's archive, tagged with `tag` if given.
pub fn path_for(t: &FetchTarget, tag: Option<&String>) -> (r: String)
    ensures
        r@ == archive_path(*t, match tag {
            Some(g) => Some(g@),
            None => None,
        }),
{
    let s1 = concat(t.dir.as_str(), "/");
    let s2 = concat(s1.as_str(), t.user.as_str());
    let s3 = concat(s2.as_str(), "-");
    let base = concat(s3.as_str(), t.repo.as_str());
    match tag {
        Some(g) => {
            let s5 = concat(base.as_str(), "_");
            let s6 = concat(s5.as_str(), g.as_str());
            concat(s6.as_str(), ".zip")
        },
        None => concat(base.as_str(), ".zip"),
    }
}

/// A failed attempt: retry on `master` after a pause, or give up.
pub open spec fn after_failure(b: Branch, s: FetchState, a: FetchAction) -> bool {
    match b {
        Branch::Main => s is BackingOff && a == (FetchAction::Sleep { seconds: BACKOFF_SECONDS }),
        Branch::Master => s is Failed && a is Abandon,
    }
}

fn fail(b: Branch) -> (r: (FetchState, FetchAction))
    ensures
        after_failure(b, r.0, r.1),
{
    match b {
        Branch::Main => (FetchState::BackingOff, FetchAction::Sleep { seconds: BACKOFF_SECONDS }),
        Branch::Master => (FetchState::Failed, FetchAction::Abandon),
    }
}

/// The transition of `fetch_step` from `state` on `event` to `r`.
pub open spec fn fetch_transition(
    t: FetchTarget,
    state: FetchState,
    event: FetchEvent,
    r: (FetchState, FetchAction),
) -> bool {
    match (state, event) {
        (FetchState::Start, FetchEvent::Begin) => {
            &&& r.0 == (FetchState::Probing { branch: Branch::Main })
            &&& r.1 matches FetchAction::Probe { url }
            &&& url@ == archive_url(t.user@, t.repo@, Branch::Main)
        },
        (FetchState::Probing { branch }, FetchEvent::Probed(Some(tag))) => {
            &&& r.0 matches FetchState::CheckingCache { branch: b, path: p }
            &&& b == branch && p@ == archive_path(t, Some(tag@))
            &&& r.1 matches FetchAction::CheckExists { path }
            &&& path@ == archive_path(t, Some(tag@))
        },
        (FetchState::Probing { branch }, FetchEvent::Probed(None)) => {
            &&& r.0 matches FetchState::Downloading { branch: b, target }
            &&& b == branch && target@ == archive_path(t, None)
            &&& r.1 matches FetchAction::Download { url }
            &&& url@ == archive_url(t.user@, t.repo@, branch)
        },
        (FetchState::CheckingCache { branch, path }, FetchEvent::CacheChecked(true)) => {
            &&& r.0 matches FetchState::Done { path: p }
            &&& p == path
            &&& r.1 matches FetchAction::Finish { path: q }
            &&& q == path
        },
        (FetchState::CheckingCache { branch, path }, FetchEvent::CacheChecked(false)) => {
            &&& r.0 matches FetchState::Downloading { branch: b, target }
            &&& b == branch && target == path
            &&& r.1 matches FetchAction::Download { url }
            &&& url@ == archive_url(t.user@, t.repo@, branch)
        },
        (FetchState::Downloading { branch, target }, FetchEvent::Downloaded(true)) => {
            &&& r.0 matches FetchState::Comparing { branch: b, target: g }
            &&& b == branch && g == target
            &&& r.1 matches FetchAction::CompareWith { path }
            &&& path@ == archive_path(t, None)
        },
        (FetchState::Downloading { branch, target }, FetchEvent::Downloaded(false)) => after_failure(
            branch,
            r.0,
            r.1,
        ),
        (FetchState::Comparing { branch, target }, FetchEvent::Compared(true)) => {
            &&& r.0 matches FetchState::Done { path: p }
            &&& p@ == archive_path(t, None)
            &&& r.1 matches FetchAction::Finish { path }
            &&& path@ == archive_path(t, None)
        },
        (FetchState::Comparing { branch, target }, FetchEvent::Compared(false)) => {
            &&& r.0 matches FetchState::Writing { branch: b, target: g }
            &&& b == branch && g == target
            &&& r.1 matches FetchAction::WriteTo { path }
            &&& path == target
        },
        (FetchState::Writing { branch, target }, FetchEvent::Written(true)) => {
            &&& r.0 matches FetchState::Done { path: p }
            &&& p == target
            &&& r.1 matches FetchAction::Finish { path }
            &&& path == target
        },
        (FetchState::Writing { branch, target }, FetchEvent::Written(false)) => after_failure(
            branch,
            r.0,
            r.1,
        ),
        (FetchState::BackingOff, FetchEvent::Slept) => {
            &&& r.0 == (FetchState::Probing { branch: Branch::Master })
            &&& r.1 matches FetchAction::Probe { url }
            &&& url@ == archive_url(t.user@, t.repo@, Branch::Master)
        },
        _ => r.0 is Failed && r.1 is Abandon,
    }
}

/// One decision of the fetch of a repository: from where it stands and what
/// happened, where it goes and what to do.
///
/// A probe that returns a tag leads to a check of the archive cached under
/// that tag, and a present cached archive ends the fetch without a download;
/// a downloaded body is stored under that same tagged path, so a second
/// fetch that sees the same tag downloads nothing. Without a tag the body
/// goes to the un-tagged path. A body equal to the un-tagged archive already
/// on disk is not stored again. A failure on `main` leads to a pause of one
/// second and a new attempt on `master`; a failure there gives the
/// repository up. An event that does not fit the state gives it up too.
pub fn fetch_step(t: &FetchTarget, state: FetchState, event: FetchEvent) -> (r: (
    FetchState,
    FetchAction,
))
    ensures
        fetch_transition(*t, state, event, r),
{
    match (state, event) {
        (FetchState::Start, FetchEvent::Begin) => (
            FetchState::Probing { branch: Branch::Main },
            FetchAction::Probe { url: url_for(t, Branch::Main) },
        ),
        (FetchState::Probing { branch }, FetchEvent::Probed(Some(tag))) => {
            let path = path_for(t, Some(&tag));
            let check = path.clone();
            (FetchState::CheckingCache { branch, path }, FetchAction::CheckExists { path: check })
        },
        (FetchState::Probing { branch }, FetchEvent::Probed(None)) => (
            FetchState::Downloading { branch, target: path_for(t, None) },
            FetchAction::Download { url: url_for(t, branch) },
        ),
        (FetchState::CheckingCache { branch, path }, FetchEvent::CacheChecked(exists)) => {
            if exists {
                let done = path.clone();
                (FetchState::Done { path: done }, FetchAction::Finish { path })
            } else {
                (
                    FetchState::Downloading { branch, target: path },
                    FetchAction::Download { url: url_for(t, branch) },
                )
            }
        },
        (FetchState::Downloading { branch, target }, FetchEvent::Downloaded(ok)) => {
            if ok {
                (
                    FetchState::Comparing { branch, target },
                    FetchAction::CompareWith { path: path_for(t, None) },
                )
            } else {
                fail(branch)
            }
        },
        (FetchState::Comparing { branch, target }, FetchEvent::Compared(same)) => {
            if same {
                let path = path_for(t, None);
                let done = path.clone();
                (FetchState::Done { path: done }, FetchAction::Finish { path })
            } else {
                let write = target.clone();
                (FetchState::Writing { branch, target }, FetchAction::WriteTo { path: write })
            }
        },
        (FetchState::Writing { branch, target }, FetchEvent::Written(ok)) => {
            if ok {
                let done = target.clone();
                (FetchState::Done { path: done }, FetchAction::Finish { path: target })
            } else {
                fail(branch)
            }
        },
        (FetchState::BackingOff, FetchEvent::Slept) => (
            FetchState::Probing { branch: Branch::Master },
            FetchAction::Probe { url: url_for(t, Branch::Master) },
        ),
        _ => (FetchState::Failed, FetchAction::Abandon),
    }
}

/// A fetch that saw version tag `g` and downloaded stores the body at the
/// tagged path; a later fetch that sees the same tag checks that very path,
/// and when it is there finishes at it without a download.
pub proof fn lemma_same_tag_fetches_once(
    t: FetchTarget,
    g: String,
    b1: Branch,
    first: Seq<(FetchState, FetchAction)>,
    b2: Branch,
    second: Seq<(FetchState, FetchAction)>,
)
    requires
        first.len() == 4,
        fetch_transition(t, FetchState::Probing { branch: b1 }, FetchEvent::Probed(Some(g)), first[0]),
        fetch_transition(t, first[0].0, FetchEvent::CacheChecked(false), first[1]),
        fetch_transition(t, first[1].0, FetchEvent::Downloaded(true), first[2]),
        fetch_transition(t, first[2].0, FetchEvent::Compared(false), first[3]),
        second.len() == 2,
        fetch_transition(t, FetchState::Probing { branch: b2 }, FetchEvent::Probed(Some(g)), second[0]),
        fetch_transition(t, second[0].0, FetchEvent::CacheChecked(true), second[1]),
    ensures
        first[3].1 matches FetchAction::WriteTo { path } && path@ == archive_path(t, Some(g@)),
        second[0].1 matches FetchAction::CheckExists { path } && path@ == archive_path(t, Some(g@)),
        second[1].1 matches FetchAction::Finish { path } && path@ == archive_path(t, Some(g@)),
        !(second[0].1 is Download) && !(second[1].1 is Download),
{
}

/// The archives obtained, in order; fails when no repository gave one.
pub fn collect_downloads(results: Vec<Option<String>>) -> (r: Result<Vec<String>, String>)
    ensures
        match r {
            Ok(v) => v@.len() > 0 && v@ == results@.filter(|o: Option<String>| o is Some).map_values(
                |o: Option<String>| o->0,
            ),
            Err(_) => forall|i: int| 0 <= i < results@.len() ==> #[trigger] results@[i] is None,
        },
{
    let mut files: Vec<String> = Vec::new();
    let mut i: usize = 0;
    let ghost all = results@;
    while i < results.len()
        invariant
            i <= results@.len(),
            results@ == all,
            files@ == all.subrange(0, i as int).filter(|o: Option<String>| o is Some).map_values(
                |o: Option<String>| o->0,
            ),
            files@.len() == 0 ==> forall|j: int| 0 <= j < i ==> #[trigger] all[j] is None,
        decreases results@.len() - i,
    {
        proof {
            let s = all.subrange(0, i + 1);
            assert(s.drop_last() =~= all.subrange(0, i as int));
            reveal(Seq::filter);
        }
        match &results[i] {
            Some(p) => {
                files.push(p.clone());
            },
            None => {},
        }
        proof {
            let f = all.subrange(0, i + 1).filter(|o: Option<String>| o is Some);
            let g = all.subrange(0, i as int).filter(|o: Option<String>| o is Some);
            if all[i as int] is Some {
                assert(f =~= g.push(all[i as int]));
            } else {
                assert(f =~= g);
            }
            assert(files@ =~= f.map_values(|o: Option<String>| o->0));
        }
        i = i + 1;
    }
    assert(all.subrange(0, i as int) =~= all);
    if files.len() == 0 {
        Err("No repo was downloaded".to_owned())
    } else {
        Ok(files)
    }
}

} // verus!
