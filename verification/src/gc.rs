//! The doctor's report, the plan of the garbage collector and its execution.

use vstd::prelude::*;
use vstd::string::*;

use crate::connection::{located, optional_path, path_outcome};
use crate::daemon::{browsers_dir, tmp_dir};
use crate::doctor::{
    age_in_days, age_view, at_least, contained, days_between, is_at_least, is_contained,
    law_age_is_in_whole_days, law_old_enough_is_by_the_clock, DirWalk, DoctorOptions, Timestamp, DEFAULT_MIN_AGE_DAYS,
    DEFAULT_STALE_DAYS,
};
use crate::exit_code::{IoError, IoModel};
use crate::paths::{
    bytes_of, is_plain_name, joined_path, law_name_and_parent_undo_join, lossy_text, parent_path,
    path_name, stripped, text_from_bytes, FilePath,
};
use crate::text::same_text;

verus! {

// ---------------------------------------------------------------------------
// The report
// ---------------------------------------------------------------------------

/// The disk usage of one directory.
#[derive(Debug)]
pub struct DirReport {
    pub label: &'static str,
    pub path: FilePath,
    pub exists: bool,
    pub total_bytes: u64,
    pub file_count: u64,
}

/// The disk usage of one directory.
pub struct DirModel {
    pub label: Seq<char>,
    pub path: Seq<u8>,
    pub exists: bool,
    pub total_bytes: u64,
    pub file_count: u64,
}

impl View for DirReport {
    type V = DirModel;

    open spec fn view(&self) -> DirModel {
        DirModel {
            label: self.label@,
            path: self.path@,
            exists: self.exists,
            total_bytes: self.total_bytes,
            file_count: self.file_count,
        }
    }
}

/// The disk usage that a walk found, if the directory is there.
pub open spec fn dir_model(label: Seq<char>, path: Seq<u8>, walk: Option<DirWalk>) -> DirModel {
    match walk {
        Some(walk) => DirModel {
            label,
            path,
            exists: true,
            total_bytes: walk.total_bytes,
            file_count: walk.file_count,
        },
        None => DirModel { label, path, exists: false, total_bytes: 0, file_count: 0 },
    }
}

/// Reports a directory; `walk` is what a walk through it found, if it is one.
pub fn dir_report(label: &'static str, path: FilePath, walk: Option<DirWalk>) -> (report: DirReport)
    ensures
        report@ == dir_model(label@, path@, walk),
{
    match walk {
        Some(walk) => DirReport {
            label,
            path,
            exists: true,
            total_bytes: walk.total_bytes,
            file_count: walk.file_count,
        },
        None => DirReport { label, path, exists: false, total_bytes: 0, file_count: 0 },
    }
}

/// One named browser profile.
#[derive(Debug)]
pub struct BrowserProfileReport {
    pub name: String,
    pub path: FilePath,
    pub total_bytes: u64,
    pub file_count: u64,
    pub age_days: Option<u64>,
    pub stale: bool,
}

/// One named browser profile.
pub struct ProfileModel {
    pub name: Seq<char>,
    pub path: Seq<u8>,
    pub total_bytes: u64,
    pub file_count: u64,
    pub age_days: Option<nat>,
    pub stale: bool,
}

impl View for BrowserProfileReport {
    type V = ProfileModel;

    open spec fn view(&self) -> ProfileModel {
        ProfileModel {
            name: self.name@,
            path: self.path@,
            total_bytes: self.total_bytes,
            file_count: self.file_count,
            age_days: age_view(self.age_days),
            stale: self.stale,
        }
    }
}

/// An entry of the directory of the browsers: its name, which need not be a
/// text, its path, and what a walk through it found, if it is a directory.
#[derive(Debug)]
pub struct BrowserEntry {
    pub name: Vec<u8>,
    pub path: FilePath,
    pub walk: Option<DirWalk>,
}

/// The profile that an entry is, if it is one.
pub open spec fn profile_of(entry: BrowserEntry, stale_days: u64, now: Timestamp) -> Option<
    ProfileModel,
> {
    match entry.walk {
        Some(walk) => {
            let age_days = days_between(walk.newest_modified, now);
            Some(
                ProfileModel {
                    name: lossy_text(entry.name@),
                    path: entry.path@,
                    total_bytes: walk.total_bytes,
                    file_count: walk.file_count,
                    age_days,
                    stale: is_at_least(age_days, stale_days as nat),
                },
            )
        },
        None => None,
    }
}

/// The profiles among the entries, in their order.
pub open spec fn profiles_in(entries: Seq<BrowserEntry>, stale_days: u64, now: Timestamp) -> Seq<
    ProfileModel,
> {
    entries.filter_map(|entry: BrowserEntry| profile_of(entry, stale_days, now))
}

/// Whether the profile at `x` is listed before the one at `y`: the larger one
/// first, and of two that are as large the one that came first.
pub open spec fn listed_before(profiles: Seq<ProfileModel>, x: int, y: int) -> bool {
    profiles[x].total_bytes > profiles[y].total_bytes || (profiles[x].total_bytes
        == profiles[y].total_bytes && x < y)
}

/// Whether `order` lists every profile once, the larger ones first.
pub open spec fn is_listing_order(order: Seq<int>, profiles: Seq<ProfileModel>) -> bool {
    &&& order.len() == profiles.len()
    &&& forall|a: int| 0 <= a < order.len() ==> 0 <= #[trigger] order[a] < profiles.len()
    &&& forall|a: int, b: int|
        0 <= a < b < order.len() ==> listed_before(
            profiles,
            #[trigger] order[a],
            #[trigger] order[b],
        )
}

/// The profiles in the given order.
pub open spec fn in_order(order: Seq<int>, profiles: Seq<ProfileModel>) -> Seq<ProfileModel> {
    Seq::new(order.len(), |i: int| profiles[order[i]])
}

/// Whether `listed` is the profiles by size, the largest first.
pub open spec fn is_by_size(listed: Seq<ProfileModel>, profiles: Seq<ProfileModel>) -> bool {
    exists|order: Seq<int>| #[trigger]
        is_listing_order(order, profiles) && listed == in_order(order, profiles)
}

/// The views of a list of profiles.
pub open spec fn profile_views(profiles: Seq<BrowserProfileReport>) -> Seq<ProfileModel> {
    Seq::new(profiles.len(), |i: int| profiles[i]@)
}

fn insert_by_size(listed: &mut Vec<BrowserProfileReport>, profile: BrowserProfileReport) -> (at:
    usize)
    ensures
        at <= old(listed)@.len(),
        final(listed)@ == old(listed)@.insert(at as int, profile),
        at > 0 ==> old(listed)@[at - 1].total_bytes >= profile.total_bytes,
        forall|i: int|
            at <= i < old(listed)@.len() ==> (#[trigger] old(listed)@[i]).total_bytes
                < profile.total_bytes,
{
    let mut at: usize = listed.len();
    while at > 0 && listed[at - 1].total_bytes < profile.total_bytes
        invariant
            at <= listed@.len(),
            listed@ == old(listed)@,
            forall|i: int|
                at <= i < listed@.len() ==> (#[trigger] listed@[i]).total_bytes
                    < profile.total_bytes,
        decreases at,
    {
        at = at - 1;
    }
    listed.insert(at, profile);
    at
}

/// Lists the browser profiles by size, the largest first, and flags those that
/// have not been used for `stale_days`.
pub fn list_browser_profiles(entries: &Vec<BrowserEntry>, stale_days: u64, now: Timestamp) -> (
    profiles: Vec<BrowserProfileReport>)
    ensures
        is_by_size(profile_views(profiles@), profiles_in(entries@, stale_days, now)),
        forall|i: int|
            0 <= i < profiles@.len() ==> ((#[trigger] profiles@[i]).stale <==> (
            profiles@[i].age_days matches Some(days) && days >= stale_days)),
        forall|i: int, j: int|
            0 <= i < j < profiles@.len() ==> (#[trigger] profiles@[i]).total_bytes >= (
            #[trigger] profiles@[j]).total_bytes,
{
    let ghost of = |entry: BrowserEntry| profile_of(entry, stale_days, now);
    let mut listed: Vec<BrowserProfileReport> = Vec::new();
    let ghost mut order: Seq<int> = Seq::empty();
    let mut i: usize = 0;
    proof {
        assert(entries@.take(0) =~= Seq::<BrowserEntry>::empty());
        assert(profile_views(listed@) =~= in_order(order, entries@.take(0).filter_map(of)));
    }
    while i < entries.len()
        invariant
            i <= entries@.len(),
            of == (|entry: BrowserEntry| profile_of(entry, stale_days, now)),
            is_listing_order(order, entries@.take(i as int).filter_map(of)),
            profile_views(listed@) == in_order(order, entries@.take(i as int).filter_map(of)),
        decreases entries@.len() - i,
    {
        let entry = &entries[i];
        let ghost before = entries@.take(i as int).filter_map(of);
        let ghost after = entries@.take(i + 1).filter_map(of);
        proof {
            assert(entries@.take(i + 1).drop_last() =~= entries@.take(i as int));
            assert(entries@.take(i + 1).last() == *entry);
        }
        if let Some(walk) = &entry.walk {
            let age_days = age_in_days(walk.newest_modified, now);
            let stale = at_least(age_days, stale_days);
            let profile = BrowserProfileReport {
                name: text_from_bytes(&entry.name),
                path: entry.path.copy(),
                total_bytes: walk.total_bytes,
                file_count: walk.file_count,
                age_days,
                stale,
            };
            let ghost model = profile@;
            let ghost listed_before_insert = listed@;
            proof {
                assert(of(*entry) == Some(model));
                assert(after =~= before.push(model));
                assert(profile_views(listed@).len() == in_order(order, before).len());
                assert forall|a: int| 0 <= a < order.len() implies before[#[trigger] order[a]]
                    == listed@[a]@ by {
                    assert(profile_views(listed@)[a] == in_order(order, before)[a]);
                }
            }
            let at = insert_by_size(&mut listed, profile);
            let ghost next = order.insert(at as int, before.len() as int);
            proof {
                assert forall|a: int, b: int| 0 <= a < b < next.len() implies listed_before(
                    after,
                    #[trigger] next[a],
                    #[trigger] next[b],
                ) by {
                    let n = before.len() as int;
                    if a == at {
                        assert(next[b] == order[b - 1]);
                        assert(before[order[b - 1]] == listed_before_insert[b - 1]@);
                        assert(listed_before_insert[b - 1].total_bytes < model.total_bytes);
                    } else if b == at {
                        assert(next[a] == order[a]);
                        assert(before[order[a]] == listed_before_insert[a]@);
                        assert(before[order[at - 1]] == listed_before_insert[at - 1]@);
                        if a < at - 1 {
                            assert(listed_before(before, order[a], order[at - 1]));
                        }
                    } else {
                        let a0 = if a < at {
                            a
                        } else {
                            a - 1
                        };
                        let b0 = if b < at {
                            b
                        } else {
                            b - 1
                        };
                        assert(next[a] == order[a0]);
                        assert(next[b] == order[b0]);
                        assert(listed_before(before, order[a0], order[b0]));
                    }
                }
                assert forall|a: int| 0 <= a < next.len() implies 0 <= #[trigger] next[a]
                    < after.len() by {
                    if a < at {
                        assert(next[a] == order[a]);
                    } else if a > at {
                        assert(next[a] == order[a - 1]);
                    }
                }
                assert forall|a: int| 0 <= a < next.len() implies profile_views(listed@)[a]
                    == in_order(next, after)[a] by {
                    if a < at {
                        assert(next[a] == order[a]);
                        assert(before[order[a]] == listed_before_insert[a]@);
                    } else if a > at {
                        assert(next[a] == order[a - 1]);
                        assert(before[order[a - 1]] == listed_before_insert[a - 1]@);
                    }
                }
                assert(profile_views(listed@) =~= in_order(next, after));
                order = next;
            }
        } else {
            proof {
                assert(of(*entry) is None);
                assert(after == before);
            }
        }
        i = i + 1;
    }
    proof {
        assert(entries@.take(entries@.len() as int) =~= entries@);
        let all = profiles_in(entries@, stale_days, now);
        let flagged = |profile: ProfileModel|
            profile.stale <==> (profile.age_days matches Some(days) && days >= stale_days);
        assert(is_listing_order(order, all));
        lemma_filter_map_holds(entries@, of, flagged);
        assert forall|i: int| 0 <= i < listed@.len() implies (#[trigger] listed@[i])@
            == all[order[i]] by {
            assert(profile_views(listed@)[i] == in_order(order, all)[i]);
        }
        assert forall|i: int| 0 <= i < listed@.len() implies ((#[trigger] listed@[i]).stale <==> (
        listed@[i].age_days matches Some(days) && days >= stale_days)) by {
            assert(listed@[i]@ == all[order[i]]);
            assert(flagged(entries@.filter_map(of)[order[i]]));
        }
        assert forall|i: int, j: int| 0 <= i < j < listed@.len() implies (
        #[trigger] listed@[i]).total_bytes >= (#[trigger] listed@[j]).total_bytes by {
            assert(listed@[i]@ == all[order[i]]);
            assert(listed@[j]@ == all[order[j]]);
            assert(listed_before(all, order[i], order[j]));
        }
    }
    listed
}

proof fn lemma_order_lists_all(order: Seq<int>, profiles: Seq<ProfileModel>, x: int)
    requires
        is_listing_order(order, profiles),
        0 <= x < profiles.len(),
    ensures
        order.contains(x),
{
    let n = profiles.len() as int;
    assert forall|a: int, b: int| 0 <= a < order.len() && 0 <= b < order.len() && a != b implies
        order[a] != order[b] by {
        if a < b {
            assert(listed_before(profiles, order[a], order[b]));
        } else {
            assert(listed_before(profiles, order[b], order[a]));
        }
    }
    assert(order.no_duplicates());
    order.unique_seq_to_set();
    vstd::set_lib::lemma_int_range(0, n);
    assert forall|y: int| #[trigger] order.to_set().contains(y) implies vstd::set_lib::set_int_range(
        0,
        n,
    ).contains(y) by {
        let a = choose|a: int| 0 <= a < order.len() && order[a] == y;
        assert(0 <= order[a] < profiles.len());
    }
    vstd::set_lib::lemma_subset_equality(order.to_set(), vstd::set_lib::set_int_range(0, n));
    assert(order.to_set().contains(x));
}

proof fn lemma_orders_agree(
    one: Seq<int>,
    other: Seq<int>,
    profiles: Seq<ProfileModel>,
    k: int,
)
    requires
        is_listing_order(one, profiles),
        is_listing_order(other, profiles),
        0 <= k <= profiles.len(),
    ensures
        forall|i: int| 0 <= i < k ==> one[i] == other[i],
    decreases k,
{
    if k > 0 {
        lemma_orders_agree(one, other, profiles, k - 1);
        let x = one[k - 1];
        let y = other[k - 1];
        lemma_order_lists_all(one, profiles, y);
        lemma_order_lists_all(other, profiles, x);
        let a = choose|a: int| 0 <= a < one.len() && one[a] == y;
        let b = choose|b: int| 0 <= b < other.len() && other[b] == x;
        if x != y {
            if a < k - 1 {
                assert(one[a] == other[a]);
                assert(listed_before(profiles, other[a], other[k - 1]));
            }
            if b < k - 1 {
                assert(one[b] == other[b]);
                assert(listed_before(profiles, one[b], one[k - 1]));
            }
            assert(listed_before(profiles, one[k - 1], one[a]));
            assert(listed_before(profiles, other[k - 1], other[b]));
        }
    }
}

/// There is only one list of the profiles by size.
pub proof fn law_list_by_size_is_unique(
    one: Seq<ProfileModel>,
    other: Seq<ProfileModel>,
    profiles: Seq<ProfileModel>,
)
    requires
        is_by_size(one, profiles),
        is_by_size(other, profiles),
    ensures
        one == other,
{
    let a = choose|order: Seq<int>| #[trigger]
        is_listing_order(order, profiles) && one == in_order(order, profiles);
    let b = choose|order: Seq<int>| #[trigger]
        is_listing_order(order, profiles) && other == in_order(order, profiles);
    lemma_orders_agree(a, b, profiles, profiles.len() as int);
    assert(a =~= b);
}

/// What is known of the daemon and of the disk.
#[derive(Debug)]
pub struct DoctorFacts {
    pub base_dir: FilePath,
    pub base_dir_exists: bool,
    pub daemon_running: bool,
    pub daemon_pid: Option<i32>,
    pub log_path: Result<FilePath, IoError>,
    pub logs_dir: Result<FilePath, IoError>,
    pub tmp: Option<DirWalk>,
    pub browsers: Option<DirWalk>,
    pub logs: Option<DirWalk>,
    pub browser_entries: Vec<BrowserEntry>,
}

/// The doctor's report.
#[derive(Debug)]
pub struct DoctorReport {
    pub base_dir: FilePath,
    pub base_dir_exists: bool,
    pub daemon_running: bool,
    pub daemon_pid: Option<i32>,
    pub log_path: Option<FilePath>,
    pub dirs: Vec<DirReport>,
    pub browser_profiles: Vec<BrowserProfileReport>,
    pub stale_days: u64,
}

/// The doctor's report.
pub struct ReportModel {
    pub base_dir: Seq<u8>,
    pub base_dir_exists: bool,
    pub daemon_running: bool,
    pub daemon_pid: Option<i32>,
    pub log_path: Option<Seq<u8>>,
    pub dirs: Seq<DirModel>,
    pub browser_profiles: Seq<ProfileModel>,
    pub stale_days: u64,
}

impl View for DoctorReport {
    type V = ReportModel;

    open spec fn view(&self) -> ReportModel {
        ReportModel {
            base_dir: self.base_dir@,
            base_dir_exists: self.base_dir_exists,
            daemon_running: self.daemon_running,
            daemon_pid: self.daemon_pid,
            log_path: optional_path(self.log_path),
            dirs: dir_views(self.dirs@),
            browser_profiles: profile_views(self.browser_profiles@),
            stale_days: self.stale_days,
        }
    }
}

/// The views of a list of directories.
pub open spec fn dir_views(dirs: Seq<DirReport>) -> Seq<DirModel> {
    Seq::new(dirs.len(), |i: int| dirs[i]@)
}

/// The directory of the logs: where it is said to be, else in the base
/// directory.
pub open spec fn logs_dir_or_default(logs_dir: Result<Seq<u8>, IoModel>, base_dir: Seq<u8>) -> Seq<
    u8,
> {
    match logs_dir {
        Ok(path) => path,
        Err(_) => joined_path(base_dir, bytes_of("logs"@)),
    }
}

/// The directory of the logs that the doctor looks at.
pub fn logs_dir_to_walk(logs_dir: &Result<FilePath, IoError>, base_dir: &FilePath) -> (dir: FilePath)
    ensures
        dir@ == logs_dir_or_default(located(*logs_dir), base_dir@),
{
    match logs_dir {
        Ok(path) => path.copy(),
        Err(_) => base_dir.join("logs"),
    }
}

/// The directories that the doctor looks at.
pub open spec fn report_dirs(facts: DoctorFacts) -> Seq<DirModel> {
    seq![
        dir_model("tmp"@, joined_path(facts.base_dir@, bytes_of("tmp"@)), facts.tmp),
        dir_model(
            "browsers"@,
            joined_path(facts.base_dir@, bytes_of("browsers"@)),
            facts.browsers,
        ),
        dir_model(
            "logs"@,
            logs_dir_or_default(located(facts.logs_dir), facts.base_dir@),
            facts.logs,
        ),
    ]
}

/// Puts the report together.
pub fn build_report(facts: DoctorFacts, stale_days: u64, now: Timestamp) -> (report: DoctorReport)
    ensures
        report@.base_dir == facts.base_dir@,
        report@.base_dir_exists == facts.base_dir_exists,
        report@.daemon_running == facts.daemon_running,
        report@.daemon_pid == facts.daemon_pid,
        report@.log_path == match facts.log_path {
            Ok(path) => Some(path@),
            Err(_) => None,
        },
        report@.dirs == report_dirs(facts),
        is_by_size(
            report@.browser_profiles,
            profiles_in(facts.browser_entries@, stale_days, now),
        ),
        report@.stale_days == stale_days,
{
    let ghost expected = report_dirs(facts);
    let tmp_path = tmp_dir(&facts.base_dir);
    let browsers_path = browsers_dir(&facts.base_dir);
    let logs_path = logs_dir_to_walk(&facts.logs_dir, &facts.base_dir);
    let mut dirs: Vec<DirReport> = Vec::new();
    dirs.push(dir_report("tmp", tmp_path, facts.tmp));
    dirs.push(dir_report("browsers", browsers_path, facts.browsers));
    dirs.push(dir_report("logs", logs_path, facts.logs));
    proof {
        assert(dir_views(dirs@) =~= expected);
    }
    let browser_profiles = list_browser_profiles(&facts.browser_entries, stale_days, now);
    let log_path = match facts.log_path {
        Ok(path) => Some(path),
        Err(_) => None,
    };
    DoctorReport {
        base_dir: facts.base_dir,
        base_dir_exists: facts.base_dir_exists,
        daemon_running: facts.daemon_running,
        daemon_pid: facts.daemon_pid,
        log_path,
        dirs,
        browser_profiles,
        stale_days,
    }
}

// ---------------------------------------------------------------------------
// The plan
// ---------------------------------------------------------------------------

/// Something that can be collected, with the bytes that this would free.
#[derive(Debug)]
pub struct GcCandidate {
    pub kind: &'static str,
    pub path: FilePath,
    pub bytes: u64,
    pub age_days: Option<u64>,
}

/// Something that can be collected.
pub struct CandidateModel {
    pub kind: Seq<char>,
    pub path: Seq<u8>,
    pub bytes: u64,
    pub age_days: Option<nat>,
}

impl View for GcCandidate {
    type V = CandidateModel;

    open spec fn view(&self) -> CandidateModel {
        CandidateModel {
            kind: self.kind@,
            path: self.path@,
            bytes: self.bytes,
            age_days: age_view(self.age_days),
        }
    }
}

impl GcCandidate {
    /// A copy of the candidate.
    pub fn copy(&self) -> (candidate: GcCandidate)
        ensures
            candidate@ == self@,
    {
        GcCandidate {
            kind: self.kind,
            path: self.path.copy(),
            bytes: self.bytes,
            age_days: self.age_days,
        }
    }
}

/// The views of a list of candidates.
pub open spec fn candidate_views(candidates: Seq<GcCandidate>) -> Seq<CandidateModel> {
    Seq::new(candidates.len(), |i: int| candidates[i]@)
}

/// What is known of an entry of the temporary directory: what a walk through
/// it found, if it is a directory, else its length and age, if they are known.
#[derive(Debug)]
pub enum TmpFacts {
    Directory(DirWalk),
    File { len: u64, modified: Option<Timestamp> },
    Unreadable,
}

/// An entry of the temporary directory. A directory is one entry with all
/// that is in it.
#[derive(Debug)]
pub struct TmpEntry {
    pub path: FilePath,
    pub facts: TmpFacts,
}

/// The bytes and the age of an entry, if they are known.
pub open spec fn size_and_age(facts: TmpFacts, now: Timestamp) -> Option<(u64, Option<nat>)> {
    match facts {
        TmpFacts::Directory(walk) => Some(
            (walk.total_bytes, days_between(walk.newest_modified, now)),
        ),
        TmpFacts::File { len, modified } => Some((len, days_between(modified, now))),
        TmpFacts::Unreadable => None,
    }
}

/// The candidate that an entry is, if it is one: it is inside the base
/// directory and at least `min_age_days` old.
pub open spec fn tmp_candidate(
    base_dir: Seq<u8>,
    entry: TmpEntry,
    min_age_days: u64,
    now: Timestamp,
) -> Option<CandidateModel> {
    match size_and_age(entry.facts, now) {
        Some((bytes, age_days)) => if contained(base_dir, entry.path@) && is_at_least(
            age_days,
            min_age_days as nat,
        ) {
            Some(
                CandidateModel { kind: "tmp-entry"@, path: entry.path@, bytes, age_days },
            )
        } else {
            None
        },
        None => None,
    }
}

/// The candidates among the entries of the temporary directory, in order.
pub open spec fn tmp_candidates(
    base_dir: Seq<u8>,
    entries: Seq<TmpEntry>,
    min_age_days: u64,
    now: Timestamp,
) -> Seq<CandidateModel> {
    entries.filter_map(|entry: TmpEntry| tmp_candidate(base_dir, entry, min_age_days, now))
}

/// Lists the entries of the temporary directory that can be collected.
pub fn tmp_gc_candidates(
    base_dir: &FilePath,
    entries: &Vec<TmpEntry>,
    min_age_days: u64,
    now: Timestamp,
) -> (candidates: Vec<GcCandidate>)
    ensures
        candidate_views(candidates@) == tmp_candidates(base_dir@, entries@, min_age_days, now),
        forall|i: int|
            0 <= i < candidates@.len() ==> {
                &&& (#[trigger] candidates@[i]).kind@ == "tmp-entry"@
                &&& contained(base_dir@, candidates@[i].path@)
                &&& candidates@[i].age_days matches Some(days) && days >= min_age_days
            },
{
    let ghost of = |entry: TmpEntry| tmp_candidate(base_dir@, entry, min_age_days, now);
    let mut candidates: Vec<GcCandidate> = Vec::new();
    let mut i: usize = 0;
    proof {
        assert(entries@.take(0) =~= Seq::<TmpEntry>::empty());
        assert(candidate_views(candidates@) =~= entries@.take(0).filter_map(of));
    }
    while i < entries.len()
        invariant
            i <= entries@.len(),
            of == (|entry: TmpEntry| tmp_candidate(base_dir@, entry, min_age_days, now)),
            candidate_views(candidates@) == entries@.take(i as int).filter_map(of),
            forall|j: int|
                0 <= j < candidates@.len() ==> {
                    &&& (#[trigger] candidates@[j]).kind@ == "tmp-entry"@
                    &&& contained(base_dir@, candidates@[j].path@)
                    &&& candidates@[j].age_days matches Some(days) && days >= min_age_days
                },
        decreases entries@.len() - i,
    {
        let entry = &entries[i];
        let ghost before = candidates@;
        proof {
            assert(entries@.take(i + 1).drop_last() =~= entries@.take(i as int));
            assert(entries@.take(i + 1).last() == *entry);
        }
        if is_contained(base_dir, &entry.path) {
            let facts: Option<(u64, Option<u64>)> = match &entry.facts {
                TmpFacts::Directory(walk) => Some(
                    (walk.total_bytes, age_in_days(walk.newest_modified, now)),
                ),
                TmpFacts::File { len, modified } => Some((*len, age_in_days(*modified, now))),
                TmpFacts::Unreadable => None,
            };
            if let Some((bytes, age_days)) = facts {
                if at_least(age_days, min_age_days) {
                    let candidate = GcCandidate {
                        kind: "tmp-entry",
                        path: entry.path.copy(),
                        bytes,
                        age_days,
                    };
                    proof {
                        assert(of(*entry) == Some(candidate@));
                    }
                    candidates.push(candidate);
                }
            }
        }
        i = i + 1;
        proof {
            assert(candidate_views(candidates@) =~= entries@.take(i as int).filter_map(of));
        }
    }
    proof {
        assert(entries@.take(entries@.len() as int) =~= entries@);
    }
    candidates
}

/// The candidate that a browser profile is, if it is one: it is stale and
/// inside the base directory.
pub open spec fn profile_candidate(base_dir: Seq<u8>, profile: ProfileModel) -> Option<
    CandidateModel,
> {
    if profile.stale && contained(base_dir, profile.path) {
        Some(
            CandidateModel {
                kind: "browser-profile"@,
                path: profile.path,
                bytes: profile.total_bytes,
                age_days: profile.age_days,
            },
        )
    } else {
        None
    }
}

/// The candidates among the browser profiles, in order.
pub open spec fn profile_candidates(base_dir: Seq<u8>, profiles: Seq<ProfileModel>) -> Seq<
    CandidateModel,
> {
    profiles.filter_map(|profile: ProfileModel| profile_candidate(base_dir, profile))
}

/// The first directory in the report that is labelled as the temporary one, if
/// it is there.
pub open spec fn tmp_dir_in(dirs: Seq<DirModel>) -> Option<Seq<u8>>
    decreases dirs.len(),
{
    if dirs.len() == 0 {
        None
    } else if dirs[0].label == "tmp"@ {
        if dirs[0].exists {
            Some(dirs[0].path)
        } else {
            None
        }
    } else {
        tmp_dir_in(dirs.drop_first())
    }
}

/// The temporary directory to look into for a plan, if it is there.
pub fn tmp_dir_to_list(report: &DoctorReport) -> (dir: Option<FilePath>)
    ensures
        optional_path(dir) == tmp_dir_in(report@.dirs),
{
    let ghost all = dir_views(report.dirs@);
    let mut i: usize = 0;
    proof {
        assert(all.skip(0) =~= all);
    }
    while i < report.dirs.len()
        invariant
            i <= report.dirs@.len(),
            all == dir_views(report.dirs@),
            tmp_dir_in(all.skip(i as int)) == tmp_dir_in(all),
        decreases report.dirs@.len() - i,
    {
        let dir = &report.dirs[i];
        proof {
            assert(all.skip(i as int)[0] == dir@);
            assert(all.skip(i as int).drop_first() =~= all.skip(i + 1));
        }
        if same_text(dir.label, "tmp") {
            return if dir.exists {
                Some(dir.path.copy())
            } else {
                None
            };
        }
        i = i + 1;
    }
    None
}

/// The plan of the collector.
pub open spec fn planned(
    report: ReportModel,
    options: DoctorOptions,
    entries: Seq<TmpEntry>,
    now: Timestamp,
) -> Seq<CandidateModel> {
    (if tmp_dir_in(report.dirs) is Some {
        tmp_candidates(report.base_dir, entries, options.min_age_days, now)
    } else {
        Seq::empty()
    }) + (if options.include_browser_profiles {
        profile_candidates(report.base_dir, report.browser_profiles)
    } else {
        Seq::empty()
    })
}

fn push_profile_candidates(
    base_dir: &FilePath,
    profiles: &Vec<BrowserProfileReport>,
    candidates: &mut Vec<GcCandidate>,
)
    ensures
        candidate_views(final(candidates)@) == candidate_views(old(candidates)@)
            + profile_candidates(base_dir@, profile_views(profiles@)),
{
    let ghost of = |profile: ProfileModel| profile_candidate(base_dir@, profile);
    let ghost all = profile_views(profiles@);
    let ghost start = candidate_views(candidates@);
    let mut i: usize = 0;
    proof {
        assert(all.take(0) =~= Seq::<ProfileModel>::empty());
        assert(start =~= start + all.take(0).filter_map(of));
    }
    while i < profiles.len()
        invariant
            i <= profiles@.len(),
            all == profile_views(profiles@),
            start == candidate_views(old(candidates)@),
            of == (|profile: ProfileModel| profile_candidate(base_dir@, profile)),
            candidate_views(candidates@) == start + all.take(i as int).filter_map(of),
        decreases profiles@.len() - i,
    {
        let profile = &profiles[i];
        let ghost before = candidate_views(candidates@);
        proof {
            assert(all.take(i + 1).drop_last() =~= all.take(i as int));
            assert(all.take(i + 1).last() == profile@);
        }
        if profile.stale && is_contained(base_dir, &profile.path) {
            let candidate = GcCandidate {
                kind: "browser-profile",
                path: profile.path.copy(),
                bytes: profile.total_bytes,
                age_days: profile.age_days,
            };
            let ghost model = candidate@;
            proof {
                assert(of(profile@) == Some(model));
            }
            candidates.push(candidate);
            proof {
                assert(candidate_views(candidates@) =~= before.push(model));
            }
        } else {
            proof {
                assert(of(profile@) is None);
            }
        }
        i = i + 1;
        proof {
            assert(candidate_views(candidates@) =~= start + all.take(i as int).filter_map(of));
        }
    }
    proof {
        assert(all.take(all.len() as int) =~= all);
    }
}

/// Plans what to collect: old entries of the temporary directory and, on
/// request, stale browser profiles. `entries` is what is in the directory that
/// [`tmp_dir_to_list`] names.
pub fn build_gc_plan(
    report: &DoctorReport,
    options: &DoctorOptions,
    entries: &Vec<TmpEntry>,
    now: Timestamp,
) -> (plan: Vec<GcCandidate>)
    ensures
        candidate_views(plan@) == planned(report@, *options, entries@, now),
{
    let mut plan: Vec<GcCandidate> = Vec::new();
    if tmp_dir_to_list(report).is_some() {
        plan = tmp_gc_candidates(&report.base_dir, entries, options.min_age_days, now);
    }
    proof {
        if tmp_dir_in(report@.dirs) is None {
            assert(candidate_views(plan@) =~= Seq::<CandidateModel>::empty());
        }
    }
    if options.include_browser_profiles {
        push_profile_candidates(&report.base_dir, &report.browser_profiles, &mut plan);
    }
    proof {
        assert(candidate_views(plan@) =~= planned(report@, *options, entries@, now));
    }
    plan
}

/// The bytes that a plan would free.
pub open spec fn plan_bytes(plan: Seq<CandidateModel>) -> nat
    decreases plan.len(),
{
    if plan.len() == 0 {
        0
    } else {
        plan_bytes(plan.drop_last()) + plan.last().bytes as nat
    }
}

proof fn lemma_plan_bytes_grow(plan: Seq<CandidateModel>, k: int)
    requires
        0 <= k <= plan.len(),
    ensures
        plan_bytes(plan.take(k)) <= plan_bytes(plan),
    decreases plan.len() - k,
{
    if k < plan.len() {
        lemma_plan_bytes_grow(plan, k + 1);
        assert(plan.take(k + 1).drop_last() =~= plan.take(k));
    } else {
        assert(plan.take(k) =~= plan);
    }
}

/// The bytes that a plan would free, unless they are too many to count.
pub fn plan_total(plan: &Vec<GcCandidate>) -> (total: Option<u64>)
    ensures
        match total {
            Some(total) => total == plan_bytes(candidate_views(plan@)),
            None => plan_bytes(candidate_views(plan@)) > u64::MAX,
        },
{
    let ghost all = candidate_views(plan@);
    let mut total: u64 = 0;
    let mut i: usize = 0;
    while i < plan.len()
        invariant
            i <= plan@.len(),
            all == candidate_views(plan@),
            total == plan_bytes(all.take(i as int)),
        decreases plan@.len() - i,
    {
        proof {
            assert(all.take(i + 1).drop_last() =~= all.take(i as int));
            assert(all.take(i + 1).last() == plan@[i as int]@);
            lemma_plan_bytes_grow(all, i + 1);
        }
        match total.checked_add(plan[i].bytes) {
            Some(sum) => {
                total = sum;
            },
            None => {
                return None;
            },
        }
        i = i + 1;
    }
    proof {
        assert(all.take(all.len() as int) =~= all);
    }
    Some(total)
}

proof fn lemma_filter_map_holds<A, B>(
    list: Seq<A>,
    of: spec_fn(A) -> Option<B>,
    holds: spec_fn(B) -> bool,
)
    requires
        forall|a: A| (#[trigger] of(a)) matches Some(b) ==> holds(b),
    ensures
        forall|i: int| 0 <= i < list.filter_map(of).len() ==> holds(#[trigger] list.filter_map(of)[i]),
    decreases list.len(),
{
    if list.len() > 0 {
        lemma_filter_map_holds(list.drop_last(), of, holds);
        let rest = list.drop_last().filter_map(of);
        assert(of(list.last()) matches Some(b) ==> holds(b));
        assert forall|i: int| 0 <= i < list.filter_map(of).len() implies holds(
            #[trigger] list.filter_map(of)[i],
        ) by {
            if i < rest.len() {
                assert(list.filter_map(of)[i] == rest[i]);
            }
        }
    }
}

/// Nothing outside the base directory is ever planned to be collected.
pub proof fn law_plan_stays_inside(
    report: ReportModel,
    options: DoctorOptions,
    entries: Seq<TmpEntry>,
    now: Timestamp,
)
    ensures
        forall|i: int|
            0 <= i < planned(report, options, entries, now).len() ==> contained(
                report.base_dir,
                (#[trigger] planned(report, options, entries, now)[i]).path,
            ),
{
    let base_dir = report.base_dir;
    let tmp = |entry: TmpEntry| tmp_candidate(base_dir, entry, options.min_age_days, now);
    let stale = |profile: ProfileModel| profile_candidate(base_dir, profile);
    let inside = |candidate: CandidateModel| contained(base_dir, candidate.path);
    lemma_filter_map_holds(entries, tmp, inside);
    lemma_filter_map_holds(report.browser_profiles, stale, inside);
    let first = tmp_candidates(base_dir, entries, options.min_age_days, now);
    let second = profile_candidates(base_dir, report.browser_profiles);
    assert forall|i: int| 0 <= i < first.len() implies contained(
        base_dir,
        (#[trigger] first[i]).path,
    ) by {
        assert(inside(entries.filter_map(tmp)[i]));
    }
    assert forall|i: int| 0 <= i < second.len() implies contained(
        base_dir,
        (#[trigger] second[i]).path,
    ) by {
        assert(inside(report.browser_profiles.filter_map(stale)[i]));
    }
}

/// Unless browser profiles are asked for, only entries of the temporary
/// directory are planned to be collected, whatever profiles there are.
pub proof fn law_profiles_only_on_request(
    report: ReportModel,
    options: DoctorOptions,
    entries: Seq<TmpEntry>,
    now: Timestamp,
    profiles: Seq<ProfileModel>,
)
    requires
        !options.include_browser_profiles,
    ensures
        forall|i: int|
            0 <= i < planned(report, options, entries, now).len() ==> (#[trigger] planned(
                report,
                options,
                entries,
                now,
            )[i]).kind == "tmp-entry"@,
        planned(
            (ReportModel { browser_profiles: profiles, ..report }),
            options,
            entries,
            now,
        ) == planned(report, options, entries, now),
{
    let base_dir = report.base_dir;
    let tmp = |entry: TmpEntry| tmp_candidate(base_dir, entry, options.min_age_days, now);
    let is_tmp = |candidate: CandidateModel| candidate.kind == "tmp-entry"@;
    lemma_filter_map_holds(entries, tmp, is_tmp);
    let first = tmp_candidates(base_dir, entries, options.min_age_days, now);
    assert forall|i: int| 0 <= i < first.len() implies (#[trigger] first[i]).kind
        == "tmp-entry"@ by {
        assert(is_tmp(entries.filter_map(tmp)[i]));
    }
}

/// An entry of the temporary directory is a candidate exactly if it is inside
/// the base directory and so many days have passed, by the clock, since it was
/// modified as were asked for, whatever number that is. The candidate then says
/// where it is, how large and how old.
pub proof fn law_an_old_entry_is_a_candidate(
    base_dir: Seq<u8>,
    entry: TmpEntry,
    min_age_days: u64,
    now: Timestamp,
)
    ensures
        ({
            let modified = match entry.facts {
                TmpFacts::Directory(walk) => walk.newest_modified,
                TmpFacts::File { modified, .. } => modified,
                TmpFacts::Unreadable => None,
            };
            let bytes = match entry.facts {
                TmpFacts::Directory(walk) => walk.total_bytes,
                TmpFacts::File { len, .. } => len,
                TmpFacts::Unreadable => 0,
            };
            let candidate = tmp_candidate(base_dir, entry, min_age_days, now);
            &&& candidate is Some <==> contained(base_dir, entry.path@) && (
            modified matches Some(time) && (now.secs - time.secs) * 1_000_000_000 + (now.nanos
                - time.nanos) >= min_age_days * 86_400_000_000_000)
            &&& candidate matches Some(found) ==> {
                &&& found.kind == "tmp-entry"@
                &&& found.path == entry.path@
                &&& found.bytes == bytes
                &&& found.age_days matches Some(days) && days >= min_age_days && days
                    * 86_400_000_000_000 <= (now.secs - modified->0.secs) * 1_000_000_000 + (
                now.nanos - modified->0.nanos) < (days + 1) * 86_400_000_000_000
            }
        }),
{
    match entry.facts {
        TmpFacts::Directory(walk) => {
            if let Some(time) = walk.newest_modified {
                law_old_enough_is_by_the_clock(time, now, min_age_days as nat);
                law_age_is_in_whole_days(time, now);
            }
        },
        TmpFacts::File { modified, .. } => {
            if let Some(time) = modified {
                law_old_enough_is_by_the_clock(time, now, min_age_days as nat);
                law_age_is_in_whole_days(time, now);
            }
        },
        TmpFacts::Unreadable => {},
    }
}

/// The list of candidates takes every entry in turn: one that is a candidate is
/// added at the end, and any other changes nothing.
pub proof fn law_every_entry_is_looked_at(
    base_dir: Seq<u8>,
    entries: Seq<TmpEntry>,
    entry: TmpEntry,
    min_age_days: u64,
    now: Timestamp,
)
    ensures
        tmp_candidates(base_dir, Seq::empty(), min_age_days, now).len() == 0,
        tmp_candidates(base_dir, entries.push(entry), min_age_days, now) == match tmp_candidate(
            base_dir,
            entry,
            min_age_days,
            now,
        ) {
            Some(candidate) => tmp_candidates(base_dir, entries, min_age_days, now).push(candidate),
            None => tmp_candidates(base_dir, entries, min_age_days, now),
        },
{
    assert(entries.push(entry).drop_last() =~= entries);
}

/// A larger limit never makes more entries candidates.
pub proof fn law_a_larger_limit_spares_more(
    base_dir: Seq<u8>,
    entry: TmpEntry,
    smaller: u64,
    larger: u64,
    now: Timestamp,
)
    requires
        smaller <= larger,
        tmp_candidate(base_dir, entry, larger, now) is Some,
    ensures
        tmp_candidate(base_dir, entry, smaller, now) == tmp_candidate(base_dir, entry, larger, now),
{
}

/// Every directory among the entries is a profile and nothing else is, and it
/// is stale exactly if so many days have passed, by the clock, since one of its
/// files was modified as the threshold says. What is reported of it is what the
/// walk through it found.
pub proof fn law_a_profile_is_stale_by_the_clock(
    entries: Seq<BrowserEntry>,
    entry: BrowserEntry,
    stale_days: u64,
    now: Timestamp,
)
    ensures
        profiles_in(Seq::empty(), stale_days, now).len() == 0,
        entry.walk is None ==> profiles_in(entries.push(entry), stale_days, now) == profiles_in(
            entries,
            stale_days,
            now,
        ),
        entry.walk matches Some(walk) ==> {
            let listed = profiles_in(entries.push(entry), stale_days, now);
            let profile = listed.last();
            &&& listed.len() > 0
            &&& listed.drop_last() == profiles_in(entries, stale_days, now)
            &&& profile.name == lossy_text(entry.name@)
            &&& profile.path == entry.path@
            &&& profile.total_bytes == walk.total_bytes
            &&& profile.file_count == walk.file_count
            &&& profile.age_days is None <==> (walk.newest_modified is None || (
            walk.newest_modified matches Some(time) && (now.secs - time.secs) * 1_000_000_000 + (
            now.nanos - time.nanos) < 0))
            &&& profile.age_days matches Some(days) ==> days * 86_400_000_000_000 <= (now.secs
                - walk.newest_modified->0.secs) * 1_000_000_000 + (now.nanos
                - walk.newest_modified->0.nanos) < (days + 1) * 86_400_000_000_000
            &&& profile.stale <==> (walk.newest_modified matches Some(time) && (now.secs
                - time.secs) * 1_000_000_000 + (now.nanos - time.nanos) >= stale_days
                * 86_400_000_000_000)
        },
{
    assert(entries.push(entry).drop_last() =~= entries);
    if let Some(walk) = entry.walk {
        let of = |entry: BrowserEntry| profile_of(entry, stale_days, now);
        assert(of(entry) is Some);
        assert(profiles_in(entries.push(entry), stale_days, now) =~= profiles_in(
            entries,
            stale_days,
            now,
        ).push(profile_of(entry, stale_days, now)->0));
        assert(profiles_in(entries.push(entry), stale_days, now).drop_last() =~= profiles_in(
            entries,
            stale_days,
            now,
        ));
        if let Some(time) = walk.newest_modified {
            law_old_enough_is_by_the_clock(time, now, stale_days as nat);
            law_age_is_in_whole_days(time, now);
        }
    }
}

/// The list of the profiles holds each of them once, the largest first, and of
/// those that are as large the one that came first.
pub proof fn law_profiles_are_listed_by_size(
    listed: Seq<ProfileModel>,
    profiles: Seq<ProfileModel>,
)
    requires
        is_by_size(listed, profiles),
    ensures
        listed.len() == profiles.len(),
        forall|a: int, b: int|
            0 <= a < b < listed.len() ==> (#[trigger] listed[a]).total_bytes >= (
            #[trigger] listed[b]).total_bytes,
        exists|place: Seq<int>|
            {
                &&& place.len() == listed.len()
                &&& place.no_duplicates()
                &&& forall|a: int|
                    0 <= a < place.len() ==> 0 <= #[trigger] place[a] < profiles.len() && listed[a]
                        == profiles[place[a]]
                &&& forall|a: int, b: int|
                    0 <= a < b < place.len() && listed[a].total_bytes == listed[b].total_bytes
                        ==> #[trigger] place[a] < #[trigger] place[b]
            },
{
    let order = choose|order: Seq<int>| #[trigger]
        is_listing_order(order, profiles) && listed == in_order(order, profiles);
    assert forall|a: int| 0 <= a < order.len() implies 0 <= #[trigger] order[a] < profiles.len()
        && listed[a] == profiles[order[a]] by {}
    assert forall|a: int, b: int| 0 <= a < b < order.len() implies listed[a].total_bytes
        >= listed[b].total_bytes && (listed[a].total_bytes == listed[b].total_bytes
        ==> #[trigger] order[a] < #[trigger] order[b]) && order[a] != order[b] by {
        assert(listed_before(profiles, order[a], order[b]));
    }
    assert forall|a: int, b: int| 0 <= a < b < listed.len() implies (
    #[trigger] listed[a]).total_bytes >= (#[trigger] listed[b]).total_bytes by {
        assert(order[a] != order[b]);
    }
    assert forall|a: int, b: int|
        0 <= a < order.len() && 0 <= b < order.len() && a != b implies order[a] != order[b] by {
        if a < b {
            assert(order[a] != order[b]);
        } else {
            assert(order[b] != order[a]);
        }
    }
    assert(order.no_duplicates());
}

/// A profile is a candidate exactly if it is stale and inside the base
/// directory, and the candidate is that profile, with all its bytes.
pub proof fn law_a_stale_profile_is_a_candidate(
    base_dir: Seq<u8>,
    profiles: Seq<ProfileModel>,
    profile: ProfileModel,
)
    ensures
        profile_candidates(base_dir, Seq::empty()).len() == 0,
        !(profile.stale && contained(base_dir, profile.path)) ==> profile_candidates(
            base_dir,
            profiles.push(profile),
        ) == profile_candidates(base_dir, profiles),
        profile.stale && contained(base_dir, profile.path) ==> {
            let candidates = profile_candidates(base_dir, profiles.push(profile));
            let candidate = candidates.last();
            &&& candidates.len() > 0
            &&& candidates.drop_last() == profile_candidates(base_dir, profiles)
            &&& candidate.kind == "browser-profile"@
            &&& candidate.path == profile.path
            &&& candidate.bytes == profile.total_bytes
            &&& candidate.age_days == profile.age_days
        },
{
    let of = |profile: ProfileModel| profile_candidate(base_dir, profile);
    assert(profiles.push(profile).drop_last() =~= profiles);
    if let Some(candidate) = of(profile) {
        assert(profile_candidates(base_dir, profiles.push(profile)) =~= profile_candidates(
            base_dir,
            profiles,
        ).push(candidate));
        assert(profile_candidates(base_dir, profiles.push(profile)).drop_last()
            =~= profile_candidates(base_dir, profiles));
    }
}

/// The report looks at the temporary directory, that of the browsers and that
/// of the logs, in this order, and says of each where it is, whether it is
/// there, and what a walk through that very directory found.
pub proof fn law_the_report_covers_three_directories(facts: DoctorFacts)
    ensures
        ({
            let dirs = report_dirs(facts);
            let walks = seq![facts.tmp, facts.browsers, facts.logs];
            &&& dirs.len() == 3
            &&& dirs[0].label == "tmp"@ && dirs[1].label == "browsers"@ && dirs[2].label == "logs"@
            &&& dirs[0].path == joined_path(facts.base_dir@, bytes_of("tmp"@))
            &&& dirs[1].path == joined_path(facts.base_dir@, bytes_of("browsers"@))
            &&& dirs[2].path == match facts.logs_dir {
                Ok(path) => path@,
                Err(_) => joined_path(facts.base_dir@, bytes_of("logs"@)),
            }
            &&& forall|i: int|
                0 <= i < 3 ==> {
                    &&& (#[trigger] dirs[i]).exists <==> walks[i] is Some
                    &&& walks[i] matches Some(walk) ==> dirs[i].total_bytes == walk.total_bytes
                        && dirs[i].file_count == walk.file_count
                    &&& walks[i] is None ==> dirs[i].total_bytes == 0 && dirs[i].file_count == 0
                }
            &&& tmp_dir_in(dirs) == if facts.tmp is Some {
                Some(joined_path(facts.base_dir@, bytes_of("tmp"@)))
            } else {
                None
            }
        }),
{
    reveal_with_fuel(tmp_dir_in, 2);
}

/// The temporary directory is looked into only if the report has it and it is
/// there; the first directory that is labelled so decides.
pub proof fn law_the_first_temporary_directory_decides(dirs: Seq<DirModel>, i: int)
    requires
        0 <= i <= dirs.len(),
        forall|j: int| 0 <= j < i ==> (#[trigger] dirs[j]).label != "tmp"@,
        i < dirs.len() ==> dirs[i].label == "tmp"@,
    ensures
        i == dirs.len() ==> tmp_dir_in(dirs) is None,
        i < dirs.len() && !dirs[i].exists ==> tmp_dir_in(dirs) is None,
        i < dirs.len() && dirs[i].exists ==> tmp_dir_in(dirs) == Some(dirs[i].path),
    decreases i,
{
    if i > 0 {
        assert(dirs[0].label != "tmp"@);
        let rest = dirs.drop_first();
        assert forall|j: int| 0 <= j < i - 1 implies (#[trigger] rest[j]).label != "tmp"@ by {
            assert(rest[j] == dirs[j + 1]);
        }
        law_the_first_temporary_directory_decides(rest, i - 1);
    }
}

/// A plan holds the candidates of the temporary directory, if that is there,
/// and behind them those among the profiles, if they were asked for; nothing
/// else, and nothing is left out.
pub proof fn law_a_plan_holds_what_was_asked_for(
    report: ReportModel,
    options: DoctorOptions,
    entries: Seq<TmpEntry>,
    now: Timestamp,
)
    ensures
        ({
            let plan = planned(report, options, entries, now);
            let tmp = tmp_candidates(report.base_dir, entries, options.min_age_days, now);
            let stale = profile_candidates(report.base_dir, report.browser_profiles);
            let has_tmp = tmp_dir_in(report.dirs) is Some;
            &&& has_tmp && options.include_browser_profiles ==> plan == tmp + stale
            &&& has_tmp && !options.include_browser_profiles ==> plan == tmp
            &&& !has_tmp && options.include_browser_profiles ==> plan == stale
            &&& !has_tmp && !options.include_browser_profiles ==> plan.len() == 0
        }),
{
    let plan = planned(report, options, entries, now);
    let tmp = tmp_candidates(report.base_dir, entries, options.min_age_days, now);
    let stale = profile_candidates(report.base_dir, report.browser_profiles);
    if options.include_browser_profiles {
        assert(tmp_dir_in(report.dirs) is None ==> plan =~= stale);
    } else {
        assert(tmp_dir_in(report.dirs) is Some ==> plan =~= tmp);
    }
}

/// The bytes of a plan are those of its candidates, each counted once.
pub proof fn law_a_plan_frees_its_bytes(plan: Seq<CandidateModel>, candidate: CandidateModel)
    ensures
        plan_bytes(Seq::empty()) == 0,
        plan_bytes(plan.push(candidate)) == plan_bytes(plan) + candidate.bytes,
{
    assert(plan.push(candidate).drop_last() =~= plan);
}

/// What was written less than a day ago, or at a time that is not known, is
/// never a candidate, as long as the age limit is at least one day.
pub proof fn law_fresh_entries_are_kept(
    base_dir: Seq<u8>,
    entry: TmpEntry,
    min_age_days: u64,
    now: Timestamp,
)
    requires
        min_age_days > 0,
        size_and_age(entry.facts, now) matches Some((_, age_days)) ==> age_days is None || age_days
            == Some(0nat),
    ensures
        tmp_candidate(base_dir, entry, min_age_days, now) is None,
{
}

/// A browser profile is a candidate only if it is known to have been idle for
/// the number of days after which it is stale.
pub proof fn law_only_idle_profiles_are_candidates(
    base_dir: Seq<u8>,
    entry: BrowserEntry,
    stale_days: u64,
    now: Timestamp,
)
    ensures
        profile_of(entry, stale_days, now) matches Some(profile) ==> profile_candidate(
            base_dir,
            profile,
        ) is Some ==> is_at_least(profile.age_days, stale_days as nat),
{
}

// ---------------------------------------------------------------------------
// The execution
// ---------------------------------------------------------------------------

/// What the execution of a plan did.
#[derive(Debug)]
pub struct GcResult {
    pub deleted: Vec<GcCandidate>,
    pub failed: Vec<(FilePath, String)>,
    pub reclaimed_bytes: u64,
}

/// What the execution of a plan did.
pub struct ResultModel {
    pub deleted: Seq<CandidateModel>,
    pub failed: Seq<(Seq<u8>, Seq<char>)>,
    pub reclaimed_bytes: u64,
}

impl View for GcResult {
    type V = ResultModel;

    open spec fn view(&self) -> ResultModel {
        ResultModel {
            deleted: candidate_views(self.deleted@),
            failed: failure_views(self.failed@),
            reclaimed_bytes: self.reclaimed_bytes,
        }
    }
}

/// What became of a candidate.
pub enum Fate {
    Refused,
    Deleted,
    Failed(Seq<char>),
}

/// Whether `resolve` can answer the question where a directory really is.
pub open spec fn resolves_to<R: Fn(&FilePath) -> Result<FilePath, String>>(
    resolve: R,
    dir: Seq<u8>,
    answer: Result<Seq<u8>, Seq<char>>,
) -> bool {
    exists|asked: FilePath, found: Result<FilePath, String>|
        asked@ == dir && path_outcome(found) == answer && #[trigger] call_ensures(
            resolve,
            (&asked,),
            found,
        )
}

/// The directory that has to be resolved to say where a path really is: the one
/// that its name stands in, or itself if it has no name.
pub open spec fn dir_to_resolve(path: Seq<u8>) -> Seq<u8> {
    match (parent_path(path), path_name(path)) {
        (Some(parent), Some(_)) => parent,
        _ => path,
    }
}

/// Where a path really is, given where the directory to resolve is: its name in
/// that directory, or that directory if it has no name.
pub open spec fn place_in(dir: Seq<u8>, path: Seq<u8>) -> Seq<u8> {
    match (parent_path(path), path_name(path)) {
        (Some(_), Some(name)) => joined_path(dir, name),
        _ => dir,
    }
}

/// Whether a path can really be at `place`, as far as `resolve` can say.
pub open spec fn leads_to<R: Fn(&FilePath) -> Result<FilePath, String>>(
    resolve: R,
    path: Seq<u8>,
    place: Seq<u8>,
) -> bool {
    exists|dir: Seq<u8>| #[trigger]
        resolves_to(resolve, dir_to_resolve(path), Ok(dir)) && place == place_in(dir, path)
}

/// Whether a path is inside the base directory as it is written, and may
/// really be inside it when every link on the way is followed.
pub open spec fn is_safe<R: Fn(&FilePath) -> Result<FilePath, String>>(
    resolve: R,
    base_dir: Seq<u8>,
    path: Seq<u8>,
) -> bool {
    &&& contained(base_dir, path)
    &&& exists|base: Seq<u8>, place: Seq<u8>| #[trigger]
        resolves_to(resolve, base_dir, Ok(base)) && #[trigger] leads_to(resolve, path, place)
            && contained(base, place)
}

/// Whether a path that is inside the base directory as it is written may
/// really be outside when every link on the way is followed.
pub open spec fn strays<R: Fn(&FilePath) -> Result<FilePath, String>>(
    resolve: R,
    base_dir: Seq<u8>,
    path: Seq<u8>,
) -> bool {
    exists|base: Seq<u8>, place: Seq<u8>| #[trigger]
        resolves_to(resolve, base_dir, Ok(base)) && #[trigger] leads_to(resolve, path, place)
            && !contained(base, place)
}

/// Whether `message` may be why it cannot be said where a path really is.
pub open spec fn is_lost<R: Fn(&FilePath) -> Result<FilePath, String>>(
    resolve: R,
    base_dir: Seq<u8>,
    path: Seq<u8>,
    message: Seq<char>,
) -> bool {
    ||| resolves_to(resolve, base_dir, Err(message))
    ||| resolves_to(resolve, dir_to_resolve(path), Err(message))
}

/// Whether something may be deleted, given where it and the base directory
/// really are: it has a place, and that is inside the base directory.
pub fn may_delete(base_dir: &FilePath, resolved: Option<&FilePath>) -> (allowed: bool)
    ensures
        allowed == (resolved is Some && contained(base_dir@, resolved->0@)),
{
    match resolved {
        Some(path) => is_contained(base_dir, path),
        None => false,
    }
}

/// Where a candidate stands.
enum Standing {
    Inside,
    Outside,
    Lost(String),
}

fn standing<R: Fn(&FilePath) -> Result<FilePath, String>>(
    base_dir: &FilePath,
    path: &FilePath,
    resolve: &R,
) -> (standing: Standing)
    requires
        forall|asked: FilePath| #[trigger] call_requires(*resolve, (&asked,)),
    ensures
        match standing {
            Standing::Inside => is_safe(*resolve, base_dir@, path@),
            Standing::Outside => !contained(base_dir@, path@) || strays(
                *resolve,
                base_dir@,
                path@,
            ),
            Standing::Lost(message) => contained(base_dir@, path@) && is_lost(
                *resolve,
                base_dir@,
                path@,
                message@,
            ),
        },
{
    if !is_contained(base_dir, path) {
        return Standing::Outside;
    }
    let found_base = resolve(base_dir);
    proof {
        assert(resolves_to(*resolve, base_dir@, path_outcome(found_base)));
    }
    let base = match found_base {
        Ok(base) => base,
        Err(message) => {
            return Standing::Lost(message);
        },
    };
    let (to_resolve, name) = match (path.parent(), path.file_name()) {
        (Some(parent), Some(name)) => (parent, Some(name)),
        _ => (path.copy(), None),
    };
    let found_dir = resolve(&to_resolve);
    proof {
        assert(resolves_to(*resolve, dir_to_resolve(path@), path_outcome(found_dir)));
    }
    let dir = match found_dir {
        Ok(dir) => dir,
        Err(message) => {
            return Standing::Lost(message);
        },
    };
    let place = match &name {
        Some(name) => dir.join_name(name),
        None => dir.copy(),
    };
    proof {
        assert(resolves_to(*resolve, base_dir@, Ok(base@)));
        assert(resolves_to(*resolve, dir_to_resolve(path@), Ok(dir@)));
        assert(leads_to(*resolve, path@, place@));
    }
    if may_delete(&base, Some(&place)) {
        Standing::Inside
    } else {
        Standing::Outside
    }
}

/// Whether `fate` can be what becomes of `candidate`: it is refused if it is
/// not inside the base directory, as it is written or really; it fails if it
/// cannot be said where it really is; else it is what `delete` says.
pub open spec fn can_befall<
    R: Fn(&FilePath) -> Result<FilePath, String>,
    F: Fn(&GcCandidate) -> Result<(), String>,
>(fate: Fate, resolve: R, delete: F, base_dir: Seq<u8>, candidate: GcCandidate) -> bool {
    let path = candidate.path@;
    match fate {
        Fate::Refused => !contained(base_dir, path) || strays(resolve, base_dir, path),
        Fate::Deleted => is_safe(resolve, base_dir, path) && call_ensures(
            delete,
            (&candidate,),
            Ok(()),
        ),
        Fate::Failed(message) => {
            ||| contained(base_dir, path) && is_lost(resolve, base_dir, path, message)
            ||| is_safe(resolve, base_dir, path) && exists|error: String|
                error@ == message && #[trigger] call_ensures(delete, (&candidate,), Err(error))
        },
    }
}

/// The candidates that were deleted, in order.
pub open spec fn deleted_by(plan: Seq<CandidateModel>, fates: Seq<Fate>) -> Seq<CandidateModel>
    decreases plan.len(),
{
    if plan.len() == 0 {
        Seq::empty()
    } else if fates.last() is Deleted {
        deleted_by(plan.drop_last(), fates.drop_last()).push(plan.last())
    } else {
        deleted_by(plan.drop_last(), fates.drop_last())
    }
}

/// The candidates that were not deleted, in order, with the reason.
pub open spec fn failed_by(plan: Seq<CandidateModel>, fates: Seq<Fate>) -> Seq<
    (Seq<u8>, Seq<char>),
>
    decreases plan.len(),
{
    if plan.len() == 0 {
        Seq::empty()
    } else {
        let before = failed_by(plan.drop_last(), fates.drop_last());
        match fates.last() {
            Fate::Refused => before.push(
                (plan.last().path, "refused: path is not contained within ~/.dev-browser"@),
            ),
            Fate::Deleted => before,
            Fate::Failed(message) => before.push((plan.last().path, message)),
        }
    }
}

/// The views of a list of failures.
pub open spec fn failure_views(failed: Seq<(FilePath, String)>) -> Seq<(Seq<u8>, Seq<char>)> {
    Seq::new(failed.len(), |i: int| (failed[i].0@, failed[i].1@))
}

/// Whether a result says what became of every candidate of a plan.
pub open spec fn tells(result: ResultModel, plan: Seq<CandidateModel>, fates: Seq<Fate>) -> bool {
    &&& result.deleted == deleted_by(plan, fates)
    &&& result.failed == failed_by(plan, fates)
    &&& result.reclaimed_bytes == plan_bytes(deleted_by(plan, fates))
}

/// Whether `fates` is what became of a plan.
pub open spec fn fates_of<
    R: Fn(&FilePath) -> Result<FilePath, String>,
    F: Fn(&GcCandidate) -> Result<(), String>,
>(fates: Seq<Fate>, resolve: R, delete: F, base_dir: Seq<u8>, plan: Seq<GcCandidate>) -> bool {
    &&& fates.len() == plan.len()
    &&& forall|i: int|
        0 <= i < plan.len() ==> can_befall(
            #[trigger] fates[i],
            resolve,
            delete,
            base_dir,
            plan[i],
        )
}

proof fn lemma_deleted_bytes(plan: Seq<CandidateModel>, fates: Seq<Fate>)
    requires
        fates.len() == plan.len(),
    ensures
        plan_bytes(deleted_by(plan, fates)) <= plan_bytes(plan),
    decreases plan.len(),
{
    if plan.len() > 0 {
        lemma_deleted_bytes(plan.drop_last(), fates.drop_last());
        if fates.last() is Deleted {
            assert(deleted_by(plan, fates).drop_last() =~= deleted_by(
                plan.drop_last(),
                fates.drop_last(),
            ));
        }
    }
}

/// Deletes what a plan lists, by means of `delete`, and nothing else: `delete`
/// is only ever handed a candidate of the plan that is inside the base
/// directory, as it is written and also when, right before, `resolve` has said
/// where the base directory and the directory of the candidate really are. For
/// anything else it need not even be callable.
pub fn execute_gc_plan<
    R: Fn(&FilePath) -> Result<FilePath, String>,
    F: Fn(&GcCandidate) -> Result<(), String>,
>(base_dir: &FilePath, plan: &Vec<GcCandidate>, resolve: R, delete: F) -> (result: GcResult)
    requires
        forall|asked: FilePath| #[trigger] call_requires(resolve, (&asked,)),
        forall|i: int|
            0 <= i < plan@.len() && is_safe(resolve, base_dir@, (#[trigger] plan@[i]).path@)
                ==> call_requires(delete, (&plan@[i],)),
        plan_bytes(candidate_views(plan@)) <= u64::MAX,
    ensures
        exists|fates: Seq<Fate>| #[trigger]
            fates_of(fates, resolve, delete, base_dir@, plan@) && tells(
                result@,
                candidate_views(plan@),
                fates,
            ),
{
    let ghost all = candidate_views(plan@);
    let ghost mut fates: Seq<Fate> = Seq::empty();
    let mut deleted: Vec<GcCandidate> = Vec::new();
    let mut failed: Vec<(FilePath, String)> = Vec::new();
    let mut reclaimed_bytes: u64 = 0;
    let mut i: usize = 0;
    proof {
        assert(candidate_views(deleted@) =~= deleted_by(all.take(0), fates));
        assert(failure_views(failed@) =~= failed_by(all.take(0), fates));
    }
    while i < plan.len()
        invariant
            i <= plan@.len(),
            all == candidate_views(plan@),
            plan_bytes(all) <= u64::MAX,
            forall|asked: FilePath| #[trigger] call_requires(resolve, (&asked,)),
            forall|j: int|
                0 <= j < plan@.len() && is_safe(resolve, base_dir@, (#[trigger] plan@[j]).path@)
                    ==> call_requires(delete, (&plan@[j],)),
            fates.len() == i,
            forall|j: int|
                0 <= j < i ==> can_befall(
                    #[trigger] fates[j],
                    resolve,
                    delete,
                    base_dir@,
                    plan@[j],
                ),
            candidate_views(deleted@) == deleted_by(all.take(i as int), fates),
            failure_views(failed@) == failed_by(all.take(i as int), fates),
            reclaimed_bytes == plan_bytes(deleted_by(all.take(i as int), fates)),
        decreases plan@.len() - i,
    {
        let candidate = &plan[i];
        let ghost earlier = fates;
        let ghost deleted_before = deleted@;
        let ghost failed_before = failed@;
        let ghost fate: Fate;
        proof {
            assert(all.take(i + 1).drop_last() =~= all.take(i as int));
            assert(all.take(i + 1).last() == candidate@);
            lemma_deleted_bytes(all.take(i as int), fates);
            lemma_plan_bytes_grow(all, i + 1);
        }
        match standing(base_dir, &candidate.path, &resolve) {
            Standing::Outside => {
                failed.push(
                    (
                        candidate.path.copy(),
                        "refused: path is not contained within ~/.dev-browser".to_string(),
                    ),
                );
                proof {
                    fate = Fate::Refused;
                    assert(failure_views(failed@) =~= failure_views(failed_before).push(
                        (candidate.path@, "refused: path is not contained within ~/.dev-browser"@),
                    ));
                }
            },
            Standing::Lost(message) => {
                proof {
                    fate = Fate::Failed(message@);
                }
                let ghost words = message@;
                failed.push((candidate.path.copy(), message));
                proof {
                    assert(failure_views(failed@) =~= failure_views(failed_before).push(
                        (candidate.path@, words),
                    ));
                }
            },
            Standing::Inside => {
                let outcome = delete(candidate);
                match outcome {
                    Ok(nothing) => {
                        reclaimed_bytes = reclaimed_bytes + candidate.bytes;
                        deleted.push(candidate.copy());
                        proof {
                            fate = Fate::Deleted;
                            assert(call_ensures(delete, (candidate,), Ok(nothing)));
                            assert(candidate_views(deleted@) =~= candidate_views(
                                deleted_before,
                            ).push(candidate@));
                            assert(candidate_views(deleted@).drop_last() =~= candidate_views(
                                deleted_before,
                            ));
                        }
                    },
                    Err(error) => {
                        proof {
                            fate = Fate::Failed(error@);
                            assert(call_ensures(delete, (candidate,), Err(error)));
                        }
                        let ghost message = error@;
                        failed.push((candidate.path.copy(), error));
                        proof {
                            assert(failure_views(failed@) =~= failure_views(failed_before).push(
                                (candidate.path@, message),
                            ));
                        }
                    },
                }
            },
        }
        proof {
            assert(can_befall(fate, resolve, delete, base_dir@, *candidate));
        }
        proof {
            fates = earlier.push(fate);
            assert(fates.drop_last() =~= earlier);
            assert(fates.last() == fate);
            assert forall|j: int| 0 <= j < i + 1 implies can_befall(
                #[trigger] fates[j],
                resolve,
                delete,
                base_dir@,
                plan@[j],
            ) by {
                if j < i {
                    assert(fates[j] == earlier[j]);
                }
            }
        }
        i = i + 1;
    }
    let result = GcResult { deleted, failed, reclaimed_bytes };
    proof {
        assert(all.take(all.len() as int) =~= all);
        assert(fates_of(fates, resolve, delete, base_dir@, plan@));
        assert(tells(result@, all, fates));
    }
    result
}

/// Only what is inside the base directory is deleted, as it is written and when
/// links are followed, and every candidate of a plan is either deleted or
/// reported as failed.
pub proof fn law_execution_stays_inside<
    R: Fn(&FilePath) -> Result<FilePath, String>,
    F: Fn(&GcCandidate) -> Result<(), String>,
>(fates: Seq<Fate>, resolve: R, delete: F, base_dir: Seq<u8>, plan: Seq<GcCandidate>)
    requires
        fates_of(fates, resolve, delete, base_dir, plan),
    ensures
        forall|i: int|
            0 <= i < deleted_by(candidate_views(plan), fates).len() ==> is_safe(
                resolve,
                base_dir,
                (#[trigger] deleted_by(candidate_views(plan), fates)[i]).path,
            ),
        deleted_by(candidate_views(plan), fates).len() + failed_by(
            candidate_views(plan),
            fates,
        ).len() == plan.len(),
    decreases plan.len(),
{
    if plan.len() > 0 {
        let last = plan.len() - 1;
        assert(candidate_views(plan).drop_last() =~= candidate_views(plan.drop_last()));
        assert forall|i: int| 0 <= i < last implies can_befall(
            #[trigger] fates.drop_last()[i],
            resolve,
            delete,
            base_dir,
            plan.drop_last()[i],
        ) by {
            assert(fates[i] == fates.drop_last()[i]);
        }
        law_execution_stays_inside(fates.drop_last(), resolve, delete, base_dir, plan.drop_last());
        assert(can_befall(fates[last], resolve, delete, base_dir, plan[last]));
        let before = deleted_by(candidate_views(plan.drop_last()), fates.drop_last());
        assert forall|i: int| 0 <= i < deleted_by(candidate_views(plan), fates).len() implies is_safe(
            resolve,
            base_dir,
            (#[trigger] deleted_by(candidate_views(plan), fates)[i]).path,
        ) by {
            if i < before.len() {
                assert(deleted_by(candidate_views(plan), fates)[i] == before[i]);
            }
        }
    }
}

/// A candidate below a directory that leads out of the base directory is
/// reported as refused and is not deleted: if the base directory and the
/// candidate's directory can only resolve in one way, and the candidate is then
/// outside, no other fate can befall it.
pub proof fn law_a_link_that_leads_out_is_refused<
    R: Fn(&FilePath) -> Result<FilePath, String>,
    F: Fn(&GcCandidate) -> Result<(), String>,
>(
    fate: Fate,
    resolve: R,
    delete: F,
    base_dir: Seq<u8>,
    candidate: GcCandidate,
    base: Seq<u8>,
    dir: Seq<u8>,
)
    requires
        can_befall(fate, resolve, delete, base_dir, candidate),
        forall|answer: Result<Seq<u8>, Seq<char>>| #[trigger]
            resolves_to(resolve, base_dir, answer) ==> answer == Ok::<Seq<u8>, Seq<char>>(base),
        forall|answer: Result<Seq<u8>, Seq<char>>| #[trigger]
            resolves_to(resolve, dir_to_resolve(candidate.path@), answer) ==> answer == Ok::<
                Seq<u8>,
                Seq<char>,
            >(dir),
        !contained(base, place_in(dir, candidate.path@)),
    ensures
        fate is Refused,
{
}

/// A candidate that is inside the base directory, as it is written and when links
/// are followed, is deleted, if it can be.
pub proof fn law_what_can_go_is_deleted<
    R: Fn(&FilePath) -> Result<FilePath, String>,
    F: Fn(&GcCandidate) -> Result<(), String>,
>(
    fate: Fate,
    resolve: R,
    delete: F,
    base_dir: Seq<u8>,
    candidate: GcCandidate,
    base: Seq<u8>,
    dir: Seq<u8>,
)
    requires
        can_befall(fate, resolve, delete, base_dir, candidate),
        contained(base_dir, candidate.path@),
        forall|answer: Result<Seq<u8>, Seq<char>>| #[trigger]
            resolves_to(resolve, base_dir, answer) ==> answer == Ok::<Seq<u8>, Seq<char>>(base),
        forall|answer: Result<Seq<u8>, Seq<char>>| #[trigger]
            resolves_to(resolve, dir_to_resolve(candidate.path@), answer) ==> answer == Ok::<
                Seq<u8>,
                Seq<char>,
            >(dir),
        contained(base, place_in(dir, candidate.path@)),
        forall|outcome: Result<(), String>| #[trigger]
            call_ensures(delete, (&candidate,), outcome) ==> outcome is Ok,
    ensures
        fate is Deleted,
{
}

/// A candidate that is not inside the base directory as it is written is refused,
/// whatever the disk says.
pub proof fn law_what_is_outside_is_refused<
    R: Fn(&FilePath) -> Result<FilePath, String>,
    F: Fn(&GcCandidate) -> Result<(), String>,
>(fate: Fate, resolve: R, delete: F, base_dir: Seq<u8>, candidate: GcCandidate)
    requires
        can_befall(fate, resolve, delete, base_dir, candidate),
        !contained(base_dir, candidate.path@),
    ensures
        fate is Refused,
{
}

/// What follows the links to a name is the directory that the name stands in, and
/// the name is then looked for in the place that this directory turns out to be.
pub proof fn law_a_name_is_placed_where_its_directory_is(
    dir: Seq<u8>,
    name: Seq<u8>,
    found: Seq<u8>,
)
    requires
        is_plain_name(name),
    ensures
        dir_to_resolve(joined_path(dir, name)) == stripped(dir),
        place_in(found, joined_path(dir, name)) == joined_path(found, name),
{
    law_name_and_parent_undo_join(dir, name);
}

/// A result tells the fate of every candidate, in the order of the plan: what was
/// deleted is listed as deleted, and its bytes count as freed; anything else is
/// listed as failed, with the reason.
pub proof fn law_a_result_tells_every_fate(
    result: ResultModel,
    plan: Seq<CandidateModel>,
    fates: Seq<Fate>,
    candidate: CandidateModel,
    fate: Fate,
)
    requires
        fates.len() == plan.len(),
        tells(result, plan.push(candidate), fates.push(fate)),
    ensures
        fate is Deleted ==> {
            &&& result.deleted == deleted_by(plan, fates).push(candidate)
            &&& result.failed == failed_by(plan, fates)
            &&& result.reclaimed_bytes == plan_bytes(deleted_by(plan, fates)) + candidate.bytes
        },
        !(fate is Deleted) ==> {
            &&& result.deleted == deleted_by(plan, fates)
            &&& result.failed.len() == failed_by(plan, fates).len() + 1
            &&& result.failed.drop_last() == failed_by(plan, fates)
            &&& result.failed.last().0 == candidate.path
            &&& result.reclaimed_bytes == plan_bytes(deleted_by(plan, fates))
        },
        fate is Refused ==> result.failed.last().1
            == "refused: path is not contained within ~/.dev-browser"@,
        fate matches Fate::Failed(message) ==> result.failed.last().1 == message,
        deleted_by(Seq::empty(), Seq::empty()).len() == 0,
        failed_by(Seq::empty(), Seq::empty()).len() == 0,
{
    assert(plan.push(candidate).drop_last() =~= plan);
    assert(fates.push(fate).drop_last() =~= fates);
    let before = failed_by(plan, fates);
    assert(fate is Refused ==> result.failed.drop_last() =~= before);
    assert(fate is Failed ==> result.failed.drop_last() =~= before);
    assert(fate is Deleted ==> result.deleted.drop_last() =~= deleted_by(plan, fates));
}

/// What is reported and planned is modelled by what it says.
pub proof fn law_reports_are_modelled_by_what_they_say(
    dir: DirReport,
    profile: BrowserProfileReport,
    candidate: GcCandidate,
    report: DoctorReport,
    result: GcResult,
)
    ensures
        dir@ == (DirModel {
            label: dir.label@,
            path: dir.path@,
            exists: dir.exists,
            total_bytes: dir.total_bytes,
            file_count: dir.file_count,
        }),
        profile@.name == profile.name@ && profile@.path == profile.path@,
        profile@.total_bytes == profile.total_bytes && profile@.file_count == profile.file_count,
        profile@.age_days == age_view(profile.age_days) && profile@.stale == profile.stale,
        candidate@.kind == candidate.kind@ && candidate@.path == candidate.path@,
        candidate@.bytes == candidate.bytes && candidate@.age_days == age_view(candidate.age_days),
        report@.base_dir == report.base_dir@ && report@.base_dir_exists == report.base_dir_exists,
        report@.daemon_running == report.daemon_running && report@.daemon_pid == report.daemon_pid,
        report@.log_path == optional_path(report.log_path) && report@.stale_days
            == report.stale_days,
        report@.dirs.len() == report.dirs@.len(),
        forall|i: int|
            0 <= i < report.dirs@.len() ==> #[trigger] report@.dirs[i] == report.dirs@[i]@,
        report@.browser_profiles.len() == report.browser_profiles@.len(),
        forall|i: int|
            0 <= i < report.browser_profiles@.len() ==> #[trigger] report@.browser_profiles[i]
                == report.browser_profiles@[i]@,
        result@.deleted.len() == result.deleted@.len(),
        forall|i: int|
            0 <= i < result.deleted@.len() ==> #[trigger] result@.deleted[i]
                == result.deleted@[i]@,
        result@.failed.len() == result.failed@.len(),
        forall|i: int|
            0 <= i < result.failed@.len() ==> #[trigger] result@.failed[i] == (
                result.failed@[i].0@,
                result.failed@[i].1@,
            ),
        result@.reclaimed_bytes == result.reclaimed_bytes,
{
}

/// Unless told otherwise, an entry has to be a day old to be a candidate, and a
/// profile is stale after thirty days.
pub proof fn law_the_limits_unless_told_otherwise(
    base_dir: Seq<u8>,
    path: FilePath,
    len: u64,
    time: Timestamp,
    entry: BrowserEntry,
    now: Timestamp,
)
    requires
        entry.walk matches Some(walk) && walk.newest_modified == Some(time),
    ensures
        ({
            let elapsed = (now.secs - time.secs) * 1_000_000_000 + (now.nanos - time.nanos);
            let file = TmpEntry { path, facts: TmpFacts::File { len, modified: Some(time) } };
            &&& tmp_candidate(base_dir, file, DEFAULT_MIN_AGE_DAYS, now) is Some <==> contained(
                base_dir,
                path@,
            ) && elapsed >= 86_400_000_000_000
            &&& profile_of(entry, DEFAULT_STALE_DAYS, now) is Some
            &&& profile_of(entry, DEFAULT_STALE_DAYS, now)->0.stale <==> elapsed >= 30
                * 86_400_000_000_000
        }),
{
    law_old_enough_is_by_the_clock(time, now, DEFAULT_MIN_AGE_DAYS as nat);
    law_old_enough_is_by_the_clock(time, now, DEFAULT_STALE_DAYS as nat);
}

/// A path that has no name is resolved itself, and is where that leads to.
pub proof fn law_a_path_without_a_name_is_resolved_itself(path: Seq<u8>, found: Seq<u8>)
    requires
        path_name(path) is None,
    ensures
        dir_to_resolve(path) == path,
        place_in(found, path) == found,
{
}

/// On a disk that does not change, the fate of a candidate is settled by where it and
/// the base directory are on it: outside, as it is written or really, it is refused;
/// if that cannot be said it fails, for the disk's own reason; and inside it is
/// deleted, or fails for the reason that the deletion gives.
pub proof fn law_the_disk_settles_the_fate<
    R: Fn(&FilePath) -> Result<FilePath, String>,
    F: Fn(&GcCandidate) -> Result<(), String>,
>(
    fate: Fate,
    resolve: R,
    delete: F,
    base_dir: Seq<u8>,
    candidate: GcCandidate,
    disk: spec_fn(Seq<u8>) -> Result<Seq<u8>, Seq<char>>,
)
    requires
        can_befall(fate, resolve, delete, base_dir, candidate),
        forall|asked: FilePath, found: Result<FilePath, String>| #[trigger]
            call_ensures(resolve, (&asked,), found) ==> path_outcome(found) == disk(asked@),
    ensures
        ({
            let path = candidate.path@;
            let base = disk(base_dir);
            let dir = disk(dir_to_resolve(path));
            &&& !contained(base_dir, path) ==> fate is Refused
            &&& contained(base_dir, path) && (base is Err || dir is Err) ==> {
                &&& fate is Failed
                &&& base == Err::<Seq<u8>, Seq<char>>(fate->Failed_0) || dir == Err::<
                    Seq<u8>,
                    Seq<char>,
                >(fate->Failed_0)
            }
            &&& contained(base_dir, path) && base is Ok && dir is Ok ==> {
                let inside = contained(base->Ok_0, place_in(dir->Ok_0, path));
                &&& fate is Refused <==> !inside
                &&& fate is Deleted ==> inside && call_ensures(delete, (&candidate,), Ok(()))
                &&& fate matches Fate::Failed(message) ==> inside && exists|error: String|
                    error@ == message && #[trigger] call_ensures(
                        delete,
                        (&candidate,),
                        Err(error),
                    )
            }
        }),
{
    let path = candidate.path@;
    assert forall|dir: Seq<u8>, answer: Result<Seq<u8>, Seq<char>>| #[trigger]
        resolves_to(resolve, dir, answer) implies answer == disk(dir) by {
        let (asked, found): (FilePath, Result<FilePath, String>) = choose|
            asked: FilePath,
            found: Result<FilePath, String>,
        |
            asked@ == dir && path_outcome(found) == answer && #[trigger] call_ensures(
                resolve,
                (&asked,),
                found,
            );
        assert(path_outcome(found) == disk(asked@));
    }
}

} // verus!
