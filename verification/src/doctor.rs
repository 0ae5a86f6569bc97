//! `dev-browser doctor`: what is on disk under `~/.dev-browser`, and an opt-in
//! garbage collector for it.
//!
//! The collector only ever plans a deletion until it is confirmed as well.
//! Named browser profiles, which can hold a logged-in session, are candidates
//! only on request. Every path is held against the base directory again right
//! before it is deleted.

use vstd::prelude::*;

use crate::paths::{
    component_views, is_plain_name, joined_path, law_join_adds_one_part, path_parts,
    same_component, Component, FilePath, PathPart,
};

verus! {

/// How many days a browser profile may be unused before it counts as stale,
/// unless told otherwise.
pub const DEFAULT_STALE_DAYS: u64 = 30;

/// How many days old an entry of the temporary directory has to be before it
/// can be collected, unless told otherwise.
pub const DEFAULT_MIN_AGE_DAYS: u64 = 1;

/// The seconds of a day.
pub const SECONDS_PER_DAY: u64 = 86_400;

/// What the command line asks of the doctor.
#[derive(Debug)]
pub struct DoctorOptions {
    pub json: bool,
    pub gc: bool,
    pub confirm: bool,
    pub include_browser_profiles: bool,
    pub stale_days: u64,
    pub min_age_days: u64,
}

// ---------------------------------------------------------------------------
// Containment
// ---------------------------------------------------------------------------

/// Whether `candidate` is lexically inside `root`: it has the parts of `root`
/// in front, and no part that leads up again.
pub open spec fn contained(root: Seq<u8>, candidate: Seq<u8>) -> bool {
    &&& path_parts(root).is_prefix_of(path_parts(candidate))
    &&& !path_parts(candidate).contains(PathPart::Parent)
}

/// The guard that every deletion has to pass.
pub fn is_contained(root: &FilePath, candidate: &FilePath) -> (inside: bool)
    ensures
        inside == contained(root@, candidate@),
{
    let above = root.components();
    let parts = candidate.components();
    let ghost root_parts = path_parts(root@);
    let ghost candidate_parts = path_parts(candidate@);
    if above.len() > parts.len() {
        return false;
    }
    let mut i: usize = 0;
    while i < above.len()
        invariant
            i <= above@.len() <= parts@.len(),
            component_views(above@) == root_parts,
            component_views(parts@) == candidate_parts,
            root_parts == path_parts(root@),
            candidate_parts == path_parts(candidate@),
            forall|j: int| 0 <= j < i ==> root_parts[j] == candidate_parts[j],
        decreases above@.len() - i,
    {
        if !same_component(&above[i], &parts[i]) {
            proof {
                assert(root_parts[i as int] != candidate_parts[i as int]);
                assert(candidate_parts.subrange(0, root_parts.len() as int)[i as int]
                    == candidate_parts[i as int]);
            }
            return false;
        }
        proof {
            assert(root_parts[i as int] == above@[i as int]@);
            assert(candidate_parts[i as int] == parts@[i as int]@);
        }
        i = i + 1;
    }
    proof {
        assert(root_parts =~= candidate_parts.subrange(0, root_parts.len() as int));
    }
    let mut k: usize = 0;
    while k < parts.len()
        invariant
            k <= parts@.len(),
            component_views(parts@) == candidate_parts,
            candidate_parts == path_parts(candidate@),
            forall|j: int| 0 <= j < k ==> candidate_parts[j] != PathPart::Parent,
        decreases parts@.len() - k,
    {
        proof {
            assert(candidate_parts[k as int] == parts@[k as int]@);
        }
        if let Component::ParentDir = parts[k] {
            return false;
        }
        k = k + 1;
    }
    true
}

/// Where a path leads, when every `..` in it takes back the name before it.
pub open spec fn resolved(parts: Seq<PathPart>) -> Seq<PathPart>
    decreases parts.len(),
{
    if parts.len() == 0 {
        Seq::empty()
    } else {
        let before = resolved(parts.drop_last());
        match parts.last() {
            PathPart::Current => before,
            PathPart::Parent => if before.len() > 0 && before.last() is Normal {
                before.drop_last()
            } else if before.len() > 0 && before.last() is Root {
                before
            } else {
                before.push(PathPart::Parent)
            },
            part => before.push(part),
        }
    }
}

proof fn lemma_resolved_prefix(parts: Seq<PathPart>, count: int)
    requires
        0 <= count <= parts.len(),
        !parts.contains(PathPart::Parent),
    ensures
        resolved(parts.take(count)).is_prefix_of(resolved(parts)),
    decreases parts.len(),
{
    if count == parts.len() {
        assert(parts.take(count) =~= parts);
        assert(resolved(parts).subrange(0, resolved(parts).len() as int) =~= resolved(parts));
    } else {
        let before = parts.drop_last();
        assert forall|part: PathPart| before.contains(part) implies parts.contains(part) by {
            let i = choose|i: int| 0 <= i < before.len() && before[i] == part;
            assert(parts[i] == part);
        }
        lemma_resolved_prefix(before, count);
        assert(before.take(count) =~= parts.take(count));
        assert(parts[parts.len() - 1] == parts.last());
        let inner = resolved(parts.take(count));
        assert(resolved(before).subrange(0, inner.len() as int) =~= resolved(parts).subrange(
            0,
            inner.len() as int,
        ));
    }
}

/// What is contained in a directory does not lead out of it: taking back a
/// name for every `..` ends inside the directory.
pub proof fn law_contained_paths_stay_inside(root: Seq<u8>, candidate: Seq<u8>)
    requires
        contained(root, candidate),
    ensures
        resolved(path_parts(root)).is_prefix_of(resolved(path_parts(candidate))),
{
    let parts = path_parts(candidate);
    assert(parts.take(path_parts(root).len() as int) =~= path_parts(root));
    lemma_resolved_prefix(parts, path_parts(root).len() as int);
}

/// A plain name below something contained is contained as well.
pub proof fn law_names_below_are_contained(root: Seq<u8>, dir: Seq<u8>, name: Seq<u8>)
    requires
        contained(root, dir),
        is_plain_name(name),
    ensures
        contained(root, joined_path(dir, name)),
{
    law_join_adds_one_part(dir, name);
    let above = path_parts(dir);
    let below = path_parts(joined_path(dir, name));
    assert(above.subrange(0, path_parts(root).len() as int) =~= below.subrange(
        0,
        path_parts(root).len() as int,
    ));
    assert forall|i: int| 0 <= i < below.len() implies below[i] != PathPart::Parent by {
        if i < above.len() {
            assert(below[i] == above[i]);
            assert(above.contains(above[i]));
        }
    }
}

/// What is contained in a directory is that directory with parts below it, none
/// of which, on the whole way, leads up again; and whatever is so is contained.
pub proof fn law_contained_is_below(root: Seq<u8>, candidate: Seq<u8>, below: Seq<PathPart>)
    ensures
        contained(root, candidate) ==> {
            &&& path_parts(root).len() <= path_parts(candidate).len()
            &&& path_parts(candidate) == path_parts(root) + path_parts(candidate).skip(
                path_parts(root).len() as int,
            )
            &&& forall|i: int|
                0 <= i < path_parts(candidate).len() ==> !(#[trigger] path_parts(
                    candidate,
                )[i] is Parent)
        },
        path_parts(candidate) == path_parts(root) + below && (forall|i: int|
            0 <= i < path_parts(candidate).len() ==> !(#[trigger] path_parts(
                candidate,
            )[i] is Parent)) ==> contained(root, candidate),
{
    let above = path_parts(root);
    let parts = path_parts(candidate);
    if contained(root, candidate) {
        assert(parts =~= above + parts.skip(above.len() as int)) by {
            assert(above =~= parts.subrange(0, above.len() as int));
            assert forall|i: int| 0 <= i < above.len() implies parts[i] == above[i] by {
                assert(parts.subrange(0, above.len() as int)[i] == parts[i]);
            }
        }
        assert forall|i: int| 0 <= i < parts.len() implies !(#[trigger] parts[i] is Parent) by {
            assert(parts.contains(parts[i]));
        }
    }
    if parts == above + below {
        assert(parts.subrange(0, above.len() as int) =~= above);
    }
}

// ---------------------------------------------------------------------------
// Ages
// ---------------------------------------------------------------------------

/// A point in time, counted from the epoch.
#[derive(Debug, Clone, Copy)]
pub struct Timestamp {
    pub secs: i64,
    pub nanos: u32,
}

/// The nanoseconds between the epoch and a point in time.
pub open spec fn nanoseconds(time: Timestamp) -> int {
    time.secs * 1_000_000_000 + time.nanos
}

/// The whole days between two points in time, if they are in this order.
pub open spec fn days_between(modified: Option<Timestamp>, now: Timestamp) -> Option<nat> {
    match modified {
        Some(modified) => if nanoseconds(modified) > nanoseconds(now) {
            None
        } else {
            Some(
                ((nanoseconds(now) - nanoseconds(modified)) / 1_000_000_000
                    / SECONDS_PER_DAY as int) as nat,
            )
        },
        None => None,
    }
}

/// An age, as a number.
pub open spec fn age_view(age_days: Option<u64>) -> Option<nat> {
    match age_days {
        Some(days) => Some(days as nat),
        None => None,
    }
}

fn nanoseconds_of(time: Timestamp) -> (count: i128)
    ensures
        count == nanoseconds(time),
        -0x8000_0000_0000_0000 * 1_000_000_000 <= count <= 0x8000_0000_0000_0000 * 1_000_000_000
            + 0x1_0000_0000,
{
    time.secs as i128 * 1_000_000_000 + time.nanos as i128
}

/// The age in days of what was modified at some time, if that is known and not
/// in the future.
pub fn age_in_days(modified: Option<Timestamp>, now: Timestamp) -> (days: Option<u64>)
    ensures
        age_view(days) == days_between(modified, now),
{
    match modified {
        Some(modified) => {
            let then: i128 = nanoseconds_of(modified);
            let here: i128 = nanoseconds_of(now);
            if then > here {
                return None;
            }
            let elapsed: u128 = (here - then) as u128;
            let days: u128 = elapsed / 1_000_000_000 / 86_400;
            Some(days as u64)
        },
        None => None,
    }
}

/// Whether an age is known and at least `limit` days.
pub open spec fn is_at_least(age_days: Option<nat>, limit: nat) -> bool {
    match age_days {
        Some(days) => days >= limit,
        None => false,
    }
}

/// Whether an age is known and at least `limit` days.
pub fn at_least(age_days: Option<u64>, limit: u64) -> (yes: bool)
    ensures
        yes == is_at_least(age_view(age_days), limit as nat),
{
    match age_days {
        Some(days) => days >= limit,
        None => false,
    }
}

/// An age is the number of whole days that have passed, each of twenty-four
/// hours, and is unknown exactly if the time is, or is yet to come.
pub proof fn law_age_is_in_whole_days(modified: Timestamp, now: Timestamp)
    ensures
        ({
            let elapsed = (now.secs - modified.secs) * 1_000_000_000 + (now.nanos
                - modified.nanos);
            &&& days_between(Some(modified), now) is None <==> elapsed < 0
            &&& days_between(Some(modified), now) matches Some(days) ==> days
                * 86_400_000_000_000 <= elapsed < (days + 1) * 86_400_000_000_000
        }),
        days_between(None, now) is None,
{
}

/// Something is at least so many days old exactly if that many days have passed
/// since it was modified.
pub proof fn law_old_enough_is_by_the_clock(modified: Timestamp, now: Timestamp, limit: nat)
    ensures
        is_at_least(days_between(Some(modified), now), limit) <==> (now.secs - modified.secs)
            * 1_000_000_000 + (now.nanos - modified.nanos) >= limit * 86_400_000_000_000,
        !is_at_least(days_between(None, now), limit),
{
    law_age_is_in_whole_days(modified, now);
}

// ---------------------------------------------------------------------------
// Walking a directory
// ---------------------------------------------------------------------------

/// What a walk through a directory found.
#[derive(Debug, Clone, Copy)]
pub struct DirWalk {
    pub total_bytes: u64,
    pub file_count: u64,
    pub newest_modified: Option<Timestamp>,
}

/// An entry of a directory. Symbolic links and what cannot be looked at are
/// skipped, so that nothing is counted twice and no loop is ever entered.
#[derive(Debug)]
pub enum Listed {
    Directory(FilePath),
    File { len: u64, modified: Option<Timestamp> },
    Skipped,
}

/// What an entry of a directory is, links not followed.
#[derive(Debug, Clone, Copy, PartialEq, Eq, Structural)]
pub enum FileKind {
    Directory,
    File,
    Link,
    Other,
    Unknown,
}

/// The length of a file, and when it was modified, if that is known.
#[derive(Debug, Clone, Copy)]
pub struct FileFacts {
    pub len: u64,
    pub modified: Option<Timestamp>,
}

/// Decides how an entry counts for a walk: a directory is looked into, a file
/// counts if something is known of it, and everything else is skipped.
pub fn listed_as(kind: FileKind, path: FilePath, facts: Option<FileFacts>) -> (listed: Listed)
    ensures
        match (kind, facts) {
            (FileKind::Directory, _) => listed == Listed::Directory(path),
            (FileKind::File, Some(facts)) => listed == (Listed::File {
                len: facts.len,
                modified: facts.modified,
            }),
            _ => listed is Skipped,
        },
{
    match (kind, facts) {
        (FileKind::Directory, _) => Listed::Directory(path),
        (FileKind::File, Some(facts)) => Listed::File {
            len: facts.len,
            modified: facts.modified,
        },
        _ => Listed::Skipped,
    }
}

/// The bytes of the files in a listing.
pub open spec fn listed_bytes(entries: Seq<Listed>) -> nat
    decreases entries.len(),
{
    if entries.len() == 0 {
        0
    } else {
        listed_bytes(entries.drop_last()) + match entries.last() {
            Listed::File { len, .. } => len as nat,
            _ => 0,
        }
    }
}

/// The number of files in a listing.
pub open spec fn listed_files(entries: Seq<Listed>) -> nat
    decreases entries.len(),
{
    if entries.len() == 0 {
        0
    } else {
        listed_files(entries.drop_last()) + if entries.last() is File {
            1nat
        } else {
            0nat
        }
    }
}

/// The later of two points in time; the first where neither is later.
pub open spec fn later(newest: Option<Timestamp>, modified: Option<Timestamp>) -> Option<Timestamp> {
    match (newest, modified) {
        (_, None) => newest,
        (None, Some(_)) => modified,
        (Some(current), Some(other)) => if nanoseconds(current) >= nanoseconds(other) {
            newest
        } else {
            modified
        },
    }
}

/// The latest modification among what was seen before and a listing.
pub open spec fn latest(newest: Option<Timestamp>, entries: Seq<Listed>) -> Option<Timestamp>
    decreases entries.len(),
{
    if entries.len() == 0 {
        newest
    } else {
        let before = latest(newest, entries.drop_last());
        match entries.last() {
            Listed::File { modified, .. } => later(before, modified),
            _ => before,
        }
    }
}

/// The directories in a listing, in order.
pub open spec fn listed_dirs(entries: Seq<Listed>) -> Seq<Seq<u8>>
    decreases entries.len(),
{
    if entries.len() == 0 {
        Seq::empty()
    } else {
        match entries.last() {
            Listed::Directory(path) => listed_dirs(entries.drop_last()).push(path@),
            _ => listed_dirs(entries.drop_last()),
        }
    }
}

/// The bytes of a list of paths.
pub open spec fn path_views(paths: Seq<FilePath>) -> Seq<Seq<u8>> {
    Seq::new(paths.len(), |i: int| paths[i]@)
}

/// A walk that is under way: what it found so far, and the directories that it
/// has still to look into.
#[derive(Debug)]
pub struct DirWalker {
    pub walk: DirWalk,
    pub pending: Vec<FilePath>,
}

fn later_of(newest: Option<Timestamp>, modified: Option<Timestamp>) -> (latest: Option<Timestamp>)
    ensures
        latest == later(newest, modified),
{
    match (newest, modified) {
        (_, None) => newest,
        (None, Some(_)) => modified,
        (Some(current), Some(other)) => if nanoseconds_of(current) >= nanoseconds_of(other) {
            newest
        } else {
            modified
        },
    }
}

proof fn lemma_listed_grows(entries: Seq<Listed>, k: int)
    requires
        0 <= k <= entries.len(),
    ensures
        listed_bytes(entries.take(k)) <= listed_bytes(entries),
        listed_files(entries.take(k)) <= listed_files(entries),
    decreases entries.len() - k,
{
    if k < entries.len() {
        lemma_listed_grows(entries, k + 1);
        assert(entries.take(k + 1).drop_last() =~= entries.take(k));
    } else {
        assert(entries.take(k) =~= entries);
    }
}

/// Every file of a listing counts once, with its bytes, and nothing else does;
/// every directory is kept for later, in the order of the listing.
pub proof fn law_every_listed_file_counts(entries: Seq<Listed>, entry: Listed)
    ensures
        listed_bytes(Seq::empty()) == 0,
        listed_files(Seq::empty()) == 0,
        listed_dirs(Seq::empty()).len() == 0,
        listed_bytes(entries.push(entry)) - listed_bytes(entries) == match entry {
            Listed::File { len, .. } => len as int,
            _ => 0,
        },
        listed_files(entries.push(entry)) - listed_files(entries) == match entry {
            Listed::File { .. } => 1int,
            _ => 0,
        },
        match entry {
            Listed::Directory(path) => listed_dirs(entries.push(entry)) == listed_dirs(
                entries,
            ).push(path@),
            _ => listed_dirs(entries.push(entry)) == listed_dirs(entries),
        },
{
    assert(entries.push(entry).drop_last() =~= entries);
}

/// The time that a walk keeps is that of a file that it saw, or the one that it
/// had before, and none that it saw is later.
pub proof fn law_the_newest_time_is_kept(newest: Option<Timestamp>, entries: Seq<Listed>)
    ensures
        newest is Some ==> latest(newest, entries) is Some,
        newest matches Some(time) ==> {
            let kept = latest(newest, entries)->0;
            kept.secs * 1_000_000_000 + kept.nanos >= time.secs * 1_000_000_000 + time.nanos
        },
        forall|i: int|
            0 <= i < entries.len() ==> ((#[trigger] entries[i]) matches Listed::File {
                modified: Some(time),
                ..
            } ==> {
                let kept = latest(newest, entries)->0;
                &&& latest(newest, entries) is Some
                &&& kept.secs * 1_000_000_000 + kept.nanos >= time.secs * 1_000_000_000
                    + time.nanos
            }),
        latest(newest, entries) == newest || exists|i: int|
            0 <= i < entries.len() && ((#[trigger] entries[i]) matches Listed::File {
                modified,
                ..
            } && modified == latest(newest, entries)),
    decreases entries.len(),
{
    if entries.len() > 0 {
        let before = entries.drop_last();
        let last = entries.len() - 1;
        law_the_newest_time_is_kept(newest, before);
        assert(entries[last] == entries.last());
        assert forall|i: int| 0 <= i < entries.len() implies ((
        #[trigger] entries[i]) matches Listed::File { modified: Some(time), .. } ==> {
            let kept = latest(newest, entries)->0;
            &&& latest(newest, entries) is Some
            &&& kept.secs * 1_000_000_000 + kept.nanos >= time.secs * 1_000_000_000 + time.nanos
        }) by {
            if i < last {
                assert(before[i] == entries[i]);
            }
        }
        if latest(newest, entries) != newest && latest(newest, entries) == latest(newest, before) {
            let i = choose|i: int|
                0 <= i < before.len() && ((#[trigger] before[i]) matches Listed::File {
                    modified,
                    ..
                } && modified == latest(newest, before));
            assert(entries[i] == before[i]);
        }
    }
}

/// Whether a walker has only just started, at `root`.
pub open spec fn starts_at(walker: DirWalker, root: Seq<u8>) -> bool {
    &&& walker.walk == (DirWalk { total_bytes: 0, file_count: 0, newest_modified: None })
    &&& path_views(walker.pending@) == seq![root]
}

/// Whether a walker took `dir` as the next directory to look into: the last of
/// those that were pending.
pub open spec fn takes_next(before: DirWalker, dir: FilePath, after: DirWalker) -> bool {
    &&& before.pending@.len() > 0
    &&& dir@ == before.pending@.last()@
    &&& after.pending@ == before.pending@.drop_last()
    &&& after.walk == before.walk
}

/// Whether a walker took in the listing of a directory: its files are counted,
/// and its directories are put at the end of those that are pending.
pub open spec fn takes_in(before: DirWalker, entries: Seq<Listed>, after: DirWalker) -> bool {
    &&& after.walk.total_bytes == before.walk.total_bytes + listed_bytes(entries)
    &&& after.walk.file_count == before.walk.file_count + listed_files(entries)
    &&& after.walk.newest_modified == latest(before.walk.newest_modified, entries)
    &&& path_views(after.pending@) == path_views(before.pending@) + listed_dirs(entries)
}

impl DirWalker {
    /// Starts a walk through the directory `root` and all below it.
    pub fn walk_dir(root: &FilePath) -> (walker: DirWalker)
        ensures
            starts_at(walker, root@),
    {
        let mut pending: Vec<FilePath> = Vec::new();
        pending.push(root.copy());
        proof {
            assert(path_views(pending@) =~= seq![root@]);
        }
        DirWalker {
            walk: DirWalk { total_bytes: 0, file_count: 0, newest_modified: None },
            pending,
        }
    }

    /// The directory to list next, or nothing once the walk is done.
    pub fn next_dir(&mut self) -> (dir: Option<FilePath>)
        ensures
            match dir {
                Some(dir) => takes_next(*old(self), dir, *final(self)),
                None => old(self).pending@.len() == 0 && final(self).pending@
                    == old(self).pending@ && final(self).walk == old(self).walk,
            },
    {
        self.pending.pop()
    }

    /// Whether the totals can take a listing in.
    pub fn fits(&self, entries: &Vec<Listed>) -> (yes: bool)
        ensures
            yes == (self.walk.total_bytes + listed_bytes(entries@) <= u64::MAX
                && self.walk.file_count + listed_files(entries@) <= u64::MAX),
    {
        let mut bytes: u64 = self.walk.total_bytes;
        let mut files: u64 = self.walk.file_count;
        let mut i: usize = 0;
        while i < entries.len()
            invariant
                i <= entries@.len(),
                bytes == self.walk.total_bytes + listed_bytes(entries@.take(i as int)),
                files == self.walk.file_count + listed_files(entries@.take(i as int)),
            decreases entries@.len() - i,
        {
            proof {
                assert(entries@.take(i + 1).drop_last() =~= entries@.take(i as int));
                lemma_listed_grows(entries@, i + 1);
            }
            if let Listed::File { len, .. } = &entries[i] {
                match bytes.checked_add(*len) {
                    Some(sum) => {
                        bytes = sum;
                    },
                    None => {
                        return false;
                    },
                }
                match files.checked_add(1) {
                    Some(sum) => {
                        files = sum;
                    },
                    None => {
                        return false;
                    },
                }
            }
            i = i + 1;
        }
        proof {
            assert(entries@.take(entries@.len() as int) =~= entries@);
        }
        true
    }

    /// Takes in the listing of a directory: its files are counted, and its
    /// directories are put where the walk will come to them.
    pub fn visit(&mut self, entries: Vec<Listed>)
        requires
            old(self).walk.total_bytes + listed_bytes(entries@) <= u64::MAX,
            old(self).walk.file_count + listed_files(entries@) <= u64::MAX,
        ensures
            takes_in(*old(self), entries@, *final(self)),
    {
        let mut i: usize = 0;
        proof {
            assert(path_views(self.pending@) =~= path_views(old(self).pending@) + listed_dirs(
                entries@.take(0),
            ));
        }
        while i < entries.len()
            invariant
                i <= entries@.len(),
                old(self).walk.total_bytes + listed_bytes(entries@) <= u64::MAX,
                old(self).walk.file_count + listed_files(entries@) <= u64::MAX,
                self.walk.total_bytes == old(self).walk.total_bytes + listed_bytes(
                    entries@.take(i as int),
                ),
                self.walk.file_count == old(self).walk.file_count + listed_files(
                    entries@.take(i as int),
                ),
                self.walk.newest_modified == latest(
                    old(self).walk.newest_modified,
                    entries@.take(i as int),
                ),
                path_views(self.pending@) == path_views(old(self).pending@) + listed_dirs(
                    entries@.take(i as int),
                ),
            decreases entries@.len() - i,
        {
            proof {
                assert(entries@.take(i + 1).drop_last() =~= entries@.take(i as int));
                lemma_listed_grows(entries@, i + 1);
            }
            let ghost before = self.pending@;
            match &entries[i] {
                Listed::Directory(path) => {
                    self.pending.push(path.copy());
                    proof {
                        assert(path_views(self.pending@) =~= path_views(before).push(path@));
                        assert(path_views(self.pending@) =~= path_views(old(self).pending@)
                            + listed_dirs(entries@.take(i + 1)));
                    }
                },
                Listed::File { len, modified } => {
                    self.walk.total_bytes = self.walk.total_bytes + *len;
                    self.walk.file_count = self.walk.file_count + 1;
                    self.walk.newest_modified = later_of(self.walk.newest_modified, *modified);
                },
                Listed::Skipped => {},
            }
            i = i + 1;
        }
        proof {
            assert(entries@.take(entries@.len() as int) =~= entries@);
        }
    }
}

/// A file, a directory with its path and what is in it, or something that is
/// skipped.
pub enum TreeModel {
    File { bytes: nat, modified: Option<int> },
    Directory { path: Seq<u8>, entries: Seq<TreeModel> },
    Skipped,
}

/// What is counted of files: their bytes, their number, and the latest time at
/// which one of them was modified.
pub struct Tally {
    pub bytes: nat,
    pub files: nat,
    pub newest: Option<int>,
}

/// The count of no files.
pub open spec fn no_files() -> Tally {
    Tally { bytes: 0, files: 0, newest: None }
}

/// The later of two times.
pub open spec fn newer(a: Option<int>, b: Option<int>) -> Option<int> {
    match (a, b) {
        (None, _) => b,
        (_, None) => a,
        (Some(x), Some(y)) => if x >= y {
            a
        } else {
            b
        },
    }
}

/// What is counted in two places together.
pub open spec fn both(a: Tally, b: Tally) -> Tally {
    Tally { bytes: a.bytes + b.bytes, files: a.files + b.files, newest: newer(a.newest, b.newest) }
}

/// What is counted of all files in a tree.
pub open spec fn tree_tally(tree: TreeModel) -> Tally
    decreases tree,
{
    match tree {
        TreeModel::File { bytes, modified } => Tally { bytes, files: 1, newest: modified },
        TreeModel::Directory { entries, .. } => trees_tally(entries),
        TreeModel::Skipped => no_files(),
    }
}

/// What is counted of all files in a list of trees.
pub open spec fn trees_tally(trees: Seq<TreeModel>) -> Tally
    decreases trees,
{
    if trees.len() == 0 {
        no_files()
    } else {
        both(trees_tally(trees.drop_last()), tree_tally(trees[trees.len() - 1]))
    }
}

/// The number of nodes of a tree.
pub open spec fn tree_nodes(tree: TreeModel) -> nat
    decreases tree,
{
    match tree {
        TreeModel::Directory { entries, .. } => 1 + trees_nodes(entries),
        _ => 1,
    }
}

/// The number of nodes of a list of trees.
pub open spec fn trees_nodes(trees: Seq<TreeModel>) -> nat
    decreases trees,
{
    if trees.len() == 0 {
        0
    } else {
        trees_nodes(trees.drop_last()) + tree_nodes(trees[trees.len() - 1])
    }
}

/// The directories among the entries of a directory, in order.
pub open spec fn subdirectories(entries: Seq<TreeModel>) -> Seq<TreeModel>
    decreases entries.len(),
{
    if entries.len() == 0 {
        Seq::empty()
    } else if entries.last() is Directory {
        subdirectories(entries.drop_last()).push(entries.last())
    } else {
        subdirectories(entries.drop_last())
    }
}

/// What is counted of the files that are themselves entries of a directory.
pub open spec fn own_tally(entries: Seq<TreeModel>) -> Tally
    decreases entries.len(),
{
    if entries.len() == 0 {
        no_files()
    } else {
        let before = own_tally(entries.drop_last());
        match entries.last() {
            TreeModel::File { bytes, modified } => both(
                before,
                Tally { bytes, files: 1, newest: modified },
            ),
            _ => before,
        }
    }
}

/// The entries of a directory.
pub open spec fn entries_of(tree: TreeModel) -> Seq<TreeModel> {
    match tree {
        TreeModel::Directory { entries, .. } => entries,
        _ => Seq::empty(),
    }
}

/// What a walk counts from the moment when the directories in `pending` are
/// what it has still to look into: it takes the last one, counts the files in
/// it and puts its directories at the end.
pub open spec fn walked(pending: Seq<TreeModel>) -> Tally
    decreases trees_nodes(pending),
{
    if pending.len() == 0 {
        no_files()
    } else {
        let entries = entries_of(pending.last());
        proof {
            reveal_with_fuel(tree_nodes, 2);
            reveal_with_fuel(trees_nodes, 2);
            lemma_subdirectories(entries);
            lemma_trees_of_sum(pending.drop_last(), subdirectories(entries));
        }
        both(own_tally(entries), walked(pending.drop_last() + subdirectories(entries)))
    }
}

/// The files of a directory are its own and those of its directories.
pub proof fn lemma_subdirectories(entries: Seq<TreeModel>)
    ensures
        trees_nodes(subdirectories(entries)) <= trees_nodes(entries),
        trees_tally(entries) == both(own_tally(entries), trees_tally(subdirectories(entries))),
    decreases entries.len(),
{
    reveal_with_fuel(tree_tally, 2);
    reveal_with_fuel(tree_nodes, 2);
    reveal_with_fuel(trees_tally, 2);
    reveal_with_fuel(trees_nodes, 2);
    if entries.len() > 0 {
        lemma_subdirectories(entries.drop_last());
        if entries.last() is Directory {
            assert(subdirectories(entries).drop_last() =~= subdirectories(entries.drop_last()));
        }
    }
}

/// What is counted in two lists of trees is what is counted in both together.
pub proof fn lemma_trees_of_sum(left: Seq<TreeModel>, right: Seq<TreeModel>)
    ensures
        trees_nodes(left + right) == trees_nodes(left) + trees_nodes(right),
        trees_tally(left + right) == both(trees_tally(left), trees_tally(right)),
    decreases right.len(),
{
    if right.len() == 0 {
        assert(left + right =~= left);
    } else {
        lemma_trees_of_sum(left, right.drop_last());
        assert((left + right).drop_last() =~= left + right.drop_last());
        assert((left + right).last() == right.last());
    }
}

/// Whether every tree in a list is a directory.
pub open spec fn all_directories(trees: Seq<TreeModel>) -> bool {
    forall|i: int| 0 <= i < trees.len() ==> #[trigger] trees[i] is Directory
}

proof fn lemma_subdirectories_are_directories(entries: Seq<TreeModel>)
    ensures
        all_directories(subdirectories(entries)),
    decreases entries.len(),
{
    if entries.len() > 0 {
        lemma_subdirectories_are_directories(entries.drop_last());
    }
}

/// A walk counts every file below the directories that it starts with, counts
/// it once, and finds the latest time at which one of them was modified.
pub proof fn law_walk_counts_every_file_once(pending: Seq<TreeModel>)
    requires
        all_directories(pending),
    ensures
        walked(pending) == trees_tally(pending),
    decreases trees_nodes(pending),
{
    reveal_with_fuel(tree_tally, 2);
    reveal_with_fuel(tree_nodes, 2);
    reveal_with_fuel(trees_tally, 2);
    reveal_with_fuel(trees_nodes, 2);
    if pending.len() > 0 {
        let above = pending.drop_last();
        let entries = entries_of(pending.last());
        let below = subdirectories(entries);
        assert(pending[pending.len() - 1] is Directory);
        lemma_subdirectories(entries);
        lemma_subdirectories_are_directories(entries);
        lemma_trees_of_sum(above, below);
        assert forall|i: int| 0 <= i < (above + below).len() implies #[trigger] (above + below)[i]
            is Directory by {
            if i < above.len() {
                assert((above + below)[i] == pending[i]);
            } else {
                assert((above + below)[i] == below[i - above.len()]);
            }
        }
        law_walk_counts_every_file_once(above + below);
    }
}

/// A point in time that may not be known, as a number.
pub open spec fn instant(time: Option<Timestamp>) -> Option<int> {
    match time {
        Some(time) => Some(nanoseconds(time)),
        None => None,
    }
}

/// Whether an entry of a listing says what an entry of a directory is.
pub open spec fn is_listed_as(listed: Listed, entry: TreeModel) -> bool {
    match (listed, entry) {
        (Listed::File { len, modified: time }, TreeModel::File { bytes, modified }) => len == bytes
            && instant(time) == modified,
        (Listed::Directory(dir), TreeModel::Directory { path, .. }) => dir@ == path,
        (Listed::Skipped, TreeModel::Skipped) => true,
        _ => false,
    }
}

/// Whether a listing says what the entries of a directory are.
pub open spec fn lists(listing: Seq<Listed>, entries: Seq<TreeModel>) -> bool {
    &&& listing.len() == entries.len()
    &&& forall|i: int| 0 <= i < listing.len() ==> is_listed_as(#[trigger] listing[i], entries[i])
}

/// The paths of a list of directories.
pub open spec fn directory_paths(trees: Seq<TreeModel>) -> Seq<Seq<u8>> {
    Seq::new(trees.len(), |i: int| trees[i]->path)
}

/// What a walker takes in of a directory is what the walk counts of it, and
/// its directories for later.
pub proof fn law_visit_takes_in_the_directory(
    newest: Option<Timestamp>,
    listing: Seq<Listed>,
    entries: Seq<TreeModel>,
)
    requires
        lists(listing, entries),
    ensures
        listed_bytes(listing) == own_tally(entries).bytes,
        listed_files(listing) == own_tally(entries).files,
        instant(latest(newest, listing)) == newer(instant(newest), own_tally(entries).newest),
        listed_dirs(listing) == directory_paths(subdirectories(entries)),
    decreases listing.len(),
{
    if listing.len() > 0 {
        let n = listing.len() - 1;
        assert(is_listed_as(listing[n], entries[n]));
        assert forall|i: int| 0 <= i < listing.drop_last().len() implies is_listed_as(
            #[trigger] listing.drop_last()[i],
            entries.drop_last()[i],
        ) by {
            assert(listing[i] == listing.drop_last()[i]);
        }
        law_visit_takes_in_the_directory(newest, listing.drop_last(), entries.drop_last());
    }
    assert(listed_dirs(listing) =~= directory_paths(subdirectories(entries)));
}

/// What a walk has counted.
pub open spec fn walk_tally(walk: DirWalk) -> Tally {
    Tally {
        bytes: walk.total_bytes as nat,
        files: walk.file_count as nat,
        newest: instant(walk.newest_modified),
    }
}

/// Whether a walker is on the way to count `total`: `pending` are the
/// directories that it has still to look into, and what it has counted together
/// with all that is in them is the total.
pub open spec fn is_on_the_way(walker: DirWalker, pending: Seq<TreeModel>, total: Tally) -> bool {
    &&& all_directories(pending)
    &&& path_views(walker.pending@) == directory_paths(pending)
    &&& both(walk_tally(walker.walk), trees_tally(pending)) == total
}

/// A walker that was started at a directory is on the way to count all that is
/// in it.
pub proof fn law_walk_begins(walker: DirWalker, root: TreeModel)
    requires
        root is Directory,
        starts_at(walker, root->path),
    ensures
        is_on_the_way(walker, seq![root], tree_tally(root)),
{
    reveal_with_fuel(trees_tally, 3);
    reveal_with_fuel(tree_tally, 3);
    let pending = seq![root];
    assert(pending.drop_last() =~= Seq::<TreeModel>::empty());
    assert(directory_paths(pending) =~= seq![root->path]);
}

/// A walker that takes the next directory and is shown what is in it stays on
/// the way to the same total.
pub proof fn law_walk_goes_on(
    before: DirWalker,
    pending: Seq<TreeModel>,
    total: Tally,
    dir: FilePath,
    between: DirWalker,
    listing: Seq<Listed>,
    after: DirWalker,
)
    requires
        is_on_the_way(before, pending, total),
        takes_next(before, dir, between),
        lists(listing, entries_of(pending.last())),
        takes_in(between, listing, after),
    ensures
        dir@ == pending.last()->path,
        is_on_the_way(
            after,
            pending.drop_last() + subdirectories(entries_of(pending.last())),
            total,
        ),
{
    reveal_with_fuel(trees_tally, 2);
    reveal_with_fuel(tree_tally, 2);
    let above = pending.drop_last();
    let entries = entries_of(pending.last());
    let below = subdirectories(entries);
    assert(path_views(before.pending@).len() == directory_paths(pending).len());
    let last = pending.len() - 1;
    assert(pending[last] is Directory);
    assert(path_views(before.pending@)[last] == directory_paths(pending)[last]);
    law_visit_takes_in_the_directory(between.walk.newest_modified, listing, entries);
    lemma_subdirectories(entries);
    lemma_subdirectories_are_directories(entries);
    lemma_trees_of_sum(above, below);
    assert(tree_tally(pending.last()) == trees_tally(entries));
    assert(path_views(between.pending@) =~= directory_paths(above)) by {
        assert forall|i: int| 0 <= i < above.len() implies path_views(between.pending@)[i]
            == directory_paths(above)[i] by {
            assert(path_views(before.pending@)[i] == directory_paths(pending)[i]);
        }
    }
    assert(directory_paths(above + below) =~= directory_paths(above) + directory_paths(below));
    assert forall|i: int| 0 <= i < (above + below).len() implies #[trigger] (above + below)[i]
        is Directory by {
        if i < above.len() {
            assert((above + below)[i] == pending[i]);
        } else {
            assert((above + below)[i] == below[i - above.len()]);
        }
    }
}

/// A walker that has nothing left to look into has counted the total.
pub proof fn law_walk_ends(walker: DirWalker, pending: Seq<TreeModel>, total: Tally)
    requires
        is_on_the_way(walker, pending, total),
        walker.pending@.len() == 0,
    ensures
        walk_tally(walker.walk) == total,
{
    assert(path_views(walker.pending@).len() == directory_paths(pending).len());
}

/// What is counted of trees is what is counted of each, together: a file counts
/// with its bytes, a directory with all that is in it, and nothing else counts.
pub proof fn law_trees_count_together(trees: Seq<TreeModel>, tree: TreeModel)
    ensures
        trees_tally(Seq::empty()).bytes == 0 && trees_tally(Seq::empty()).files == 0,
        trees_tally(Seq::empty()).newest is None,
        trees_tally(trees.push(tree)).bytes == trees_tally(trees).bytes + tree_tally(tree).bytes,
        trees_tally(trees.push(tree)).files == trees_tally(trees).files + tree_tally(tree).files,
        ({
            let newest = trees_tally(trees.push(tree)).newest;
            let before = trees_tally(trees).newest;
            let added = tree_tally(tree).newest;
            &&& newest == before || newest == added
            &&& before is Some ==> newest is Some && newest->0 >= before->0
            &&& added is Some ==> newest is Some && newest->0 >= added->0
        }),
        tree matches TreeModel::File { bytes, modified } ==> tree_tally(tree) == (Tally {
            bytes,
            files: 1,
            newest: modified,
        }),
        tree matches TreeModel::Directory { entries, .. } ==> tree_tally(tree) == trees_tally(
            entries,
        ),
        tree is Skipped ==> tree_tally(tree).bytes == 0 && tree_tally(tree).files == 0
            && tree_tally(tree).newest is None,
{
    reveal_with_fuel(trees_tally, 2);
    reveal_with_fuel(tree_tally, 2);
    assert(trees.push(tree).drop_last() =~= trees);
    assert(trees.push(tree)[trees.len() as int] == tree);
}

/// An age is modelled by its number of days, and a list of paths by their bytes.
pub proof fn law_ages_are_modelled_by_their_days(days: u64, paths: Seq<FilePath>)
    ensures
        age_view(Some(days)) == Some(days as nat),
        age_view(None) is None,
        path_views(paths).len() == paths.len(),
        forall|i: int| 0 <= i < paths.len() ==> #[trigger] path_views(paths)[i] == paths[i]@,
{
}

} // verus!
