use dev_browser::doctor::{
    age_in_days, is_contained, listed_as, DirWalk, DirWalker, DoctorOptions, FileFacts, FileKind,
    Listed, Timestamp, DEFAULT_MIN_AGE_DAYS, DEFAULT_STALE_DAYS,
};
use dev_browser::exit_code::{IoError, IoErrorKind};
use dev_browser::gc::{
    build_gc_plan, build_report, dir_report, execute_gc_plan, list_browser_profiles, logs_dir_to_walk,
    may_delete, plan_total,
    tmp_dir_to_list, tmp_gc_candidates, BrowserEntry, BrowserProfileReport, DirReport, DoctorFacts,
    DoctorReport, GcCandidate, TmpEntry, TmpFacts,
};
use dev_browser::paths::FilePath;
use std::path::{Component, Path};

const DAY: i64 = 86_400;

const NOW: Timestamp = Timestamp { secs: 1_000 * DAY, nanos: 500 };

fn days_ago(days: i64) -> Option<Timestamp> {
    Some(Timestamp { secs: NOW.secs - days * DAY, nanos: NOW.nanos })
}

fn tmp_file(path: FilePath, len: u64, days: i64) -> TmpEntry {
    TmpEntry { path, facts: TmpFacts::File { len, modified: days_ago(days) } }
}

fn walk(total_bytes: u64, file_count: u64, days: i64) -> DirWalk {
    DirWalk { total_bytes, file_count, newest_modified: days_ago(days) }
}

fn candidate(path: FilePath, bytes: u64) -> GcCandidate {
    GcCandidate { kind: "tmp-entry", path, bytes, age_days: Some(10) }
}

// No directory is a link.
fn unlinked(path: &FilePath) -> Result<FilePath, String> {
    Ok(path.copy())
}

fn empty_report(base_dir: FilePath) -> DoctorReport {
    DoctorReport {
        base_dir,
        base_dir_exists: true,
        daemon_running: false,
        daemon_pid: None,
        log_path: None,
        dirs: Vec::new(),
        browser_profiles: Vec::new(),
        stale_days: DEFAULT_STALE_DAYS,
    }
}

#[test]
fn is_contained_accepts_a_direct_child() {
    let root = FilePath::new("/home/user/.dev-browser");
    let candidate = root.join("tmp").join("screenshot.png");
    assert!(is_contained(&root, &candidate));
}

#[test]
fn is_contained_rejects_a_sibling_directory() {
    let root = FilePath::new("/home/user/.dev-browser");
    let candidate = FilePath::new("/home/user/other-dir/file.txt");
    assert!(!is_contained(&root, &candidate));
}

#[test]
fn is_contained_rejects_parent_dir_traversal_even_when_lexically_prefixed() {
    let root = FilePath::new("/home/user/.dev-browser");
    let candidate = root.join("browsers").join("..").join("..").join("etc").join("passwd");
    assert!(!is_contained(&root, &candidate));
}

#[test]
fn walk_dir_sums_nested_file_sizes() {
    let root = FilePath::new("/tmp/walk");
    let mut walker = DirWalker::walk_dir(&root);
    let mut listed: Vec<String> = Vec::new();
    while let Some(dir) = walker.next_dir() {
        listed.push(dir.display());
        let entries = if dir.display() == "/tmp/walk" {
            vec![
                Listed::File { len: 5, modified: days_ago(3) },
                Listed::Directory(root.join("sub")),
                Listed::Skipped,
            ]
        } else {
            vec![Listed::File { len: 10, modified: days_ago(2) }]
        };
        assert!(walker.fits(&entries));
        walker.visit(entries);
    }
    assert_eq!(walker.walk.total_bytes, 15);
    assert_eq!(walker.walk.file_count, 2);
    assert!(walker.walk.newest_modified.is_some());
    assert_eq!(age_in_days(walker.walk.newest_modified, NOW), Some(2));
    assert_eq!(listed, vec!["/tmp/walk".to_string(), "/tmp/walk/sub".to_string()]);
}

#[test]
fn walk_dir_on_missing_dir_returns_zeroes() {
    let missing = FilePath::new("/tmp/dev-browser-doctor-test-missing-nonexistent");
    let mut walker = DirWalker::walk_dir(&missing);
    assert!(walker.next_dir().is_some());
    assert!(walker.next_dir().is_none());
    assert_eq!(walker.walk.total_bytes, 0);
    assert_eq!(walker.walk.file_count, 0);
    assert!(walker.walk.newest_modified.is_none());
}

#[test]
fn tmp_gc_candidates_skips_entries_newer_than_min_age() {
    let base = FilePath::new("/base/gc-fresh");
    let tmp = base.join("tmp");
    let entries = vec![tmp_file(tmp.join("fresh.png"), 4, 0)];

    let candidates = tmp_gc_candidates(&base, &entries, 30, NOW);
    assert!(
        candidates.is_empty(),
        "a just-written file must not be GC-eligible at a 30-day floor"
    );
}

#[test]
fn tmp_gc_candidates_includes_entries_older_than_min_age() {
    let base = FilePath::new("/base/gc-stale");
    let tmp = base.join("tmp");
    let entries = vec![tmp_file(tmp.join("stale.png"), 4, 0)];

    let candidates = tmp_gc_candidates(&base, &entries, 0, NOW);
    assert_eq!(candidates.len(), 1);
    assert_eq!(candidates[0].kind, "tmp-entry");
}

#[test]
fn tmp_gc_candidates_never_escapes_base_dir() {
    let base = FilePath::new("/base/gc-outside-base");
    let outside_tmp = FilePath::new("/base/gc-outside-tmp");
    let entries = vec![tmp_file(outside_tmp.join("escaped.png"), 4, 0)];

    let candidates = tmp_gc_candidates(&base, &entries, 0, NOW);
    assert!(
        candidates.is_empty(),
        "entries outside base_dir must never be GC candidates"
    );
}

#[test]
fn execute_gc_plan_refuses_to_delete_outside_base_dir() {
    let base = FilePath::new("/base/exec-base");
    let victim = FilePath::new("/base/exec-outside").join("do-not-delete.png");
    let plan = vec![candidate(victim, 4)];

    let result = execute_gc_plan(&base, &plan, unlinked, |_: &GcCandidate| -> Result<(), String> {
        panic!("path outside base_dir must survive execute_gc_plan")
    });
    assert_eq!(result.deleted.len(), 0);
    assert_eq!(result.failed.len(), 1);
    assert_eq!(result.failed[0].0.display(), "/base/exec-outside/do-not-delete.png");
    assert_eq!(result.failed[0].1, "refused: path is not contained within ~/.dev-browser");
    assert_eq!(result.reclaimed_bytes, 0);
}

#[test]
fn execute_gc_plan_deletes_contained_candidates_and_reports_reclaimed_bytes() {
    let base = FilePath::new("/base/exec-contained");
    let victim = base.join("tmp").join("old.png");
    let plan = vec![candidate(victim, 5)];

    let result = execute_gc_plan(&base, &plan, unlinked, |candidate: &GcCandidate| {
        assert_eq!(candidate.path.display(), "/base/exec-contained/tmp/old.png");
        Ok(())
    });
    assert_eq!(result.deleted.len(), 1);
    assert_eq!(result.reclaimed_bytes, 5);
}

#[test]
fn build_gc_plan_is_pure_and_never_touches_disk() {
    let base = FilePath::new("/base/plan-only");
    let tmp = base.join("tmp");
    let mut report = empty_report(base);
    report.dirs.push(DirReport {
        label: "tmp",
        path: tmp.copy(),
        exists: true,
        total_bytes: 5,
        file_count: 1,
    });
    let options = DoctorOptions {
        json: false,
        gc: true,
        confirm: false,
        include_browser_profiles: false,
        stale_days: DEFAULT_STALE_DAYS,
        min_age_days: 0,
    };

    let entries = vec![tmp_file(tmp.join("old.png"), 5, 0)];
    let plan = build_gc_plan(&report, &options, &entries, NOW);
    assert_eq!(plan.len(), 1);
    assert_eq!(plan[0].bytes, 5);
    assert_eq!(plan_total(&plan), Some(5));
}

#[test]
fn build_gc_plan_includes_stale_browser_profiles_only_when_opted_in() {
    let base = FilePath::new("/base/plan-profiles");
    let profile_path = base.join("browsers").join("stale-one");
    let mut report = empty_report(base);
    report.browser_profiles.push(BrowserProfileReport {
        name: "stale-one".to_string(),
        path: profile_path,
        total_bytes: 1024,
        file_count: 3,
        age_days: Some(90),
        stale: true,
    });

    let opted_out = DoctorOptions {
        json: false,
        gc: true,
        confirm: false,
        include_browser_profiles: false,
        stale_days: DEFAULT_STALE_DAYS,
        min_age_days: DEFAULT_MIN_AGE_DAYS,
    };
    assert!(build_gc_plan(&report, &opted_out, &Vec::new(), NOW).is_empty());

    let opted_in = DoctorOptions { include_browser_profiles: true, ..opted_out };
    let plan = build_gc_plan(&report, &opted_in, &Vec::new(), NOW);
    assert_eq!(plan.len(), 1);
    assert_eq!(plan[0].kind, "browser-profile");
    assert_eq!(plan[0].bytes, 1024);
    assert_eq!(plan[0].age_days, Some(90));
}

#[test]
fn containment_agrees_with_the_standard_library() {
    let paths = [
        "", ".", "..", "/", "/a", "/a/", "/a/b", "/a//b/./c", "/a/b/..", "/ab", "a", "a/b", "./a",
        "./a/b", "a/../a/b", "/a/b/c..d", "//a", "/./a/b", "a/.", "../a",
    ];
    for root in paths {
        for inner in paths {
            let expected = Path::new(inner).starts_with(Path::new(root))
                && !Path::new(inner)
                    .components()
                    .any(|component| matches!(component, Component::ParentDir));
            assert_eq!(
                is_contained(&FilePath::new(root), &FilePath::new(inner)),
                expected,
                "{root} {inner}"
            );
        }
    }
}

#[test]
fn ages_are_counted_in_whole_days() {
    assert_eq!(age_in_days(None, NOW), None);
    assert_eq!(age_in_days(days_ago(0), NOW), Some(0));
    assert_eq!(age_in_days(days_ago(30), NOW), Some(30));
    let almost = Timestamp { secs: NOW.secs - DAY, nanos: NOW.nanos + 1 };
    assert_eq!(age_in_days(Some(almost), NOW), Some(0));
    let future = Timestamp { secs: NOW.secs, nanos: NOW.nanos + 1 };
    assert_eq!(age_in_days(Some(future), NOW), None);
    let ancient = Timestamp { secs: -DAY, nanos: 0 };
    assert_eq!(age_in_days(Some(ancient), NOW), Some(1_001));
    let extremes = (
        Timestamp { secs: i64::MIN, nanos: 0 },
        Timestamp { secs: i64::MAX, nanos: 999_999_999 },
    );
    assert_eq!(age_in_days(Some(extremes.0), extremes.1), Some(213_503_982_334_601));
}

#[test]
fn a_walk_keeps_the_newest_time_and_the_depth_first_order() {
    let root = FilePath::new("/r");
    let mut walker = DirWalker::walk_dir(&root);
    assert_eq!(walker.next_dir().unwrap().display(), "/r");
    walker.visit(vec![
        Listed::Directory(root.join("a")),
        Listed::Directory(root.join("b")),
        Listed::File { len: 1, modified: None },
        Listed::File { len: 2, modified: days_ago(4) },
        Listed::File { len: 3, modified: days_ago(9) },
    ]);
    assert_eq!(age_in_days(walker.walk.newest_modified, NOW), Some(4));
    assert_eq!(walker.next_dir().unwrap().display(), "/r/b");
    walker.visit(vec![Listed::Directory(root.join("b").join("c"))]);
    assert_eq!(walker.next_dir().unwrap().display(), "/r/b/c");
    assert_eq!(walker.next_dir().unwrap().display(), "/r/a");
    assert!(walker.next_dir().is_none());
    assert_eq!((walker.walk.total_bytes, walker.walk.file_count), (6, 3));
}

#[test]
fn links_are_not_followed() {
    let path = || FilePath::new("/r/a");
    let facts = Some(FileFacts { len: 3, modified: days_ago(1) });
    assert!(matches!(
        listed_as(FileKind::Directory, path(), facts),
        Listed::Directory(dir) if dir.display() == "/r/a"
    ));
    assert!(matches!(
        listed_as(FileKind::File, path(), facts),
        Listed::File { len: 3, modified: Some(_) }
    ));
    assert!(matches!(listed_as(FileKind::File, path(), None), Listed::Skipped));
    for kind in [FileKind::Link, FileKind::Other, FileKind::Unknown] {
        assert!(matches!(listed_as(kind, path(), facts), Listed::Skipped));
    }
}

#[test]
fn totals_that_cannot_be_counted_are_noticed() {
    let mut walker = DirWalker::walk_dir(&FilePath::new("/r"));
    let huge = vec![Listed::File { len: u64::MAX, modified: None }];
    assert!(walker.fits(&huge));
    walker.visit(huge);
    assert!(!walker.fits(&vec![Listed::File { len: 1, modified: None }]));
    assert!(walker.fits(&vec![Listed::File { len: 0, modified: None }, Listed::Skipped]));
    let plan = vec![
        candidate(FilePath::new("/a"), u64::MAX),
        candidate(FilePath::new("/b"), 1),
    ];
    assert_eq!(plan_total(&plan), None);
    assert_eq!(plan_total(&Vec::new()), Some(0));
}

#[test]
fn profiles_are_listed_by_size() {
    let entry = |name: &str, walk: Option<DirWalk>| BrowserEntry {
        name: name.as_bytes().to_vec(),
        path: FilePath::new("/b").join(name),
        walk,
    };
    let entries = vec![
        entry("small", Some(walk(1, 1, 40))),
        entry("first", Some(walk(7, 2, 30))),
        entry("file", None),
        entry("second", Some(walk(7, 3, 29))),
        entry("large", Some(walk(9, 4, 0))),
        entry(
            "unknown",
            Some(DirWalk { total_bytes: 0, file_count: 0, newest_modified: None }),
        ),
    ];
    let profiles = list_browser_profiles(&entries, 30, NOW);
    let listed: Vec<(&str, u64, Option<u64>, bool)> = profiles
        .iter()
        .map(|profile| {
            (profile.name.as_str(), profile.file_count, profile.age_days, profile.stale)
        })
        .collect();
    assert_eq!(
        listed,
        vec![
            ("large", 4, Some(0), false),
            ("first", 2, Some(30), true),
            ("second", 3, Some(29), false),
            ("small", 1, Some(40), true),
            ("unknown", 0, None, false),
        ]
    );
    assert_eq!(profiles[0].path.display(), "/b/large");
}

#[test]
fn directories_are_reported_whether_they_exist_or_not() {
    let found = dir_report("tmp", FilePath::new("/b/tmp"), Some(walk(15, 2, 0)));
    assert_eq!(
        (found.label, found.exists, found.total_bytes, found.file_count),
        ("tmp", true, 15, 2)
    );
    let missing = dir_report("logs", FilePath::new("/b/logs"), None);
    assert_eq!(
        (missing.label, missing.exists, missing.total_bytes, missing.file_count),
        ("logs", false, 0, 0)
    );
}

fn no_home() -> IoError {
    IoError { kind: IoErrorKind::NotFound, message: "no home".to_string() }
}

fn facts(logs_dir: Result<FilePath, IoError>) -> DoctorFacts {
    DoctorFacts {
        base_dir: FilePath::new("/h/.dev-browser"),
        base_dir_exists: true,
        daemon_running: true,
        daemon_pid: Some(12),
        log_path: Err(no_home()),
        logs_dir,
        tmp: Some(walk(4, 1, 2)),
        browsers: None,
        logs: Some(walk(9, 3, 1)),
        browser_entries: Vec::new(),
    }
}

#[test]
fn a_report_puts_the_facts_together() {
    let report = build_report(facts(Ok(FilePath::new("/h/.dev-browser/logs"))), 7, NOW);
    assert_eq!(report.base_dir.display(), "/h/.dev-browser");
    assert!(report.base_dir_exists && report.daemon_running);
    assert_eq!(report.daemon_pid, Some(12));
    assert!(report.log_path.is_none());
    assert_eq!(report.stale_days, 7);
    let dirs: Vec<(&str, String, bool, u64, u64)> = report
        .dirs
        .iter()
        .map(|dir| (dir.label, dir.path.display(), dir.exists, dir.total_bytes, dir.file_count))
        .collect();
    assert_eq!(
        dirs,
        vec![
            ("tmp", "/h/.dev-browser/tmp".to_string(), true, 4, 1),
            ("browsers", "/h/.dev-browser/browsers".to_string(), false, 0, 0),
            ("logs", "/h/.dev-browser/logs".to_string(), true, 9, 3),
        ]
    );
    assert_eq!(tmp_dir_to_list(&report).unwrap().display(), "/h/.dev-browser/tmp");
}

#[test]
fn the_logs_have_a_place_to_fall_back_to() {
    let report = build_report(facts(Err(no_home())), 7, NOW);
    assert_eq!(report.dirs[2].path.display(), "/h/.dev-browser/logs");
    let base = FilePath::new("/h/.dev-browser");
    assert_eq!(
        logs_dir_to_walk(&Err(no_home()), &base).display(),
        "/h/.dev-browser/logs"
    );
    assert_eq!(logs_dir_to_walk(&Ok(FilePath::new("/l")), &base).display(), "/l");
    let mut without_tmp = facts(Err(no_home()));
    without_tmp.tmp = None;
    assert!(tmp_dir_to_list(&build_report(without_tmp, 7, NOW)).is_none());
}

#[test]
fn entries_of_every_kind_are_judged_by_age() {
    let base = FilePath::new("/b");
    let tmp = base.join("tmp");
    let entries = vec![
        TmpEntry { path: tmp.join("dir"), facts: TmpFacts::Directory(walk(15, 2, 3)) },
        TmpEntry { path: tmp.join("gone"), facts: TmpFacts::Unreadable },
        TmpEntry {
            path: tmp.join("timeless"),
            facts: TmpFacts::File { len: 8, modified: None },
        },
        tmp_file(tmp.join("old"), 9, 1),
        tmp_file(tmp.join("new"), 9, 0),
    ];
    let listed: Vec<(String, u64, Option<u64>)> =
        tmp_gc_candidates(&base, &entries, DEFAULT_MIN_AGE_DAYS, NOW)
            .iter()
            .map(|candidate| (candidate.path.display(), candidate.bytes, candidate.age_days))
            .collect();
    assert_eq!(
        listed,
        vec![
            ("/b/tmp/dir".to_string(), 15, Some(3)),
            ("/b/tmp/old".to_string(), 9, Some(1)),
        ]
    );
}

#[test]
fn execute_gc_plan_refuses_what_a_link_leads_out_of_the_base_directory() {
    let base = FilePath::new("/b");
    let plan = vec![
        candidate(base.join("tmp").join("victim.png"), 4),
        candidate(base.join("kept").join("old.png"), 5),
        candidate(base.join("gone").join("old.png"), 6),
    ];
    let resolve = |path: &FilePath| match path.display().as_str() {
        "/b" => Ok(FilePath::new("/data/dev-browser")),
        "/b/tmp" => Ok(FilePath::new("/outside")),
        "/b/kept" => Ok(FilePath::new("/data/dev-browser/kept")),
        _ => Err("no such directory".to_string()),
    };
    let result = execute_gc_plan(&base, &plan, resolve, |candidate: &GcCandidate| {
        assert_eq!(candidate.path.display(), "/b/kept/old.png");
        Ok(())
    });
    assert_eq!(result.deleted.len(), 1);
    assert_eq!(result.reclaimed_bytes, 5);
    let failed: Vec<(String, &str)> = result
        .failed
        .iter()
        .map(|(path, message)| (path.display(), message.as_str()))
        .collect();
    assert_eq!(
        failed,
        vec![
            (
                "/b/tmp/victim.png".to_string(),
                "refused: path is not contained within ~/.dev-browser"
            ),
            ("/b/gone/old.png".to_string(), "no such directory"),
        ]
    );
}

#[test]
fn a_path_without_a_name_is_resolved_itself() {
    let root = FilePath::new("/");
    let plan = vec![candidate(FilePath::new("/"), 4)];
    let result = execute_gc_plan(&root, &plan, unlinked, |_: &GcCandidate| Ok(()));
    assert_eq!(result.deleted.len(), 1);
    let base = FilePath::new("/b");
    let whole = vec![candidate(base.copy(), 4)];
    let result = execute_gc_plan(&base, &whole, unlinked, |_: &GcCandidate| Ok(()));
    assert_eq!(result.reclaimed_bytes, 4);
}

#[test]
fn only_a_known_place_inside_may_be_deleted() {
    let base = FilePath::new("/b");
    assert!(may_delete(&base, Some(&base.join("tmp").join("a"))));
    assert!(!may_delete(&base, Some(&FilePath::new("/outside/a"))));
    assert!(!may_delete(&base, None));
}

#[test]
fn names_that_are_no_text_are_shown() {
    let entries = vec![BrowserEntry {
        name: vec![97, 255],
        path: FilePath::new("/b"),
        walk: Some(walk(1, 1, 0)),
    }];
    assert_eq!(list_browser_profiles(&entries, 30, NOW)[0].name, "a\u{fffd}");
}

#[test]
fn an_execution_accounts_for_every_candidate() {
    let base = FilePath::new("/b");
    let plan = vec![
        candidate(base.join("tmp").join("one"), 5),
        candidate(FilePath::new("/elsewhere"), 6),
        candidate(base.join("tmp").join("busy"), 7),
        candidate(base.join("tmp").join("..").join("..").join("etc"), 8),
        candidate(base.join("tmp").join("two"), 9),
    ];
    let result = execute_gc_plan(&base, &plan, unlinked, |candidate: &GcCandidate| {
        if candidate.path.display().ends_with("busy") {
            Err("in use".to_string())
        } else {
            Ok(())
        }
    });
    let deleted: Vec<String> =
        result.deleted.iter().map(|candidate| candidate.path.display()).collect();
    assert_eq!(deleted, vec!["/b/tmp/one".to_string(), "/b/tmp/two".to_string()]);
    let failed: Vec<(String, &str)> = result
        .failed
        .iter()
        .map(|(path, message)| (path.display(), message.as_str()))
        .collect();
    let refused = "refused: path is not contained within ~/.dev-browser";
    assert_eq!(
        failed,
        vec![
            ("/elsewhere".to_string(), refused),
            ("/b/tmp/busy".to_string(), "in use"),
            ("/b/tmp/../../etc".to_string(), refused),
        ]
    );
    assert_eq!(result.reclaimed_bytes, 14);
}
