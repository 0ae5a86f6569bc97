use dev_browser::doctor::{DoctorOptions, Timestamp};
use dev_browser::gc::{
    BrowserProfileReport, DirReport, DoctorReport, GcCandidate, TmpEntry, TmpFacts,
};
use dev_browser::paths::FilePath;
use dev_browser::report::{doctor_value, doctor_warnings, print_human, print_json, run_doctor};
use serde_json::Value;

const NOW: Timestamp = Timestamp { secs: 864_000, nanos: 0 };

fn options(json: bool, gc: bool, confirm: bool, include_browser_profiles: bool) -> DoctorOptions {
    DoctorOptions { json, gc, confirm, include_browser_profiles, stale_days: 30, min_age_days: 1 }
}

fn report() -> DoctorReport {
    let base_dir = FilePath::new("/h/.dev-browser");
    DoctorReport {
        base_dir_exists: true,
        daemon_running: true,
        daemon_pid: Some(77),
        log_path: Some(base_dir.join("logs").join("daemon.log")),
        dirs: vec![
            DirReport {
                label: "tmp",
                path: base_dir.join("tmp"),
                exists: true,
                total_bytes: 1536,
                file_count: 2,
            },
            DirReport {
                label: "browsers",
                path: base_dir.join("browsers"),
                exists: false,
                total_bytes: 0,
                file_count: 0,
            },
        ],
        browser_profiles: vec![
            BrowserProfileReport {
                name: "work".to_string(),
                path: base_dir.join("browsers").join("work"),
                total_bytes: 2048,
                file_count: 4,
                age_days: Some(31),
                stale: true,
            },
            BrowserProfileReport {
                name: "new".to_string(),
                path: base_dir.join("browsers").join("new"),
                total_bytes: 10,
                file_count: 1,
                age_days: None,
                stale: false,
            },
        ],
        base_dir,
        stale_days: 30,
    }
}

fn entries() -> Vec<TmpEntry> {
    let old = Some(Timestamp { secs: 0, nanos: 0 });
    let tmp = FilePath::new("/h/.dev-browser/tmp");
    vec![
        TmpEntry { path: tmp.join("a.png"), facts: TmpFacts::File { len: 1024, modified: old } },
        TmpEntry { path: tmp.join("b.png"), facts: TmpFacts::File { len: 512, modified: old } },
    ]
}

const SHOWN: [&str; 13] = [
    "dev-browser doctor",
    "",
    "Base dir: /h/.dev-browser",
    "Daemon: running (pid 77)",
    "Daemon log: /h/.dev-browser/logs/daemon.log",
    "",
    "Disk usage:",
    "  tmp            1.5 KB  (2 files)  /h/.dev-browser/tmp",
    "  browsers   (missing)  /h/.dev-browser/browsers",
    "",
    "Browser profiles (2 total, stale threshold 30 days):",
    "  work                     2.0 KB  31d idle  [STALE]",
    "  new                        10 B  age unknown",
];

#[test]
fn a_report_alone_is_shown_to_humans() {
    let (lines, errors) = print_human(&report(), None, None, &options(false, false, false, false));
    assert_eq!(lines, SHOWN);
    assert!(errors.is_empty());
}

#[test]
fn a_poor_report_is_shown_to_humans() {
    let mut poor = report();
    poor.base_dir_exists = false;
    poor.daemon_pid = None;
    poor.log_path = None;
    poor.dirs = Vec::new();
    poor.browser_profiles = Vec::new();
    let (lines, _) = print_human(&poor, None, None, &options(false, false, false, false));
    assert_eq!(
        lines,
        vec![
            "dev-browser doctor",
            "",
            "Base dir: /h/.dev-browser",
            "  (does not exist yet -- nothing has run that touches ~/.dev-browser)",
            "Daemon: running (pid unknown)",
            "",
            "Disk usage:",
            "",
            "Browser profiles: none.",
        ]
    );
    poor.daemon_running = false;
    poor.daemon_pid = Some(3);
    let (lines, _) = print_human(&poor, None, None, &options(false, false, false, false));
    assert_eq!(lines[4], "Daemon: not running");
}

fn unresolved(_: &FilePath) -> Result<FilePath, String> {
    panic!("nothing has to be resolved without a confirmation")
}

fn unlinked(path: &FilePath) -> Result<FilePath, String> {
    Ok(path.copy())
}

fn never(_: &GcCandidate) -> Result<(), String> {
    panic!("nothing may be deleted without a confirmation")
}

#[test]
fn a_dry_run_deletes_nothing() {
    let run = run_doctor(&report(), &options(false, true, false, true), &entries(), NOW, unresolved, never).unwrap();
    assert_eq!(run.exit_code, 0);
    assert!(run.stderr.is_empty());
    assert_eq!(run.stdout[..13], SHOWN);
    assert_eq!(
        run.stdout[13..],
        [
            "",
            "GC plan (3 items, 3.5 KB reclaimable):",
            "  Would delete: [tmp-entry] /h/.dev-browser/tmp/a.png  (1.0 KB)",
            "  Would delete: [tmp-entry] /h/.dev-browser/tmp/b.png  (512 B)",
            "  Would delete: [browser-profile] /h/.dev-browser/browsers/work  (2.0 KB)",
            "",
            "This was a DRY RUN. Re-run with `--gc --yes` to actually delete these 3 items.",
        ]
    );
}

#[test]
fn a_confirmation_without_the_collector_deletes_nothing() {
    let run = run_doctor(&report(), &options(false, false, true, true), &entries(), NOW, unresolved, never).unwrap();
    assert_eq!(run.stdout, SHOWN);
}

#[test]
fn a_confirmed_plan_is_executed() {
    let delete = |candidate: &GcCandidate| {
        if candidate.bytes == 512 {
            Err("in use".to_string())
        } else {
            Ok(())
        }
    };
    let run = run_doctor(&report(), &options(false, true, true, false), &entries(), NOW, unlinked, delete).unwrap();
    assert_eq!(
        run.stdout[13..],
        [
            "",
            "GC plan (2 items, 1.5 KB reclaimable):",
            "  Deleted: [tmp-entry] /h/.dev-browser/tmp/a.png  (1.0 KB)",
            "  Deleted: [tmp-entry] /h/.dev-browser/tmp/b.png  (512 B)",
            "",
            "GC result: deleted 1 items, reclaimed 1.0 KB.",
        ]
    );
    assert_eq!(run.stderr, vec!["  failed to delete /h/.dev-browser/tmp/b.png: in use"]);
}

#[test]
fn a_plan_that_cannot_be_counted_is_not_executed() {
    let mut huge = entries();
    for entry in &mut huge {
        if let TmpFacts::File { len, .. } = &mut entry.facts {
            *len = u64::MAX;
        }
    }
    for confirm in [false, true] {
        let options = options(false, true, confirm, false);
        assert!(run_doctor(&report(), &options, &huge, NOW, unresolved, never).is_none());
    }
}

#[test]
fn an_empty_plan_is_named() {
    let run = run_doctor(&report(), &options(false, true, false, false), &Vec::new(), NOW, unresolved, never).unwrap();
    assert_eq!(
        run.stdout[13..],
        [
            "",
            "GC plan: nothing eligible (nothing older than the configured age thresholds).",
        ]
    );
}

#[test]
fn options_without_effect_are_warned_of() {
    assert!(doctor_warnings(&options(false, true, true, true)).is_empty());
    assert!(doctor_warnings(&options(true, false, false, false)).is_empty());
    assert_eq!(
        doctor_warnings(&options(false, false, true, true)),
        vec![
            "Warning: --yes has no effect without --gc; nothing was planned to delete.",
            "Warning: --include-browser-profiles has no effect without --gc.",
        ]
    );
}

#[test]
fn a_report_is_a_json_document() {
    let value = doctor_value(&report(), None, None, &options(true, false, false, false));
    assert_eq!(value["base_dir"].as_str(), Some("/h/.dev-browser"));
    assert_eq!(value["base_dir_exists"].as_bool(), Some(true));
    assert_eq!(value["daemon"]["running"].as_bool(), Some(true));
    assert_eq!(value["daemon"]["pid"].as_i64(), Some(77));
    assert_eq!(value["log_path"].as_str(), Some("/h/.dev-browser/logs/daemon.log"));
    assert_eq!(value["dirs"][0]["label"].as_str(), Some("tmp"));
    assert_eq!(value["dirs"][0]["path"].as_str(), Some("/h/.dev-browser/tmp"));
    assert_eq!(value["dirs"][0]["exists"].as_bool(), Some(true));
    assert_eq!(value["dirs"][0]["total_bytes"].as_u64(), Some(1536));
    assert_eq!(value["dirs"][0]["total_human"].as_str(), Some("1.5 KB"));
    assert_eq!(value["dirs"][0]["file_count"].as_u64(), Some(2));
    assert_eq!(value["dirs"].as_array().unwrap().len(), 2);
    assert_eq!(value["browser_profiles"][0]["name"].as_str(), Some("work"));
    assert_eq!(value["browser_profiles"][0]["age_days"].as_u64(), Some(31));
    assert_eq!(value["browser_profiles"][0]["stale"].as_bool(), Some(true));
    assert_eq!(value["browser_profiles"][1]["age_days"], Value::Null);
    assert_eq!(value["browser_profiles"][1]["total_human"].as_str(), Some("10 B"));
    assert_eq!(value["browser_profiles"][1]["file_count"].as_u64(), Some(1));
    assert_eq!(value["stale_days_threshold"].as_u64(), Some(30));
    assert_eq!(value["gc"], Value::Null);
    assert_eq!(value.as_object().unwrap().len(), 8);
}

#[test]
fn a_plan_is_part_of_the_json_document() {
    let run = run_doctor(&report(), &options(true, true, false, false), &entries(), NOW, unresolved, never).unwrap();
    assert_eq!(run.stdout.len(), 1);
    assert!(run.stderr.is_empty());
    let value: Value = serde_json::from_str(&run.stdout[0]).unwrap();
    let gc = &value["gc"];
    assert_eq!(gc["requested"].as_bool(), Some(true));
    assert_eq!(gc["confirmed"].as_bool(), Some(false));
    assert_eq!(gc["min_age_days"].as_u64(), Some(1));
    assert_eq!(gc["include_browser_profiles"].as_bool(), Some(false));
    assert_eq!(gc["candidates"].as_array().unwrap().len(), 2);
    assert_eq!(gc["candidates"][1]["kind"].as_str(), Some("tmp-entry"));
    assert_eq!(gc["candidates"][1]["path"].as_str(), Some("/h/.dev-browser/tmp/b.png"));
    assert_eq!(gc["candidates"][1]["bytes"].as_u64(), Some(512));
    assert_eq!(gc["candidates"][1]["age_days"].as_u64(), Some(10));
    assert_eq!(gc["reclaimable_bytes"].as_u64(), Some(1536));
    assert_eq!(gc["result"], Value::Null);
}

#[test]
fn a_result_is_part_of_the_json_document() {
    let fail = |_: &GcCandidate| Err("in use".to_string());
    let run = run_doctor(&report(), &options(true, true, true, false), &entries(), NOW, unlinked, fail).unwrap();
    let value: Value = serde_json::from_str(&run.stdout[0]).unwrap();
    let result = &value["gc"]["result"];
    assert_eq!(result["deleted_count"].as_u64(), Some(0));
    assert_eq!(result["reclaimed_bytes"].as_u64(), Some(0));
    assert_eq!(result["failed"][0]["path"].as_str(), Some("/h/.dev-browser/tmp/a.png"));
    assert_eq!(result["failed"][0]["error"].as_str(), Some("in use"));
    assert!(run.stderr.is_empty());
}

#[test]
fn the_json_document_is_indented() {
    let report = report();
    let options = options(true, false, false, false);
    let text = print_json(&report, None, None, &options);
    let value = doctor_value(&report, None, None, &options);
    assert_eq!(text, serde_json::to_string_pretty(&value).unwrap());
    assert!(text.starts_with("{\n  \"base_dir\": \"/h/.dev-browser\",\n"));
}
