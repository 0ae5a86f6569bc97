//! How the doctor shows what it found: as lines for humans, or as a JSON
//! document.

use serde_json::Value;
use vstd::prelude::*;
use vstd::string::*;

use crate::doctor::{age_view, DoctorOptions, Timestamp};
use crate::gc::{
    build_gc_plan, candidate_views, deleted_by, dir_views, execute_gc_plan, fates_of, is_safe,
    law_execution_stays_inside, plan_bytes, plan_total, planned, profile_views, tells,
    BrowserProfileReport, CandidateModel, DirModel, DirReport, DoctorReport, Fate, GcCandidate,
    GcResult, ProfileModel, ReportModel, ResultModel, TmpEntry,
};
use crate::json::{
    array_value, bool_value, empty_object, items_of, json_of, member_of, null_value, number_value,
    pretty_json, set_member, signed_value, text_value, write_pretty, JsonModel,
};
use crate::paths::{lossy_text, FilePath};
use crate::response::stands_at;
use crate::text::{
    align_left, align_right, decimal, decimal_text, ends_with, left_aligned, lemma_mentions,
    mentions, right_aligned, signed_decimal, signed_text, spaces, texts,
};
use crate::units::{human_size, size_text};

verus! {

fn push_line(lines: &mut Vec<String>, line: String)
    ensures
        texts(final(lines)@) == texts(old(lines)@).push(line@),
{
    let ghost before = lines@;
    lines.push(line);
    proof {
        assert(texts(lines@) =~= texts(before).push(line@));
    }
}

fn push_lines(lines: &mut Vec<String>, more: Vec<String>)
    ensures
        texts(final(lines)@) == texts(old(lines)@) + texts(more@),
{
    let ghost before = lines@;
    let ghost added = more@;
    let mut more = more;
    lines.append(&mut more);
    proof {
        assert(texts(lines@) =~= texts(before) + texts(added));
    }
}

// ---------------------------------------------------------------------------
// Lines for humans
// ---------------------------------------------------------------------------

/// The state of the daemon in words.
pub open spec fn daemon_words(running: bool, pid: Option<i32>) -> Seq<char> {
    if running {
        match pid {
            Some(pid) => "running (pid "@ + signed_decimal(pid as int) + ")"@,
            None => "running (pid unknown)"@,
        }
    } else {
        "not running"@
    }
}

fn daemon_text(running: bool, pid: Option<i32>) -> (text: String)
    ensures
        text@ == daemon_words(running, pid),
{
    if running {
        match pid {
            Some(pid) => {
                let mut text = "running (pid ".to_string();
                text.append(&signed_text(pid as i64));
                text.append(")");
                text
            },
            None => "running (pid unknown)".to_string(),
        }
    } else {
        "not running".to_string()
    }
}

/// The line of a directory.
pub open spec fn dir_line(dir: DirModel) -> Seq<char> {
    if dir.exists {
        "  "@ + left_aligned(dir.label, 10) + " "@ + right_aligned(
            size_text(dir.total_bytes as nat),
            10,
        ) + "  ("@ + decimal(dir.file_count as nat) + " files)  "@ + lossy_text(dir.path)
    } else {
        "  "@ + left_aligned(dir.label, 10) + " (missing)  "@ + lossy_text(dir.path)
    }
}

fn dir_text(dir: &DirReport) -> (line: String)
    ensures
        line@ == dir_line(dir@),
{
    let mut line = "  ".to_string();
    line.append(&align_left(dir.label, 10));
    if dir.exists {
        line.append(" ");
        line.append(&align_right(&human_size(dir.total_bytes), 10));
        line.append("  (");
        line.append(&decimal_text(dir.file_count as u128));
        line.append(" files)  ");
        line.append(&dir.path.display());
    } else {
        line.append(" (missing)  ");
        line.append(&dir.path.display());
    }
    line
}

/// How long a profile has been idle, in words.
pub open spec fn age_words(age_days: Option<nat>) -> Seq<char> {
    match age_days {
        Some(days) => decimal(days) + "d idle"@,
        None => "age unknown"@,
    }
}

/// The line of a browser profile.
pub open spec fn profile_line(profile: ProfileModel) -> Seq<char> {
    "  "@ + left_aligned(profile.name, 20) + " "@ + right_aligned(
        size_text(profile.total_bytes as nat),
        10,
    ) + "  "@ + age_words(profile.age_days) + (if profile.stale {
        "  [STALE]"@
    } else {
        ""@
    })
}

fn profile_text(profile: &BrowserProfileReport) -> (line: String)
    ensures
        line@ == profile_line(profile@),
{
    let age = match profile.age_days {
        Some(days) => {
            let mut text = decimal_text(days as u128);
            text.append("d idle");
            text
        },
        None => "age unknown".to_string(),
    };
    let flag = if profile.stale {
        "  [STALE]"
    } else {
        ""
    };
    let mut line = "  ".to_string();
    line.append(&align_left(&profile.name, 20));
    line.append(" ");
    line.append(&align_right(&human_size(profile.total_bytes), 10));
    line.append("  ");
    line.append(&age);
    line.append(flag);
    line
}

/// The first lines: where things are, and whether the daemon runs.
pub open spec fn head_lines(report: ReportModel) -> Seq<Seq<char>> {
    seq!["dev-browser doctor"@, ""@, "Base dir: "@ + lossy_text(report.base_dir)] + (
    if report.base_dir_exists {
        seq![]
    } else {
        seq!["  (does not exist yet -- nothing has run that touches ~/.dev-browser)"@]
    }) + seq!["Daemon: "@ + daemon_words(report.daemon_running, report.daemon_pid)] + (
    match report.log_path {
        Some(path) => seq!["Daemon log: "@ + lossy_text(path)],
        None => seq![],
    }) + seq![""@]
}

fn head_text(report: &DoctorReport) -> (lines: Vec<String>)
    ensures
        texts(lines@) == head_lines(report@),
{
    let mut lines: Vec<String> = Vec::new();
    push_line(&mut lines, "dev-browser doctor".to_string());
    push_line(&mut lines, "".to_string());
    let mut base = "Base dir: ".to_string();
    base.append(&report.base_dir.display());
    push_line(&mut lines, base);
    if !report.base_dir_exists {
        push_line(
            &mut lines,
            "  (does not exist yet -- nothing has run that touches ~/.dev-browser)".to_string(),
        );
    }
    let mut daemon = "Daemon: ".to_string();
    daemon.append(&daemon_text(report.daemon_running, report.daemon_pid));
    push_line(&mut lines, daemon);
    if let Some(path) = &report.log_path {
        let mut log = "Daemon log: ".to_string();
        log.append(&path.display());
        push_line(&mut lines, log);
    }
    push_line(&mut lines, "".to_string());
    proof {
        assert(texts(lines@) =~= head_lines(report@));
    }
    lines
}

/// The lines on the disk usage.
pub open spec fn usage_lines(dirs: Seq<DirModel>) -> Seq<Seq<char>> {
    seq!["Disk usage:"@] + dirs.map_values(|dir: DirModel| dir_line(dir)) + seq![""@]
}

fn usage_text(dirs: &Vec<DirReport>) -> (lines: Vec<String>)
    ensures
        texts(lines@) == usage_lines(dir_views(dirs@)),
{
    let mut lines: Vec<String> = Vec::new();
    lines.push("Disk usage:".to_string());
    let mut i: usize = 0;
    while i < dirs.len()
        invariant
            i <= dirs@.len(),
            lines@.len() == i + 1,
            lines@[0]@ == "Disk usage:"@,
            forall|j: int| 0 <= j < i ==> (#[trigger] lines@[j + 1])@ == dir_line(dirs@[j]@),
        decreases dirs@.len() - i,
    {
        lines.push(dir_text(&dirs[i]));
        i = i + 1;
    }
    lines.push("".to_string());
    proof {
        let expected = usage_lines(dir_views(dirs@));
        assert forall|j: int| 0 <= j < lines@.len() implies (#[trigger] texts(lines@)[j])
            == expected[j] by {
            if 0 < j < lines@.len() - 1 {
                assert(lines@[(j - 1) + 1]@ == dir_line(dirs@[j - 1]@));
            }
        }
        assert(texts(lines@) =~= expected);
    }
    lines
}

/// The lines on the browser profiles.
pub open spec fn profiles_lines(profiles: Seq<ProfileModel>, stale_days: u64) -> Seq<Seq<char>> {
    if profiles.len() == 0 {
        seq!["Browser profiles: none."@]
    } else {
        seq![
            "Browser profiles ("@ + decimal(profiles.len()) + " total, stale threshold "@ + decimal(
                stale_days as nat,
            ) + " days):"@,
        ] + profiles.map_values(|profile: ProfileModel| profile_line(profile))
    }
}

fn profiles_text(profiles: &Vec<BrowserProfileReport>, stale_days: u64) -> (lines: Vec<String>)
    ensures
        texts(lines@) == profiles_lines(profile_views(profiles@), stale_days),
{
    let mut lines: Vec<String> = Vec::new();
    if profiles.len() == 0 {
        lines.push("Browser profiles: none.".to_string());
        proof {
            assert(texts(lines@) =~= profiles_lines(
                profile_views(profiles@),
                stale_days,
            ));
        }
        return lines;
    }
    let mut title = "Browser profiles (".to_string();
    title.append(&decimal_text(profiles.len() as u128));
    title.append(" total, stale threshold ");
    title.append(&decimal_text(stale_days as u128));
    title.append(" days):");
    let ghost heading = title@;
    lines.push(title);
    let mut i: usize = 0;
    while i < profiles.len()
        invariant
            i <= profiles@.len(),
            lines@.len() == i + 1,
            lines@[0]@ == heading,
            forall|j: int|
                0 <= j < i ==> (#[trigger] lines@[j + 1])@ == profile_line(profiles@[j]@),
        decreases profiles@.len() - i,
    {
        lines.push(profile_text(&profiles[i]));
        i = i + 1;
    }
    proof {
        let expected = profiles_lines(profile_views(profiles@), stale_days);
        assert forall|j: int| 0 <= j < lines@.len() implies (#[trigger] texts(lines@)[j])
            == expected[j] by {
            if 0 < j {
                assert(lines@[(j - 1) + 1]@ == profile_line(profiles@[j - 1]@));
            }
        }
        assert(texts(lines@) =~= expected);
    }
    lines
}

/// The line of a candidate.
pub open spec fn candidate_line(candidate: CandidateModel, confirm: bool) -> Seq<char> {
    "  "@ + (if confirm {
        "Deleted"@
    } else {
        "Would delete"@
    }) + ": ["@ + candidate.kind + "] "@ + lossy_text(candidate.path) + "  ("@ + size_text(
        candidate.bytes as nat,
    ) + ")"@
}

fn candidate_text(candidate: &GcCandidate, confirm: bool) -> (line: String)
    ensures
        line@ == candidate_line(candidate@, confirm),
{
    let verb = if confirm {
        "Deleted"
    } else {
        "Would delete"
    };
    let mut line = "  ".to_string();
    line.append(verb);
    line.append(": [");
    line.append(candidate.kind);
    line.append("] ");
    line.append(&candidate.path.display());
    line.append("  (");
    line.append(&human_size(candidate.bytes));
    line.append(")");
    line
}

/// The lines on a plan.
pub open spec fn plan_lines(plan: Seq<CandidateModel>, confirm: bool) -> Seq<Seq<char>> {
    if plan.len() == 0 {
        seq![
            ""@,
            "GC plan: nothing eligible (nothing older than the configured age thresholds)."@,
        ]
    } else {
        seq![
            ""@,
            "GC plan ("@ + decimal(plan.len()) + " items, "@ + size_text(plan_bytes(plan))
                + " reclaimable):"@,
        ] + plan.map_values(|candidate: CandidateModel| candidate_line(candidate, confirm)) + (
        if confirm {
            seq![]
        } else {
            seq![
                ""@,
                "This was a DRY RUN. Re-run with `--gc --yes` to actually delete these "@ + decimal(
                    plan.len(),
                ) + " items."@,
            ]
        })
    }
}

fn plan_text(plan: &Vec<GcCandidate>, total: u64, confirm: bool) -> (lines: Vec<String>)
    requires
        total == plan_bytes(candidate_views(plan@)),
    ensures
        texts(lines@) == plan_lines(candidate_views(plan@), confirm),
{
    let ghost expected = plan_lines(candidate_views(plan@), confirm);
    let mut lines: Vec<String> = Vec::new();
    lines.push("".to_string());
    if plan.len() == 0 {
        lines.push(
            "GC plan: nothing eligible (nothing older than the configured age thresholds).".to_string(),
        );
        proof {
            assert(texts(lines@) =~= expected);
        }
        return lines;
    }
    let mut title = "GC plan (".to_string();
    title.append(&decimal_text(plan.len() as u128));
    title.append(" items, ");
    title.append(&human_size(total));
    title.append(" reclaimable):");
    let ghost heading = title@;
    lines.push(title);
    let mut i: usize = 0;
    while i < plan.len()
        invariant
            i <= plan@.len(),
            lines@.len() == i + 2,
            lines@[0]@ == ""@,
            lines@[1]@ == heading,
            forall|j: int|
                0 <= j < i ==> (#[trigger] lines@[j + 2])@ == candidate_line(plan@[j]@, confirm),
        decreases plan@.len() - i,
    {
        lines.push(candidate_text(&plan[i], confirm));
        i = i + 1;
    }
    let ghost listed = lines@;
    if !confirm {
        lines.push("".to_string());
        let mut note =
            "This was a DRY RUN. Re-run with `--gc --yes` to actually delete these ".to_string();
        note.append(&decimal_text(plan.len() as u128));
        note.append(" items.");
        lines.push(note);
    }
    proof {
        assert forall|j: int| 0 <= j < listed.len() implies (#[trigger] texts(lines@)[j])
            == expected[j] by {
            assert(lines@[j] == listed[j]);
            if 1 < j {
                assert(listed[(j - 2) + 2]@ == candidate_line(plan@[j - 2]@, confirm));
            }
        }
        assert(texts(lines@) =~= expected);
    }
    lines
}

/// The lines on what a plan's execution did.
pub open spec fn result_lines(result: ResultModel) -> Seq<Seq<char>> {
    seq![
        ""@,
        "GC result: deleted "@ + decimal(result.deleted.len()) + " items, reclaimed "@ + size_text(
            result.reclaimed_bytes as nat,
        ) + "."@,
    ]
}

/// The line of a candidate that was not deleted.
pub open spec fn failure_line(failure: (Seq<u8>, Seq<char>)) -> Seq<char> {
    "  failed to delete "@ + lossy_text(failure.0) + ": "@ + failure.1
}

/// The lines on what was not deleted.
pub open spec fn failure_lines(result: ResultModel) -> Seq<Seq<char>> {
    result.failed.map_values(|failure: (Seq<u8>, Seq<char>)| failure_line(failure))
}

fn failure_texts(result: &GcResult) -> (lines: Vec<String>)
    ensures
        texts(lines@) == failure_lines(result@),
{
    let mut lines: Vec<String> = Vec::new();
    let mut i: usize = 0;
    while i < result.failed.len()
        invariant
            i <= result.failed@.len(),
            lines@.len() == i,
            forall|j: int|
                0 <= j < i ==> (#[trigger] lines@[j])@ == failure_line(
                    (result.failed@[j].0@, result.failed@[j].1@),
                ),
        decreases result.failed@.len() - i,
    {
        let failure = &result.failed[i];
        let mut line = "  failed to delete ".to_string();
        line.append(&failure.0.display());
        line.append(": ");
        line.append(&failure.1);
        lines.push(line);
        i = i + 1;
    }
    proof {
        assert(texts(lines@) =~= failure_lines(result@));
    }
    lines
}

/// All the lines for humans.
pub open spec fn human_lines(
    report: ReportModel,
    plan: Option<Seq<CandidateModel>>,
    result: Option<ResultModel>,
    confirm: bool,
) -> Seq<Seq<char>> {
    head_lines(report) + usage_lines(report.dirs) + profiles_lines(
        report.browser_profiles,
        report.stale_days,
    ) + (match plan {
        Some(plan) => plan_lines(plan, confirm),
        None => seq![],
    }) + (match result {
        Some(result) => result_lines(result),
        None => seq![],
    })
}

/// A plan, by its view.
pub open spec fn optional_plan(plan: Option<&Vec<GcCandidate>>) -> Option<Seq<CandidateModel>> {
    match plan {
        Some(plan) => Some(candidate_views(plan@)),
        None => None,
    }
}

/// A result, by its view.
pub open spec fn optional_result(result: Option<&GcResult>) -> Option<ResultModel> {
    match result {
        Some(result) => Some(result@),
        None => None,
    }
}

/// Whether the bytes of a plan can be counted.
pub open spec fn can_total(plan: Option<Seq<CandidateModel>>) -> bool {
    match plan {
        Some(plan) => plan_bytes(plan) <= u64::MAX,
        None => true,
    }
}

/// Shows the report, the plan and its result to humans. The first lines go to
/// the standard output, the second to the standard error.
pub fn print_human(
    report: &DoctorReport,
    gc_plan: Option<&Vec<GcCandidate>>,
    gc_result: Option<&GcResult>,
    options: &DoctorOptions,
) -> (output: (Vec<String>, Vec<String>))
    requires
        can_total(optional_plan(gc_plan)),
    ensures
        texts(output.0@) == human_lines(
            report@,
            optional_plan(gc_plan),
            optional_result(gc_result),
            options.confirm,
        ),
        texts(output.1@) == match gc_result {
            Some(result) => failure_lines(result@),
            None => seq![],
        },
{
    let mut lines = head_text(report);
    push_lines(&mut lines, usage_text(&report.dirs));
    push_lines(&mut lines, profiles_text(&report.browser_profiles, report.stale_days));
    if let Some(plan) = gc_plan {
        if let Some(total) = plan_total(plan) {
            push_lines(&mut lines, plan_text(plan, total, options.confirm));
        }
    }
    let mut errors: Vec<String> = Vec::new();
    if let Some(result) = gc_result {
        let mut line = "GC result: deleted ".to_string();
        line.append(&decimal_text(result.deleted.len() as u128));
        line.append(" items, reclaimed ");
        line.append(&human_size(result.reclaimed_bytes));
        line.append(".");
        push_line(&mut lines, "".to_string());
        push_line(&mut lines, line);
        errors = failure_texts(result);
    }
    proof {
        assert(texts(lines@) =~= human_lines(
            report@,
            optional_plan(gc_plan),
            optional_result(gc_result),
            options.confirm,
        ));
        if gc_result is None {
            assert(texts(errors@) =~= Seq::<Seq<char>>::empty());
        }
    }
    (lines, errors)
}

// ---------------------------------------------------------------------------
// The JSON document
// ---------------------------------------------------------------------------

/// A number that may be missing.
pub open spec fn optional_number(number: Option<nat>) -> JsonModel {
    match number {
        Some(number) => JsonModel::Number(decimal(number)),
        None => JsonModel::Null,
    }
}

fn optional_number_value(number: Option<u64>) -> (value: Value)
    ensures
        json_of(value) == optional_number(age_view(number)),
{
    match number {
        Some(number) => number_value(number),
        None => null_value(),
    }
}

fn path_value(path: &FilePath) -> (value: Value)
    ensures
        json_of(value) == JsonModel::Text(lossy_text(path@)),
{
    text_value(&path.display())
}

/// The document of a directory.
pub open spec fn dir_document(dir: DirModel) -> JsonModel {
    JsonModel::Object(
        map![
            "label"@ => JsonModel::Text(dir.label),
            "path"@ => JsonModel::Text(lossy_text(dir.path)),
            "exists"@ => JsonModel::Bool(dir.exists),
            "total_bytes"@ => JsonModel::Number(decimal(dir.total_bytes as nat)),
            "total_human"@ => JsonModel::Text(size_text(dir.total_bytes as nat)),
            "file_count"@ => JsonModel::Number(decimal(dir.file_count as nat)),
        ],
    )
}

fn dir_value(dir: &DirReport) -> (value: Value)
    ensures
        json_of(value) == dir_document(dir@),
{
    let mut value = empty_object();
    set_member(&mut value, "label", text_value(dir.label));
    set_member(&mut value, "path", path_value(&dir.path));
    set_member(&mut value, "exists", bool_value(dir.exists));
    set_member(&mut value, "total_bytes", number_value(dir.total_bytes));
    set_member(&mut value, "total_human", text_value(&human_size(dir.total_bytes)));
    set_member(&mut value, "file_count", number_value(dir.file_count));
    value
}

fn dirs_value(dirs: &Vec<DirReport>) -> (value: Value)
    ensures
        json_of(value) == JsonModel::Array(
            dir_views(dirs@).map_values(|dir: DirModel| dir_document(dir)),
        ),
{
    let mut items: Vec<Value> = Vec::new();
    let mut i: usize = 0;
    while i < dirs.len()
        invariant
            i <= dirs@.len(),
            items@.len() == i,
            forall|j: int| 0 <= j < i ==> json_of(#[trigger] items@[j]) == dir_document(dirs@[j]@),
        decreases dirs@.len() - i,
    {
        items.push(dir_value(&dirs[i]));
        i = i + 1;
    }
    proof {
        assert(items_of(items@) =~= dir_views(dirs@).map_values(
            |dir: DirModel| dir_document(dir),
        ));
    }
    array_value(items)
}

/// The document of a browser profile.
pub open spec fn profile_document(profile: ProfileModel) -> JsonModel {
    JsonModel::Object(
        map![
            "name"@ => JsonModel::Text(profile.name),
            "path"@ => JsonModel::Text(lossy_text(profile.path)),
            "total_bytes"@ => JsonModel::Number(decimal(profile.total_bytes as nat)),
            "total_human"@ => JsonModel::Text(size_text(profile.total_bytes as nat)),
            "file_count"@ => JsonModel::Number(decimal(profile.file_count as nat)),
            "age_days"@ => optional_number(profile.age_days),
            "stale"@ => JsonModel::Bool(profile.stale),
        ],
    )
}

fn profile_value(profile: &BrowserProfileReport) -> (value: Value)
    ensures
        json_of(value) == profile_document(profile@),
{
    let mut value = empty_object();
    set_member(&mut value, "name", text_value(&profile.name));
    set_member(&mut value, "path", path_value(&profile.path));
    set_member(&mut value, "total_bytes", number_value(profile.total_bytes));
    set_member(&mut value, "total_human", text_value(&human_size(profile.total_bytes)));
    set_member(&mut value, "file_count", number_value(profile.file_count));
    set_member(&mut value, "age_days", optional_number_value(profile.age_days));
    set_member(&mut value, "stale", bool_value(profile.stale));
    value
}

fn profiles_value(profiles: &Vec<BrowserProfileReport>) -> (value: Value)
    ensures
        json_of(value) == JsonModel::Array(
            profile_views(profiles@).map_values(
                |profile: ProfileModel| profile_document(profile),
            ),
        ),
{
    let mut items: Vec<Value> = Vec::new();
    let mut i: usize = 0;
    while i < profiles.len()
        invariant
            i <= profiles@.len(),
            items@.len() == i,
            forall|j: int|
                0 <= j < i ==> json_of(#[trigger] items@[j]) == profile_document(profiles@[j]@),
        decreases profiles@.len() - i,
    {
        items.push(profile_value(&profiles[i]));
        i = i + 1;
    }
    proof {
        assert(items_of(items@) =~= profile_views(profiles@).map_values(
            |profile: ProfileModel| profile_document(profile),
        ));
    }
    array_value(items)
}

/// The document of a candidate.
pub open spec fn candidate_document(candidate: CandidateModel) -> JsonModel {
    JsonModel::Object(
        map![
            "kind"@ => JsonModel::Text(candidate.kind),
            "path"@ => JsonModel::Text(lossy_text(candidate.path)),
            "bytes"@ => JsonModel::Number(decimal(candidate.bytes as nat)),
            "age_days"@ => optional_number(candidate.age_days),
        ],
    )
}

fn candidate_value(candidate: &GcCandidate) -> (value: Value)
    ensures
        json_of(value) == candidate_document(candidate@),
{
    let mut value = empty_object();
    set_member(&mut value, "kind", text_value(candidate.kind));
    set_member(&mut value, "path", path_value(&candidate.path));
    set_member(&mut value, "bytes", number_value(candidate.bytes));
    set_member(&mut value, "age_days", optional_number_value(candidate.age_days));
    value
}

fn candidates_value(plan: &Vec<GcCandidate>) -> (value: Value)
    ensures
        json_of(value) == JsonModel::Array(
            candidate_views(plan@).map_values(
                |candidate: CandidateModel| candidate_document(candidate),
            ),
        ),
{
    let mut items: Vec<Value> = Vec::new();
    let mut i: usize = 0;
    while i < plan.len()
        invariant
            i <= plan@.len(),
            items@.len() == i,
            forall|j: int|
                0 <= j < i ==> json_of(#[trigger] items@[j]) == candidate_document(plan@[j]@),
        decreases plan@.len() - i,
    {
        items.push(candidate_value(&plan[i]));
        i = i + 1;
    }
    proof {
        assert(items_of(items@) =~= candidate_views(plan@).map_values(
            |candidate: CandidateModel| candidate_document(candidate),
        ));
    }
    array_value(items)
}

/// The document of a candidate that was not deleted.
pub open spec fn failure_document(failure: (Seq<u8>, Seq<char>)) -> JsonModel {
    JsonModel::Object(
        map![
            "path"@ => JsonModel::Text(lossy_text(failure.0)),
            "error"@ => JsonModel::Text(failure.1),
        ],
    )
}

/// The document of what a plan's execution did, if it was executed.
pub open spec fn result_document(result: Option<ResultModel>) -> JsonModel {
    match result {
        Some(result) => JsonModel::Object(
            map![
                "deleted_count"@ => JsonModel::Number(decimal(result.deleted.len())),
                "reclaimed_bytes"@ => JsonModel::Number(decimal(result.reclaimed_bytes as nat)),
                "failed"@ => JsonModel::Array(
                    result.failed.map_values(
                        |failure: (Seq<u8>, Seq<char>)| failure_document(failure),
                    ),
                ),
            ],
        ),
        None => JsonModel::Null,
    }
}

fn failures_value(result: &GcResult) -> (value: Value)
    ensures
        json_of(value) == JsonModel::Array(
            result@.failed.map_values(|failure: (Seq<u8>, Seq<char>)| failure_document(failure)),
        ),
{
    let mut items: Vec<Value> = Vec::new();
    let mut i: usize = 0;
    while i < result.failed.len()
        invariant
            i <= result.failed@.len(),
            items@.len() == i,
            forall|j: int|
                0 <= j < i ==> json_of(#[trigger] items@[j]) == failure_document(
                    (result.failed@[j].0@, result.failed@[j].1@),
                ),
        decreases result.failed@.len() - i,
    {
        let failure = &result.failed[i];
        let mut item = empty_object();
        set_member(&mut item, "path", path_value(&failure.0));
        set_member(&mut item, "error", text_value(&failure.1));
        items.push(item);
        i = i + 1;
    }
    proof {
        assert(items_of(items@) =~= result@.failed.map_values(
            |failure: (Seq<u8>, Seq<char>)| failure_document(failure),
        ));
    }
    array_value(items)
}

fn result_value(gc_result: Option<&GcResult>) -> (value: Value)
    ensures
        json_of(value) == result_document(optional_result(gc_result)),
{
    match gc_result {
        Some(result) => {
            let mut value = empty_object();
            set_member(&mut value, "deleted_count", number_value(result.deleted.len() as u64));
            set_member(&mut value, "reclaimed_bytes", number_value(result.reclaimed_bytes));
            set_member(&mut value, "failed", failures_value(result));
            value
        },
        None => null_value(),
    }
}

/// The document of the collector, if it was asked for.
pub open spec fn gc_document(
    plan: Option<Seq<CandidateModel>>,
    result: Option<ResultModel>,
    options: DoctorOptions,
) -> JsonModel {
    match plan {
        Some(plan) => JsonModel::Object(
            map![
                "requested"@ => JsonModel::Bool(true),
                "confirmed"@ => JsonModel::Bool(options.confirm),
                "min_age_days"@ => JsonModel::Number(decimal(options.min_age_days as nat)),
                "include_browser_profiles"@ => JsonModel::Bool(options.include_browser_profiles),
                "candidates"@ => JsonModel::Array(
                    plan.map_values(|candidate: CandidateModel| candidate_document(candidate)),
                ),
                "reclaimable_bytes"@ => JsonModel::Number(decimal(plan_bytes(plan))),
                "result"@ => result_document(result),
            ],
        ),
        None => JsonModel::Null,
    }
}

fn gc_value(
    gc_plan: Option<&Vec<GcCandidate>>,
    gc_result: Option<&GcResult>,
    options: &DoctorOptions,
) -> (value: Value)
    requires
        can_total(optional_plan(gc_plan)),
    ensures
        json_of(value) == gc_document(
            optional_plan(gc_plan),
            optional_result(gc_result),
            *options,
        ),
{
    match gc_plan {
        Some(plan) => {
            let total: u64 = match plan_total(plan) {
                Some(total) => total,
                None => 0,
            };
            let mut value = empty_object();
            set_member(&mut value, "requested", bool_value(true));
            set_member(&mut value, "confirmed", bool_value(options.confirm));
            set_member(&mut value, "min_age_days", number_value(options.min_age_days));
            set_member(
                &mut value,
                "include_browser_profiles",
                bool_value(options.include_browser_profiles),
            );
            set_member(&mut value, "candidates", candidates_value(plan));
            set_member(&mut value, "reclaimable_bytes", number_value(total));
            set_member(&mut value, "result", result_value(gc_result));
            value
        },
        None => null_value(),
    }
}

/// The document of the daemon's state.
pub open spec fn daemon_document(running: bool, pid: Option<i32>) -> JsonModel {
    JsonModel::Object(
        map![
            "running"@ => JsonModel::Bool(running),
            "pid"@ => match pid {
                Some(pid) => JsonModel::Number(signed_decimal(pid as int)),
                None => JsonModel::Null,
            },
        ],
    )
}

/// The whole document.
pub open spec fn doctor_document(
    report: ReportModel,
    plan: Option<Seq<CandidateModel>>,
    result: Option<ResultModel>,
    options: DoctorOptions,
) -> JsonModel {
    JsonModel::Object(
        map![
            "base_dir"@ => JsonModel::Text(lossy_text(report.base_dir)),
            "base_dir_exists"@ => JsonModel::Bool(report.base_dir_exists),
            "daemon"@ => daemon_document(report.daemon_running, report.daemon_pid),
            "log_path"@ => match report.log_path {
                Some(path) => JsonModel::Text(lossy_text(path)),
                None => JsonModel::Null,
            },
            "dirs"@ => JsonModel::Array(
                report.dirs.map_values(|dir: DirModel| dir_document(dir)),
            ),
            "browser_profiles"@ => JsonModel::Array(
                report.browser_profiles.map_values(
                    |profile: ProfileModel| profile_document(profile),
                ),
            ),
            "stale_days_threshold"@ => JsonModel::Number(decimal(report.stale_days as nat)),
            "gc"@ => gc_document(plan, result, options),
        ],
    )
}

/// Puts the document of the report, the plan and its result together.
pub fn doctor_value(
    report: &DoctorReport,
    gc_plan: Option<&Vec<GcCandidate>>,
    gc_result: Option<&GcResult>,
    options: &DoctorOptions,
) -> (value: Value)
    requires
        can_total(optional_plan(gc_plan)),
    ensures
        json_of(value) == doctor_document(
            report@,
            optional_plan(gc_plan),
            optional_result(gc_result),
            *options,
        ),
{
    let pid = match report.daemon_pid {
        Some(pid) => signed_value(pid as i64),
        None => null_value(),
    };
    let mut daemon = empty_object();
    set_member(&mut daemon, "running", bool_value(report.daemon_running));
    set_member(&mut daemon, "pid", pid);
    let log_path = match &report.log_path {
        Some(path) => path_value(path),
        None => null_value(),
    };
    let mut value = empty_object();
    set_member(&mut value, "base_dir", path_value(&report.base_dir));
    set_member(&mut value, "base_dir_exists", bool_value(report.base_dir_exists));
    set_member(&mut value, "daemon", daemon);
    set_member(&mut value, "log_path", log_path);
    set_member(&mut value, "dirs", dirs_value(&report.dirs));
    set_member(&mut value, "browser_profiles", profiles_value(&report.browser_profiles));
    set_member(&mut value, "stale_days_threshold", number_value(report.stale_days));
    set_member(&mut value, "gc", gc_value(gc_plan, gc_result, options));
    value
}

/// Shows the report, the plan and its result as a JSON document.
pub fn print_json(
    report: &DoctorReport,
    gc_plan: Option<&Vec<GcCandidate>>,
    gc_result: Option<&GcResult>,
    options: &DoctorOptions,
) -> (text: String)
    requires
        can_total(optional_plan(gc_plan)),
    ensures
        text@ == pretty_json(
            doctor_document(
                report@,
                optional_plan(gc_plan),
                optional_result(gc_result),
                *options,
            ),
        ),
{
    match write_pretty(&doctor_value(report, gc_plan, gc_result, options)) {
        Ok(text) => text,
        Err(_) => "{}".to_string(),
    }
}

// ---------------------------------------------------------------------------
// The command
// ---------------------------------------------------------------------------

/// What is said of options that have no effect.
pub open spec fn warnings_on(options: DoctorOptions) -> Seq<Seq<char>> {
    (if options.confirm && !options.gc {
        seq!["Warning: --yes has no effect without --gc; nothing was planned to delete."@]
    } else {
        seq![]
    }) + (if options.include_browser_profiles && !options.gc {
        seq!["Warning: --include-browser-profiles has no effect without --gc."@]
    } else {
        seq![]
    })
}

/// Warns of options that have no effect.
pub fn doctor_warnings(options: &DoctorOptions) -> (warnings: Vec<String>)
    ensures
        texts(warnings@) == warnings_on(*options),
{
    let mut warnings: Vec<String> = Vec::new();
    if options.confirm && !options.gc {
        push_line(
            &mut warnings,
            "Warning: --yes has no effect without --gc; nothing was planned to delete.".to_string(),
        );
    }
    if options.include_browser_profiles && !options.gc {
        push_line(
            &mut warnings,
            "Warning: --include-browser-profiles has no effect without --gc.".to_string(),
        );
    }
    proof {
        assert(texts(warnings@) =~= warnings_on(*options));
    }
    warnings
}

/// What the command prints, and the code that it exits with.
#[derive(Debug)]
pub struct DoctorRun {
    pub stdout: Vec<String>,
    pub stderr: Vec<String>,
    pub exit_code: i32,
}

/// The plan, if the collector was asked for.
pub open spec fn requested_plan(
    report: ReportModel,
    options: DoctorOptions,
    entries: Seq<TmpEntry>,
    now: Timestamp,
) -> Option<Seq<CandidateModel>> {
    if options.gc {
        Some(planned(report, options, entries, now))
    } else {
        None
    }
}

/// Whether `result` is what the execution of a plan by means of `resolve` and
/// `delete` did.
pub open spec fn executed<
    R: Fn(&FilePath) -> Result<FilePath, String>,
    F: Fn(&GcCandidate) -> Result<(), String>,
>(
    result: ResultModel,
    plan: Seq<CandidateModel>,
    resolve: R,
    delete: F,
    base_dir: Seq<u8>,
) -> bool {
    exists|candidates: Seq<GcCandidate>, fates: Seq<Fate>| #[trigger]
        fates_of(fates, resolve, delete, base_dir, candidates) && candidate_views(candidates)
            == plan && tells(result, plan, fates)
}

/// Whether a run shows the report, the plan and the given result.
pub open spec fn shows(
    run: DoctorRun,
    report: ReportModel,
    plan: Option<Seq<CandidateModel>>,
    result: Option<ResultModel>,
    options: DoctorOptions,
) -> bool {
    &&& texts(run.stdout@) == if options.json {
        seq![pretty_json(doctor_document(report, plan, result, options))]
    } else {
        human_lines(report, plan, result, options.confirm)
    }
    &&& texts(run.stderr@) == match result {
        Some(result) => if options.json {
            seq![]
        } else {
            failure_lines(result)
        },
        None => seq![],
    }
}

/// Whether anything is to be deleted: the collector is asked for and
/// confirmed, and the bytes of its plan can be counted.
pub open spec fn is_to_delete(
    report: ReportModel,
    options: DoctorOptions,
    entries: Seq<TmpEntry>,
    now: Timestamp,
) -> bool {
    options.gc && options.confirm && can_total(requested_plan(report, options, entries, now))
}

/// Runs the command on a report. `entries` is what is in the temporary
/// directory. Nothing comes of it only if the bytes of the plan are too many to
/// be counted.
///
/// By default nothing is deleted: unless the collector is asked for and
/// confirmed, `resolve` and `delete` are never called and need not even be
/// callable. Then `delete` is handed only what is planned, and of that only
/// what is inside the base directory.
pub fn run_doctor<
    R: Fn(&FilePath) -> Result<FilePath, String>,
    F: Fn(&GcCandidate) -> Result<(), String>,
>(
    report: &DoctorReport,
    options: &DoctorOptions,
    entries: &Vec<TmpEntry>,
    now: Timestamp,
    resolve: R,
    delete: F,
) -> (run: Option<DoctorRun>)
    requires
        is_to_delete(report@, *options, entries@, now) ==> forall|asked: FilePath| #[trigger]
            call_requires(resolve, (&asked,)),
        is_to_delete(report@, *options, entries@, now) ==> forall|candidate: GcCandidate|
            planned(report@, *options, entries@, now).contains(candidate@) && is_safe(
                resolve,
                report@.base_dir,
                candidate.path@,
            ) ==> #[trigger] call_requires(delete, (&candidate,)),
    ensures
        run is Some <==> can_total(requested_plan(report@, *options, entries@, now)),
        !options.gc ==> run is Some,
        run is Some ==> run->0.exit_code == 0,
        run is Some && !(options.gc && options.confirm) ==> shows(
            run->0,
            report@,
            requested_plan(report@, *options, entries@, now),
            None,
            *options,
        ),
        run is Some && options.gc && options.confirm ==> exists|result: ResultModel| #[trigger]
            executed(
                result,
                planned(report@, *options, entries@, now),
                resolve,
                delete,
                report@.base_dir,
            ) && shows(
                run->0,
                report@,
                requested_plan(report@, *options, entries@, now),
                Some(result),
                *options,
            ),
{
    let mut gc_plan: Option<Vec<GcCandidate>> = None;
    let mut gc_result: Option<GcResult> = None;
    if options.gc {
        let plan = build_gc_plan(report, options, entries, now);
        if plan_total(&plan).is_none() {
            return None;
        }
        if options.confirm {
            proof {
                let listed = planned(report@, *options, entries@, now);
                assert forall|i: int|
                    0 <= i < plan@.len() && is_safe(
                        resolve,
                        report.base_dir@,
                        (#[trigger] plan@[i]).path@,
                    ) implies call_requires(delete, (&plan@[i],)) by {
                    assert(candidate_views(plan@)[i] == plan@[i]@);
                    assert(listed.contains(plan@[i]@));
                }
            }
            let result = execute_gc_plan(&report.base_dir, &plan, resolve, delete);
            proof {
                let fates = choose|fates: Seq<Fate>| #[trigger]
                    fates_of(fates, resolve, delete, report.base_dir@, plan@) && tells(
                        result@,
                        candidate_views(plan@),
                        fates,
                    );
                assert(fates_of(fates, resolve, delete, report.base_dir@, plan@));
                assert(executed(
                    result@,
                    planned(report@, *options, entries@, now),
                    resolve,
                    delete,
                    report@.base_dir,
                ));
            }
            gc_result = Some(result);
        }
        gc_plan = Some(plan);
    }
    let shown_plan = gc_plan.as_ref();
    let shown_result = gc_result.as_ref();
    let mut stdout: Vec<String> = Vec::new();
    let mut stderr: Vec<String> = Vec::new();
    if options.json {
        let text = print_json(report, shown_plan, shown_result, options);
        let ghost document = text@;
        stdout.push(text);
        proof {
            assert(texts(stdout@) =~= seq![document]);
            assert(texts(stderr@) =~= Seq::<Seq<char>>::empty());
        }
    } else {
        let (lines, errors) = print_human(report, shown_plan, shown_result, options);
        stdout = lines;
        stderr = errors;
    }
    let run = DoctorRun { stdout, stderr, exit_code: 0 };
    proof {
        let plan = requested_plan(report@, *options, entries@, now);
        assert(optional_plan(shown_plan) == plan);
        match gc_result {
            Some(result) => {
                assert(shows(run, report@, plan, Some(result@), *options));
            },
            None => {
                assert(shows(run, report@, plan, None, *options));
            },
        }
    }
    Some(run)
}

// ---------------------------------------------------------------------------
// Laws
// ---------------------------------------------------------------------------

/// What humans are told of the daemon is whether it runs, and its process if it
/// does and that is known.
pub proof fn law_the_daemon_is_described(running: bool, pid: Option<i32>)
    ensures
        !running ==> daemon_words(running, pid) == "not running"@,
        running && pid is None ==> daemon_words(running, pid) == "running (pid unknown)"@,
        running && pid is Some ==> daemon_words(running, pid) == "running (pid "@
            + signed_decimal(pid->0 as int) + ")"@,
{
}

/// The line of a directory names it and says where it is; if it is there, how
/// large it is and how many files are in it, and else that it is missing.
pub proof fn law_a_directory_is_described(dir: DirModel)
    ensures
        mentions(dir_line(dir), dir.label),
        ends_with(dir_line(dir), lossy_text(dir.path)),
        dir.exists ==> mentions(dir_line(dir), size_text(dir.total_bytes as nat)),
        dir.exists ==> mentions(
            dir_line(dir),
            "("@ + decimal(dir.file_count as nat) + " files)"@,
        ),
        !dir.exists ==> mentions(dir_line(dir), "(missing)"@),
{
    let label = left_aligned(dir.label, 10);
    let path = lossy_text(dir.path);
    let line = dir_line(dir);
    assert(line.skip(line.len() - path.len()) =~= path);
    lemma_aligned_mentions(dir.label, 10);
    if dir.exists {
        let size = right_aligned(size_text(dir.total_bytes as nat), 10);
        let count = decimal(dir.file_count as nat);
        lemma_aligned_mentions(size_text(dir.total_bytes as nat), 10);
        let rest = " "@ + size + "  ("@ + count + " files)  "@ + path;
        lemma_mentions_within("  "@, label, rest, dir.label);
        assert(line =~= "  "@ + label + rest);
        let before = "  "@ + label + " "@;
        let after = "  ("@ + count + " files)  "@ + path;
        lemma_mentions_within(before, size, after, size_text(dir.total_bytes as nat));
        assert(line =~= before + size + after);
        reveal_strlit("  (");
        reveal_strlit("(");
        reveal_strlit("  ");
        reveal_strlit(" files)");
        reveal_strlit(" files)  ");
        let words = "("@ + count + " files)"@;
        let to_count = before + size + "  "@;
        lemma_mentions(to_count, words, "  "@ + path);
        assert(line =~= to_count + words + ("  "@ + path));
    } else {
        lemma_mentions_within("  "@, label, " (missing)  "@ + path, dir.label);
        assert(line =~= "  "@ + label + (" (missing)  "@ + path));
        reveal_strlit(" (missing)  ");
        reveal_strlit(" ");
        reveal_strlit("(missing)");
        reveal_strlit("  ");
        let before = "  "@ + label + " "@;
        lemma_mentions(before, "(missing)"@, "  "@ + path);
        assert(line =~= before + "(missing)"@ + ("  "@ + path));
    }
}

proof fn lemma_aligned_mentions(text: Seq<char>, width: nat)
    ensures
        mentions(left_aligned(text, width), text),
        mentions(right_aligned(text, width), text),
{
    if text.len() < width {
        let gap = spaces((width - text.len()) as nat);
        lemma_mentions(gap, text, gap);
    } else {
        lemma_mentions(Seq::empty(), text, Seq::empty());
        assert(text + Seq::<char>::empty() =~= text);
    }
}

proof fn lemma_mentions_within(
    before: Seq<char>,
    middle: Seq<char>,
    after: Seq<char>,
    part: Seq<char>,
)
    requires
        mentions(middle, part),
    ensures
        mentions(before + middle + after, part),
{
    reveal(mentions);
    let from = choose|from: int|
        0 <= from <= middle.len() - part.len() && #[trigger] middle.subrange(
            from,
            from + part.len(),
        ) == part;
    let whole = before + middle + after;
    let at = before.len() + from;
    assert(whole.subrange(at, at + part.len()) =~= middle.subrange(from, from + part.len()));
}

/// The line of a profile names it and says how large it is and how long it has
/// been idle, and it is flagged exactly if it is stale.
pub proof fn law_a_profile_is_described(profile: ProfileModel)
    ensures
        mentions(profile_line(profile), profile.name),
        mentions(profile_line(profile), size_text(profile.total_bytes as nat)),
        profile.age_days matches Some(days) ==> mentions(
            profile_line(profile),
            decimal(days) + "d idle"@,
        ),
        profile.age_days is None ==> mentions(profile_line(profile), "age unknown"@),
        ends_with(profile_line(profile), "  [STALE]"@) <==> profile.stale,
        profile_line(ProfileModel { stale: true, ..profile }) == profile_line(
            (ProfileModel { stale: false, ..profile }),
        ) + "  [STALE]"@,
{
    let line = profile_line(profile);
    let name = left_aligned(profile.name, 20);
    let size = right_aligned(size_text(profile.total_bytes as nat), 10);
    let age = age_words(profile.age_days);
    let flag = if profile.stale {
        "  [STALE]"@
    } else {
        ""@
    };
    reveal_strlit("  [STALE]");
    reveal_strlit("");
    reveal_strlit("d idle");
    reveal_strlit("age unknown");
    lemma_aligned_mentions(profile.name, 20);
    lemma_aligned_mentions(size_text(profile.total_bytes as nat), 10);
    let rest = " "@ + size + "  "@ + age + flag;
    lemma_mentions_within("  "@, name, rest, profile.name);
    assert(line =~= "  "@ + name + rest);
    let before = "  "@ + name + " "@;
    let after = "  "@ + age + flag;
    lemma_mentions_within(before, size, after, size_text(profile.total_bytes as nat));
    assert(line =~= before + size + after);
    lemma_mentions(before + size + "  "@, age, flag);
    assert(line =~= before + size + "  "@ + age + flag);
    let plain = before + size + "  "@ + age;
    if profile.stale {
        assert(line.skip(line.len() - 9) =~= "  [STALE]"@);
    } else {
        assert(line =~= plain);
        assert(line.last() == age.last());
        assert(age.last() == 'e' || age.last() == 'n');
        if ends_with(line, "  [STALE]"@) {
            assert(line.skip(line.len() - 9).last() == line.last());
            assert("  [STALE]"@[8] == ']');
        }
    }
    let stale = ProfileModel { stale: true, ..profile };
    let fresh = ProfileModel { stale: false, ..profile };
    assert(profile_line(fresh) =~= plain);
    assert(profile_line(stale) =~= plain + "  [STALE]"@);
}

/// The lines for humans say where things are and whether the daemon runs, then
/// what the disk usage of every directory is, then what profiles there are, each
/// on a line of its own.
pub proof fn law_the_report_is_told_in_order(report: ReportModel)
    ensures
        ({
            let lines = human_lines(report, None, None, false);
            let head = head_lines(report);
            let dirs = report.dirs.len() as int;
            let profiles = report.browser_profiles.len() as int;
            let usage = head.len() as int;
            let listed = usage + dirs + 2;
            let missing: int = if report.base_dir_exists {
                0
            } else {
                1
            };
            let logged: int = if report.log_path is Some {
                1
            } else {
                0
            };
            &&& head.len() == 5 + missing + logged
            &&& lines[0] == "dev-browser doctor"@ && lines[1] == ""@
            &&& lines[2] == "Base dir: "@ + lossy_text(report.base_dir)
            &&& !report.base_dir_exists ==> lines[3]
                == "  (does not exist yet -- nothing has run that touches ~/.dev-browser)"@
            &&& lines[usage - 1] == ""@ && lines[listed - 1] == ""@
            &&& head.contains(
                "Daemon: "@ + daemon_words(report.daemon_running, report.daemon_pid),
            )
            &&& report.log_path matches Some(path) ==> head.contains(
                "Daemon log: "@ + lossy_text(path),
            )
            &&& lines[usage] == "Disk usage:"@
            &&& forall|i: int|
                0 <= i < dirs ==> lines[usage + 1 + i] == dir_line(#[trigger] report.dirs[i])
            &&& profiles == 0 ==> lines.len() == listed + 1 && lines[listed]
                == "Browser profiles: none."@
            &&& profiles > 0 ==> lines.len() == listed + 1 + profiles && lines[listed]
                == "Browser profiles ("@ + decimal(profiles as nat) + " total, stale threshold "@
                + decimal(report.stale_days as nat) + " days):"@
            &&& forall|i: int|
                0 <= i < profiles ==> lines[listed + 1 + i] == profile_line(
                    #[trigger] report.browser_profiles[i],
                )
        }),
{
    let lines = human_lines(report, None, None, false);
    let head = head_lines(report);
    let usage = usage_lines(report.dirs);
    let profiles = profiles_lines(report.browser_profiles, report.stale_days);
    assert(lines =~= head + usage + profiles);
    let daemon = "Daemon: "@ + daemon_words(report.daemon_running, report.daemon_pid);
    let at: int = if report.base_dir_exists {
        3
    } else {
        4
    };
    assert(head[at] == daemon);
    if let Some(path) = report.log_path {
        assert(head[at + 1] == "Daemon log: "@ + lossy_text(path));
    }
    assert forall|i: int| 0 <= i < report.dirs.len() implies lines[head.len() + 1 + i] == dir_line(
        #[trigger] report.dirs[i],
    ) by {
        assert(usage[1 + i] == dir_line(report.dirs[i]));
    }
    let listed = head.len() + usage.len();
    assert forall|i: int| 0 <= i < report.browser_profiles.len() implies lines[listed + 1 + i]
        == profile_line(#[trigger] report.browser_profiles[i]) by {
        assert(profiles[1 + i] == profile_line(report.browser_profiles[i]));
    }
}

/// A plan is told behind the report, and what its execution did behind the plan;
/// without them the report is told alone.
pub proof fn law_a_plan_is_told_behind_the_report(
    report: ReportModel,
    plan: Option<Seq<CandidateModel>>,
    result: Option<ResultModel>,
    confirm: bool,
)
    ensures
        ({
            let alone = human_lines(report, None, None, false);
            let lines = human_lines(report, plan, result, confirm);
            &&& plan is None && result is None ==> lines == alone
            &&& plan is Some && result is None ==> lines == alone + plan_lines(plan->0, confirm)
            &&& plan is Some && result is Some ==> lines == alone + plan_lines(plan->0, confirm)
                + result_lines(result->0)
        }),
{
    let alone = human_lines(report, None, None, false);
    let lines = human_lines(report, plan, result, confirm);
    if plan is None && result is None {
        assert(lines =~= alone);
    } else if plan is Some && result is None {
        assert(lines =~= alone + plan_lines(plan->0, confirm));
    } else if plan is Some {
        assert(lines =~= alone + plan_lines(plan->0, confirm) + result_lines(result->0));
    }
}

/// The lines of a plan count its candidates and the bytes that they would free,
/// and list every candidate in order. Unless the deletion is confirmed, they say
/// what would be deleted and, at the end, that nothing was.
pub proof fn law_a_plan_is_told_candidate_by_candidate(plan: Seq<CandidateModel>, confirm: bool)
    requires
        plan.len() > 0,
    ensures
        ({
            let lines = plan_lines(plan, confirm);
            let verb = if confirm {
                "  Deleted: ["@
            } else {
                "  Would delete: ["@
            };
            &&& lines.len() == plan.len() + if confirm {
                2nat
            } else {
                4nat
            }
            &&& lines[0] == ""@
            &&& !confirm ==> lines[lines.len() - 2] == ""@
            &&& lines[1] == "GC plan ("@ + decimal(plan.len()) + " items, "@ + size_text(
                plan_bytes(plan),
            ) + " reclaimable):"@
            &&& forall|i: int|
                0 <= i < plan.len() ==> lines[2 + i] == verb + (#[trigger] plan[i]).kind + "] "@
                    + lossy_text(plan[i].path) + "  ("@ + size_text(plan[i].bytes as nat) + ")"@
            &&& !confirm ==> lines.last()
                == "This was a DRY RUN. Re-run with `--gc --yes` to actually delete these "@
                + decimal(plan.len()) + " items."@
        }),
{
    let lines = plan_lines(plan, confirm);
    let verb = if confirm {
        "  Deleted: ["@
    } else {
        "  Would delete: ["@
    };
    reveal_strlit("  ");
    reveal_strlit("Deleted");
    reveal_strlit("Would delete");
    reveal_strlit(": [");
    reveal_strlit("  Deleted: [");
    reveal_strlit("  Would delete: [");
    assert("  "@ + "Deleted"@ + ": ["@ =~= "  Deleted: ["@);
    assert("  "@ + "Would delete"@ + ": ["@ =~= "  Would delete: ["@);
    assert forall|i: int| 0 <= i < plan.len() implies lines[2 + i] == verb + (
    #[trigger] plan[i]).kind + "] "@ + lossy_text(plan[i].path) + "  ("@ + size_text(
        plan[i].bytes as nat,
    ) + ")"@ by {
        assert(lines[2 + i] == candidate_line(plan[i], confirm));
    }
}

/// An empty plan is told as such, confirmed or not.
pub proof fn law_an_empty_plan_is_told(confirm: bool)
    ensures
        plan_lines(Seq::empty(), confirm) == seq![
            ""@,
            "GC plan: nothing eligible (nothing older than the configured age thresholds)."@,
        ],
{
}

/// What the execution of a plan did is told by the number of what was deleted and
/// the bytes that were freed; and for each candidate that was not deleted there is
/// a line with the reason.
pub proof fn law_a_result_is_told(result: ResultModel)
    ensures
        result_lines(result).len() == 2 && result_lines(result)[0] == ""@,
        result_lines(result).last() == "GC result: deleted "@ + decimal(result.deleted.len())
            + " items, reclaimed "@ + size_text(result.reclaimed_bytes as nat) + "."@,
        failure_lines(result).len() == result.failed.len(),
        forall|i: int|
            0 <= i < result.failed.len() ==> failure_lines(result)[i] == "  failed to delete "@
                + lossy_text((#[trigger] result.failed[i]).0) + ": "@ + result.failed[i].1,
{
    assert forall|i: int| 0 <= i < result.failed.len() implies failure_lines(result)[i]
        == "  failed to delete "@ + lossy_text((#[trigger] result.failed[i]).0) + ": "@
        + result.failed[i].1 by {
        assert(failure_lines(result)[i] == failure_line(result.failed[i]));
    }
}

/// The document of a directory says everything that is known of it.
pub proof fn law_a_directory_is_documented(dir: DirModel)
    ensures
        ({
            let document = dir_document(dir);
            &&& member_of(document, "label"@) == Some(JsonModel::Text(dir.label))
            &&& member_of(document, "path"@) == Some(JsonModel::Text(lossy_text(dir.path)))
            &&& member_of(document, "exists"@) == Some(JsonModel::Bool(dir.exists))
            &&& member_of(document, "total_bytes"@) == Some(
                JsonModel::Number(decimal(dir.total_bytes as nat)),
            )
            &&& member_of(document, "total_human"@) == Some(
                JsonModel::Text(size_text(dir.total_bytes as nat)),
            )
            &&& member_of(document, "file_count"@) == Some(
                JsonModel::Number(decimal(dir.file_count as nat)),
            )
        }),
{
    lemma_member_names();
}

/// The document of a profile says everything that is known of it; an age that is
/// not known is `null`.
pub proof fn law_a_profile_is_documented(profile: ProfileModel)
    ensures
        ({
            let document = profile_document(profile);
            &&& member_of(document, "name"@) == Some(JsonModel::Text(profile.name))
            &&& member_of(document, "path"@) == Some(JsonModel::Text(lossy_text(profile.path)))
            &&& member_of(document, "total_bytes"@) == Some(
                JsonModel::Number(decimal(profile.total_bytes as nat)),
            )
            &&& member_of(document, "total_human"@) == Some(
                JsonModel::Text(size_text(profile.total_bytes as nat)),
            )
            &&& member_of(document, "file_count"@) == Some(
                JsonModel::Number(decimal(profile.file_count as nat)),
            )
            &&& member_of(document, "stale"@) == Some(JsonModel::Bool(profile.stale))
            &&& profile.age_days is None ==> member_of(document, "age_days"@) == Some(
                JsonModel::Null,
            )
            &&& profile.age_days matches Some(days) ==> member_of(document, "age_days"@) == Some(
                JsonModel::Number(decimal(days)),
            )
        }),
{
    lemma_member_names();
}

/// The document of a candidate says everything that is known of it.
pub proof fn law_a_candidate_is_documented(candidate: CandidateModel)
    ensures
        ({
            let document = candidate_document(candidate);
            &&& member_of(document, "kind"@) == Some(JsonModel::Text(candidate.kind))
            &&& member_of(document, "path"@) == Some(JsonModel::Text(lossy_text(candidate.path)))
            &&& member_of(document, "bytes"@) == Some(
                JsonModel::Number(decimal(candidate.bytes as nat)),
            )
            &&& candidate.age_days is None ==> member_of(document, "age_days"@) == Some(
                JsonModel::Null,
            )
            &&& candidate.age_days matches Some(days) ==> member_of(document, "age_days"@) == Some(
                JsonModel::Number(decimal(days)),
            )
        }),
{
    lemma_member_names();
}

/// The document of what an execution did counts what was deleted and the bytes
/// that were freed, and lists what was not deleted with the reasons; without an
/// execution it is `null`.
pub proof fn law_a_result_is_documented(result: ResultModel)
    ensures
        result_document(None) is Null,
        ({
            let document = result_document(Some(result));
            let failed = member_of(document, "failed"@);
            &&& member_of(document, "deleted_count"@) == Some(
                JsonModel::Number(decimal(result.deleted.len())),
            )
            &&& member_of(document, "reclaimed_bytes"@) == Some(
                JsonModel::Number(decimal(result.reclaimed_bytes as nat)),
            )
            &&& failed is Some && failed->0 is Array
            &&& failed->0->Array_0.len() == result.failed.len()
            &&& forall|i: int|
                0 <= i < result.failed.len() ==> {
                    let failure = failed->0->Array_0[i];
                    &&& member_of(failure, "path"@) == Some(
                        JsonModel::Text(lossy_text((#[trigger] result.failed[i]).0)),
                    )
                    &&& member_of(failure, "error"@) == Some(JsonModel::Text(result.failed[i].1))
                }
        }),
{
    lemma_member_names();
    let failures = member_of(result_document(Some(result)), "failed"@)->0->Array_0;
    assert forall|i: int| 0 <= i < result.failed.len() implies {
        &&& member_of(failures[i], "path"@) == Some(
            JsonModel::Text(lossy_text((#[trigger] result.failed[i]).0)),
        )
        &&& member_of(failures[i], "error"@) == Some(JsonModel::Text(result.failed[i].1))
    } by {
        assert(failures[i] == failure_document(result.failed[i]));
    }
}

/// The document of the collector is `null` unless it was asked for; then it says
/// what was asked for, lists every candidate in order, and holds the bytes that
/// the plan would free and what its execution did.
pub proof fn law_a_plan_is_documented(
    plan: Seq<CandidateModel>,
    result: Option<ResultModel>,
    options: DoctorOptions,
)
    ensures
        gc_document(None, result, options) is Null,
        ({
            let document = gc_document(Some(plan), result, options);
            let candidates = member_of(document, "candidates"@);
            &&& member_of(document, "requested"@) == Some(JsonModel::Bool(true))
            &&& member_of(document, "confirmed"@) == Some(JsonModel::Bool(options.confirm))
            &&& member_of(document, "min_age_days"@) == Some(
                JsonModel::Number(decimal(options.min_age_days as nat)),
            )
            &&& member_of(document, "include_browser_profiles"@) == Some(
                JsonModel::Bool(options.include_browser_profiles),
            )
            &&& member_of(document, "reclaimable_bytes"@) == Some(
                JsonModel::Number(decimal(plan_bytes(plan))),
            )
            &&& member_of(document, "result"@) == Some(result_document(result))
            &&& candidates is Some && candidates->0 is Array
            &&& candidates->0->Array_0.len() == plan.len()
            &&& forall|i: int|
                0 <= i < plan.len() ==> candidates->0->Array_0[i] == candidate_document(
                    #[trigger] plan[i],
                )
        }),
{
    lemma_member_names();
}

/// The whole document says everything that the report does, with a document for
/// each directory and each profile in their order, and what the collector has to
/// say.
pub proof fn law_the_report_is_documented(
    report: ReportModel,
    plan: Option<Seq<CandidateModel>>,
    result: Option<ResultModel>,
    options: DoctorOptions,
)
    ensures
        ({
            let document = doctor_document(report, plan, result, options);
            let daemon = member_of(document, "daemon"@)->0;
            let dirs = member_of(document, "dirs"@)->0;
            let profiles = member_of(document, "browser_profiles"@)->0;
            &&& member_of(document, "base_dir"@) == Some(
                JsonModel::Text(lossy_text(report.base_dir)),
            )
            &&& member_of(document, "base_dir_exists"@) == Some(
                JsonModel::Bool(report.base_dir_exists),
            )
            &&& member_of(daemon, "running"@) == Some(JsonModel::Bool(report.daemon_running))
            &&& report.daemon_pid is None ==> member_of(daemon, "pid"@) == Some(JsonModel::Null)
            &&& report.daemon_pid matches Some(pid) ==> member_of(daemon, "pid"@) == Some(
                JsonModel::Number(signed_decimal(pid as int)),
            )
            &&& report.log_path is None ==> member_of(document, "log_path"@) == Some(
                JsonModel::Null,
            )
            &&& report.log_path matches Some(path) ==> member_of(document, "log_path"@) == Some(
                JsonModel::Text(lossy_text(path)),
            )
            &&& member_of(document, "stale_days_threshold"@) == Some(
                JsonModel::Number(decimal(report.stale_days as nat)),
            )
            &&& member_of(document, "gc"@) == Some(gc_document(plan, result, options))
            &&& dirs is Array && dirs->Array_0.len() == report.dirs.len()
            &&& forall|i: int|
                0 <= i < report.dirs.len() ==> dirs->Array_0[i] == dir_document(
                    #[trigger] report.dirs[i],
                )
            &&& profiles is Array && profiles->Array_0.len() == report.browser_profiles.len()
            &&& forall|i: int|
                0 <= i < report.browser_profiles.len() ==> profiles->Array_0[i] == profile_document(
                    #[trigger] report.browser_profiles[i],
                )
        }),
{
    lemma_member_names();
}

proof fn lemma_member_names()
    ensures
        "label"@.len() == 5 && "bytes"@.len() == 5 && "stale"@.len() == 5 && "error"@.len() == 5,
        "label"@[0] == 'l' && "bytes"@[0] == 'b' && "stale"@[0] == 's' && "error"@[0] == 'e',
        "path"@.len() == 4 && "name"@.len() == 4 && "kind"@.len() == 4 && "dirs"@.len() == 4,
        "path"@[0] == 'p' && "name"@[0] == 'n' && "kind"@[0] == 'k' && "dirs"@[0] == 'd',
        "exists"@.len() == 6 && "failed"@.len() == 6 && "result"@.len() == 6 && "daemon"@.len()
            == 6,
        "total_bytes"@.len() == 11 && "total_human"@.len() == 11,
        "total_bytes"@[6] == 'b' && "total_human"@[6] == 'h',
        "file_count"@.len() == 10 && "candidates"@.len() == 10,
        "age_days"@.len() == 8 && "base_dir"@.len() == 8 && "log_path"@.len() == 8,
        "age_days"@[0] == 'a' && "base_dir"@[0] == 'b' && "log_path"@[0] == 'l',
        "deleted_count"@.len() == 13,
        "reclaimed_bytes"@.len() == 15 && "base_dir_exists"@.len() == 15,
        "requested"@.len() == 9 && "confirmed"@.len() == 9,
        "requested"@[0] == 'r' && "confirmed"@[0] == 'c',
        "min_age_days"@.len() == 12,
        "include_browser_profiles"@.len() == 24,
        "reclaimable_bytes"@.len() == 17,
        "running"@.len() == 7 && "pid"@.len() == 3,
        "browser_profiles"@.len() == 16,
        "stale_days_threshold"@.len() == 20,
        "gc"@.len() == 2,
{
    reveal_strlit("label");
    reveal_strlit("bytes");
    reveal_strlit("stale");
    reveal_strlit("error");
    reveal_strlit("path");
    reveal_strlit("name");
    reveal_strlit("kind");
    reveal_strlit("dirs");
    reveal_strlit("exists");
    reveal_strlit("failed");
    reveal_strlit("result");
    reveal_strlit("daemon");
    reveal_strlit("total_bytes");
    reveal_strlit("total_human");
    reveal_strlit("file_count");
    reveal_strlit("candidates");
    reveal_strlit("age_days");
    reveal_strlit("base_dir");
    reveal_strlit("log_path");
    reveal_strlit("deleted_count");
    reveal_strlit("reclaimed_bytes");
    reveal_strlit("base_dir_exists");
    reveal_strlit("requested");
    reveal_strlit("confirmed");
    reveal_strlit("min_age_days");
    reveal_strlit("include_browser_profiles");
    reveal_strlit("reclaimable_bytes");
    reveal_strlit("running");
    reveal_strlit("pid");
    reveal_strlit("browser_profiles");
    reveal_strlit("stale_days_threshold");
    reveal_strlit("gc");
}

/// A warning is given for each option that has no effect without the collector, and
/// for nothing else: to confirm, and to take in the profiles.
pub proof fn law_only_idle_options_are_warned_of(options: DoctorOptions)
    ensures
        options.gc ==> warnings_on(options).len() == 0,
        !options.gc ==> warnings_on(options).len() == (if options.confirm {
            1int
        } else {
            0
        }) + (if options.include_browser_profiles {
            1int
        } else {
            0
        }),
        !options.gc && options.confirm ==> warnings_on(options)[0]
            == "Warning: --yes has no effect without --gc; nothing was planned to delete."@,
        !options.gc && options.include_browser_profiles ==> warnings_on(options).last()
            == "Warning: --include-browser-profiles has no effect without --gc."@,
{
}

/// There is a plan exactly if the collector was asked for, and nothing is to be
/// deleted unless that was confirmed as well.
pub proof fn law_nothing_is_deleted_unasked(
    report: ReportModel,
    options: DoctorOptions,
    entries: Seq<TmpEntry>,
    now: Timestamp,
)
    ensures
        requested_plan(report, options, entries, now) is Some <==> options.gc,
        options.gc ==> requested_plan(report, options, entries, now) == Some(
            planned(report, options, entries, now),
        ),
        can_total(requested_plan(report, options, entries, now)) <==> (options.gc ==> plan_bytes(
            planned(report, options, entries, now),
        ) <= u64::MAX),
        is_to_delete(report, options, entries, now) <==> options.gc && options.confirm
            && plan_bytes(planned(report, options, entries, now)) <= u64::MAX,
{
}

/// Whatever was deleted was planned, is inside the base directory, as it is
/// written and when links are followed, and was counted; and every candidate of
/// the plan is either deleted or reported as failed.
pub proof fn law_only_what_was_planned_is_deleted<
    R: Fn(&FilePath) -> Result<FilePath, String>,
    F: Fn(&GcCandidate) -> Result<(), String>,
>(
    result: ResultModel,
    plan: Seq<CandidateModel>,
    resolve: R,
    delete: F,
    base_dir: Seq<u8>,
)
    requires
        executed(result, plan, resolve, delete, base_dir),
    ensures
        result.deleted.len() + result.failed.len() == plan.len(),
        result.reclaimed_bytes == plan_bytes(result.deleted),
        forall|i: int|
            0 <= i < result.deleted.len() ==> plan.contains(#[trigger] result.deleted[i]),
        forall|i: int|
            0 <= i < result.deleted.len() ==> is_safe(
                resolve,
                base_dir,
                (#[trigger] result.deleted[i]).path,
            ),
{
    let (candidates, fates): (Seq<GcCandidate>, Seq<Fate>) = choose|
        candidates: Seq<GcCandidate>,
        fates: Seq<Fate>,
    | #[trigger]
        fates_of(fates, resolve, delete, base_dir, candidates) && candidate_views(candidates)
            == plan && tells(result, plan, fates);
    law_execution_stays_inside(fates, resolve, delete, base_dir, candidates);
    lemma_deleted_were_planned(plan, fates);
}

proof fn lemma_deleted_were_planned(plan: Seq<CandidateModel>, fates: Seq<Fate>)
    requires
        fates.len() == plan.len(),
    ensures
        forall|i: int|
            0 <= i < deleted_by(plan, fates).len() ==> plan.contains(
                #[trigger] deleted_by(plan, fates)[i],
            ),
    decreases plan.len(),
{
    if plan.len() > 0 {
        let before = plan.drop_last();
        lemma_deleted_were_planned(before, fates.drop_last());
        let earlier = deleted_by(before, fates.drop_last());
        assert forall|i: int| 0 <= i < deleted_by(plan, fates).len() implies plan.contains(
            #[trigger] deleted_by(plan, fates)[i],
        ) by {
            if i < earlier.len() {
                assert(deleted_by(plan, fates)[i] == earlier[i]);
                assert(before.contains(earlier[i]));
                let j = choose|j: int| 0 <= j < before.len() && before[j] == earlier[i];
                assert(plan[j] == earlier[i]);
            } else {
                assert(plan[plan.len() - 1] == plan.last());
            }
        }
    }
}

/// A run prints the document alone if JSON was asked for, and else the lines for
/// humans, with the failures where errors go.
pub proof fn law_a_run_prints_what_was_asked_for(
    run: DoctorRun,
    report: ReportModel,
    plan: Option<Seq<CandidateModel>>,
    result: Option<ResultModel>,
    options: DoctorOptions,
)
    requires
        shows(run, report, plan, result, options),
    ensures
        options.json ==> {
            &&& run.stdout@.len() == 1
            &&& run.stdout@[0]@ == pretty_json(doctor_document(report, plan, result, options))
            &&& run.stderr@.len() == 0
        },
        !options.json ==> {
            &&& texts(run.stdout@) == human_lines(report, plan, result, options.confirm)
            &&& result is None ==> run.stderr@.len() == 0
            &&& result matches Some(told) ==> texts(run.stderr@) == failure_lines(told)
        },
{
    assert(texts(run.stdout@).len() == run.stdout@.len());
    assert(texts(run.stderr@).len() == run.stderr@.len());
    if options.json {
        assert(texts(run.stdout@)[0] == run.stdout@[0]@);
    }
}

/// The lines of the directories line up, and so do those of the profiles: as long as
/// a name and a size are not too long, the size ends where it does on any other line,
/// and what follows starts where it does on any other.
pub proof fn law_the_lines_line_up(dir: DirModel, profile: ProfileModel)
    ensures
        ({
            let line = dir_line(dir);
            let size = size_text(dir.total_bytes as nat);
            &&& stands_at(line, 2, dir.label)
            &&& dir.exists && dir.label.len() <= 10 && size.len() <= 10 ==> stands_at(
                line,
                23 - size.len(),
                size,
            ) && stands_at(line, 25, "("@)
            &&& !dir.exists && dir.label.len() <= 10 ==> stands_at(line, 13, "(missing)"@)
        }),
        ({
            let line = profile_line(profile);
            let size = size_text(profile.total_bytes as nat);
            &&& stands_at(line, 2, profile.name)
            &&& profile.name.len() <= 20 && size.len() <= 10 ==> stands_at(
                line,
                33 - size.len(),
                size,
            ) && stands_at(line, 35, age_words(profile.age_days))
        }),
{
    reveal_strlit("  ");
    reveal_strlit(" ");
    reveal_strlit("  (");
    reveal_strlit("(");
    reveal_strlit(" (missing)  ");
    reveal_strlit("(missing)");
    assert("(missing)"@ =~= " (missing)  "@.subrange(1, 10));
    lemma_dir_line(dir);
    lemma_profile_line(profile);
}

proof fn lemma_dir_line(dir: DirModel)
    requires
        "  "@.len() == 2,
        " "@.len() == 1,
        "("@.len() == 1,
        "("@[0] == "  ("@[2],
        "  ("@.len() == 3,
        " (missing)  "@.len() == 12,
        "(missing)"@ == " (missing)  "@.subrange(1, 10),
    ensures
        ({
            let line = dir_line(dir);
            let size = size_text(dir.total_bytes as nat);
            &&& stands_at(line, 2, dir.label)
            &&& dir.exists && dir.label.len() <= 10 && size.len() <= 10 ==> stands_at(
                line,
                23 - size.len(),
                size,
            ) && stands_at(line, 25, "("@)
            &&& !dir.exists && dir.label.len() <= 10 ==> stands_at(line, 13, "(missing)"@)
        }),
{
    let line = dir_line(dir);
    let size = size_text(dir.total_bytes as nat);
    let label = left_aligned(dir.label, 10);
    assert(label.take(dir.label.len() as int) =~= dir.label);
    assert(line.subrange(2int, 2int + dir.label.len()) =~= dir.label);
    if dir.exists && dir.label.len() <= 10 && size.len() <= 10 {
        let cell = right_aligned(size, 10);
        assert(label.len() == 10 && cell.len() == 10);
        assert(cell.skip(10 - size.len()) =~= size);
        assert(line.subrange(13, 23) =~= cell);
        assert(line.subrange(23 - size.len(), 23) =~= cell.skip(10 - size.len()));
        assert(line.subrange(25, 26) =~= "("@);
    }
    if !dir.exists && dir.label.len() <= 10 {
        assert(line.subrange(12, 24) =~= " (missing)  "@);
        assert(line.subrange(13, 22) =~= " (missing)  "@.subrange(1, 10));
    }
}

proof fn lemma_profile_line(profile: ProfileModel)
    requires
        "  "@.len() == 2,
        " "@.len() == 1,
    ensures
        ({
            let line = profile_line(profile);
            let size = size_text(profile.total_bytes as nat);
            &&& stands_at(line, 2, profile.name)
            &&& profile.name.len() <= 20 && size.len() <= 10 ==> stands_at(
                line,
                33 - size.len(),
                size,
            ) && stands_at(line, 35, age_words(profile.age_days))
        }),
{
    let line = profile_line(profile);
    let size = size_text(profile.total_bytes as nat);
    let name = left_aligned(profile.name, 20);
    let age = age_words(profile.age_days);
    assert(name.take(profile.name.len() as int) =~= profile.name);
    assert(line.subrange(2int, 2int + profile.name.len()) =~= profile.name);
    if profile.name.len() <= 20 && size.len() <= 10 {
        let cell = right_aligned(size, 10);
        assert(name.len() == 20 && cell.len() == 10);
        assert(cell.skip(10 - size.len()) =~= size);
        assert(line.subrange(23, 33) =~= cell);
        assert(line.subrange(33 - size.len(), 33) =~= cell.skip(10 - size.len()));
        assert(line.subrange(35int, 35int + age.len()) =~= age);
    }
}

} // verus!
