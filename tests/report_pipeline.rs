use commit_log_report::elapsed::{derive_time_since, format_elapsed, time_since};
use commit_log_report::query::{
    build_report, changed_files_of, configure, diff_args, history_args, query_output, revision_args,
    revision_of, Config, FileScope, Mode, QueryError, UsageError, RECENT_LIMIT,
};
use commit_log_report::record::{parse_records, process_commit_line, CommitRecord, ParseError};
use commit_log_report::report::{render_raw_report, render_report, ReportLabels};
use commit_log_report::text::{chars_of, lines_of, split_chars, string_of};

const JAN1_NOON: i64 = 1704110400;
const JAN2_0930: i64 = 1704187800;
const NOW: i64 = 1704200000;
const LINE1: &str = "abc123,Alice,Mon Jan 1 12:00:00 2024 +0000,Initial commit";
const LINE2: &str = "def456,Bob,Tue Jan 2 09:30:00 2024 +0000,Fix bug";
const HEADER: &str = "Commit Hash,Author,Date,Message,Time Difference\n";

fn strings(v: &[&str]) -> Vec<String> {
    v.iter().map(|s| s.to_string()).collect()
}

fn no_labels() -> ReportLabels {
    ReportLabels { project: None, changed_files: None }
}

fn record(hash: &str, time: Option<&str>) -> CommitRecord {
    CommitRecord {
        hash: hash.to_string(),
        author: "Alice".to_string(),
        date: "someday".to_string(),
        message: "msg".to_string(),
        time_since_commit: time.map(|t| t.to_string()),
    }
}

#[test]
fn parses_well_formed_lines_in_order() {
    let raw = format!("{}\n\n{}\n", LINE1, LINE2);
    let recs = parse_records(&raw, None, NOW).unwrap();
    assert_eq!(recs.len(), 2);
    assert_eq!(recs[0].hash, "abc123");
    assert_eq!(recs[0].author, "Alice");
    assert_eq!(recs[0].date, "Mon Jan 1 12:00:00 2024 +0000");
    assert_eq!(recs[0].message, "Initial commit");
    assert_eq!(recs[1].hash, "def456");
    assert_eq!(recs[1].author, "Bob");
    assert_eq!(recs[1].date, "Tue Jan 2 09:30:00 2024 +0000");
    assert_eq!(recs[1].message, "Fix bug");
}

#[test]
fn crlf_line_endings_are_stripped() {
    let raw = format!("{}\r\n{}\r\n", LINE1, LINE2);
    let recs = parse_records(&raw, None, NOW).unwrap();
    assert_eq!(recs.len(), 2);
    assert_eq!(recs[0].message, "Initial commit");
    assert_eq!(recs[1].message, "Fix bug");
}

#[test]
fn line_with_three_fields_is_malformed() {
    let raw = format!("{}\nabc,Alice,Mon Jan 1 12:00:00 2024 +0000\n{}\n", LINE1, LINE2);
    let r = parse_records(&raw, None, NOW);
    assert_eq!(
        r,
        Err(ParseError::MalformedRecord { line: "abc,Alice,Mon Jan 1 12:00:00 2024 +0000".to_string() })
    );
}

#[test]
fn single_field_line_is_malformed() {
    let r = process_commit_line("justahash", NOW);
    assert_eq!(r, Err(ParseError::MalformedRecord { line: "justahash".to_string() }));
}

#[test]
fn process_commit_line_derives_time() {
    let r = process_commit_line(LINE1, NOW).unwrap();
    assert_eq!(r.hash, "abc123");
    assert_eq!(r.time_since_commit, Some("24:53:20".to_string()));
}

#[test]
fn extra_fields_after_message_are_ignored() {
    let r = process_commit_line("h,a,d,first part, second part", NOW).unwrap();
    assert_eq!(r.message, "first part");
    assert_eq!(r.time_since_commit, None);
}

#[test]
fn elapsed_components_for_fixed_now() {
    assert_eq!(time_since(JAN1_NOON, JAN1_NOON + 3661), "01:01:01");
    assert_eq!(time_since(JAN1_NOON, JAN1_NOON), "00:00:00");
    assert_eq!(time_since(0, 100000), "27:46:40");
    assert_eq!(time_since(0, 3600 * 150 + 59), "150:00:59");
}

#[test]
fn derive_time_since_parses_git_dates() {
    assert_eq!(
        derive_time_since("Mon Jan 1 12:00:00 2024 +0000", JAN1_NOON + 3661),
        Some("01:01:01".to_string())
    );
    assert_eq!(
        derive_time_since("Mon Jan 1 12:00:00 2024 +0200", JAN1_NOON),
        Some("02:00:00".to_string())
    );
}

#[test]
fn derive_time_since_rejects_other_forms() {
    assert_eq!(derive_time_since("", NOW), None);
    assert_eq!(derive_time_since("2024-01-01T12:00:00+00:00", NOW), None);
    assert_eq!(derive_time_since("not a date", NOW), None);
}

#[test]
fn negative_elapsed_time_has_leading_sign() {
    assert_eq!(time_since(JAN1_NOON, JAN1_NOON - 3661), "-01:01:01");
    assert_eq!(format_elapsed(-59), "-00:00:59");
    assert_eq!(
        derive_time_since("Mon Jan 1 12:00:00 2024 +0000", JAN1_NOON - 60),
        Some("-00:01:00".to_string())
    );
}

#[test]
fn extreme_elapsed_times_render() {
    assert_eq!(time_since(i64::MIN, i64::MAX), format!("{:02}:{:02}:{:02}", (u64::MAX as u128) / 3600, ((u64::MAX as u128) / 60) % 60, (u64::MAX as u128) % 60));
    assert_eq!(format_elapsed(i128::MIN).chars().next(), Some('-'));
}

#[test]
fn empty_report_is_header_only() {
    assert_eq!(render_report(&no_labels(), &Vec::new()), HEADER);
}

#[test]
fn empty_report_with_labels_is_header_only() {
    let labels = ReportLabels { project: Some("proj".to_string()), changed_files: Some("a.rs".to_string()) };
    assert_eq!(
        render_report(&labels, &Vec::new()),
        "Project Name,Changed Files,Commit Hash,Author,Date,Message,Time Difference\n"
    );
}

#[test]
fn missing_time_renders_not_available() {
    let out = render_report(&no_labels(), &vec![record("h1", None)]);
    assert_eq!(out, format!("{}h1,Alice,someday,msg,N/A\n", HEADER));
}

#[test]
fn fields_with_delimiters_are_quoted() {
    let mut r = record("h1", Some("01:00:00"));
    r.message = "fix \"a\", b".to_string();
    r.author = "line\nbreak".to_string();
    let out = render_report(&no_labels(), &vec![r]);
    assert_eq!(out, format!("{}h1,\"line\nbreak\",someday,\"fix \"\"a\"\", b\",01:00:00\n", HEADER));
}

#[test]
fn labels_lead_every_row() {
    let labels = ReportLabels { project: Some("proj".to_string()), changed_files: Some("a.rs,b.rs".to_string()) };
    let out = render_report(&labels, &vec![record("h1", Some("00:00:01")), record("h2", None)]);
    assert_eq!(
        out,
        "Project Name,Changed Files,Commit Hash,Author,Date,Message,Time Difference\n\
         proj,\"a.rs,b.rs\",h1,Alice,someday,msg,00:00:01\n\
         proj,\"a.rs,b.rs\",h2,Alice,someday,msg,N/A\n"
    );
}

#[test]
fn cap_keeps_first_records() {
    let raw = format!("{}\n{}\nghi789,Carol,bad date,Third\n", LINE1, LINE2);
    let all = parse_records(&raw, None, NOW).unwrap();
    let two = parse_records(&raw, Some(2), NOW).unwrap();
    assert_eq!(all.len(), 3);
    assert_eq!(two, all[..2].to_vec());
    let one = parse_records(&raw, Some(1), NOW).unwrap();
    assert_eq!(one, all[..1].to_vec());
    assert_eq!(parse_records(&raw, Some(0), NOW).unwrap(), Vec::new());
    assert_eq!(parse_records(&raw, Some(5), NOW).unwrap(), all);
}

#[test]
fn cap_skips_lines_beyond_it() {
    let raw = format!("{}\nmalformed\n", LINE1);
    assert_eq!(parse_records(&raw, Some(1), NOW).unwrap().len(), 1);
    assert!(parse_records(&raw, None, NOW).is_err());
}

fn recent() -> Config {
    configure(Mode::Recent, &Vec::new(), &"me".to_string()).unwrap()
}

#[test]
fn end_to_end_two_commits() {
    let raw = format!("{}\n{}\n", LINE1, LINE2);
    let out = build_report(&recent(), &None, &raw, NOW).unwrap();
    assert_eq!(
        out,
        format!(
            "{}{},24:53:20\n{},03:23:20\n",
            HEADER, LINE1, LINE2
        )
    );
    assert_eq!(NOW - JAN2_0930, 3 * 3600 + 23 * 60 + 20);
}

#[test]
fn end_to_end_empty_history() {
    assert_eq!(build_report(&recent(), &None, "", NOW).unwrap(), HEADER);
}

#[test]
fn end_to_end_malformed_history_fails() {
    assert_eq!(
        build_report(&recent(), &None, "a,b\n", NOW),
        Err(ParseError::MalformedRecord { line: "a,b".to_string() })
    );
}

#[test]
fn end_to_end_recent_keeps_ten() {
    let mut raw = String::new();
    for i in 0..12 {
        raw.push_str(&format!("h{},A,d,m\n", i));
    }
    let out = build_report(&recent(), &None, &raw, NOW).unwrap();
    assert_eq!(out.lines().count(), 1 + RECENT_LIMIT);
    assert!(out.ends_with("h9,A,d,m,N/A\n"));
}

#[test]
fn end_to_end_explicit_files() {
    let cfg = configure(Mode::ExplicitFiles, &strings(&["proj", "a.rs"]), &"me".to_string()).unwrap();
    let out = build_report(&cfg, &None, "h,A,d,m\n", NOW).unwrap();
    assert_eq!(
        out,
        "Project Name,Changed Files,Commit Hash,Author,Date,Message,Time Difference\nproj,a.rs,h,A,d,m,N/A\n"
    );
}

#[test]
fn end_to_end_diff_files() {
    let cfg = configure(Mode::DiffFiles, &strings(&["proj"]), &"me".to_string()).unwrap();
    let files = changed_files_of("src/a.rs\nsrc/b.rs\n");
    let out = build_report(&cfg, &Some(files), "h,A,d,m\n", NOW).unwrap();
    assert_eq!(
        out,
        "Project Name,Changed Files,Commit Hash,Author,Date,Message,Time Difference\nproj,\"src/a.rs,src/b.rs\",h,A,d,m,N/A\n"
    );
}

#[test]
fn end_to_end_verbatim_lines() {
    let cfg = configure(Mode::OwnCommits, &Vec::new(), &"me".to_string()).unwrap();
    let out = build_report(&cfg, &None, "a,b,c,d,e\n\nshort\n", NOW).unwrap();
    assert_eq!(out, "Commit Hash,Author,Date,Message\na,b,c,d,e\nshort\n");
    assert_eq!(render_raw_report("x\ny\nz\n", Some(2)), "Commit Hash,Author,Date,Message\nx\ny\n");
}

#[test]
fn missing_changed_files_is_usage_error() {
    assert_eq!(
        configure(Mode::ExplicitFiles, &strings(&["proj"]), &"me".to_string()),
        Err(UsageError::MissingChangedFiles)
    );
}

#[test]
fn missing_project_name_is_usage_error() {
    assert_eq!(configure(Mode::ExplicitFiles, &Vec::new(), &"me".to_string()), Err(UsageError::MissingProjectName));
    assert_eq!(configure(Mode::DiffFiles, &Vec::new(), &"me".to_string()), Err(UsageError::MissingProjectName));
}

#[test]
fn configurations_of_each_mode() {
    let me = "me".to_string();
    assert_eq!(
        configure(Mode::ExplicitFiles, &strings(&["p", "a,b"]), &me),
        Ok(Config {
            project: Some("p".to_string()),
            files: FileScope::Explicit("a,b".to_string()),
            author: None,
            cap: None,
            verbatim: false
        })
    );
    assert_eq!(
        configure(Mode::DiffFiles, &strings(&["p"]), &me),
        Ok(Config { project: Some("p".to_string()), files: FileScope::FromDiff, author: None, cap: None, verbatim: false })
    );
    assert_eq!(
        configure(Mode::Recent, &Vec::new(), &me),
        Ok(Config { project: None, files: FileScope::Unscoped, author: None, cap: Some(10), verbatim: false })
    );
    assert_eq!(
        configure(Mode::OwnCommits, &Vec::new(), &me),
        Ok(Config { project: None, files: FileScope::Unscoped, author: Some(me.clone()), cap: Some(10), verbatim: true })
    );
}

#[test]
fn history_arguments() {
    assert_eq!(history_args(&None, &None), strings(&["log", "--format=%h,%an,%ad,%s"]));
    assert_eq!(
        history_args(&Some("a.rs,,b.rs".to_string()), &Some("Alice".to_string())),
        strings(&["log", "--format=%h,%an,%ad,%s", "--author=Alice", "--", "a.rs", "b.rs"])
    );
}

#[test]
fn revision_and_diff_arguments() {
    assert_eq!(revision_args(), strings(&["rev-parse", "HEAD"]));
    assert_eq!(diff_args("abc"), strings(&["diff", "--name-only", "abc^", "abc"]));
    assert_eq!(revision_of("\nabc123\n"), Some("abc123".to_string()));
    assert_eq!(revision_of(""), None);
}

#[test]
fn changed_files_are_joined() {
    assert_eq!(changed_files_of("a.rs\n\nb/c.rs\n"), "a.rs,b/c.rs");
    assert_eq!(changed_files_of(""), "");
}

#[test]
fn query_outputs() {
    assert_eq!(query_output(true, "out".to_string(), "err".to_string()), Ok("out".to_string()));
    assert_eq!(
        query_output(false, "out".to_string(), "fatal".to_string()),
        Err(QueryError::Failed { stderr: "fatal".to_string() })
    );
}

#[test]
fn text_helpers() {
    assert_eq!(chars_of("héllo"), vec!['h', 'é', 'l', 'l', 'o']);
    assert_eq!(string_of(&vec!['a', 'b']), "ab");
    assert_eq!(split_chars(&vec!['a', ',', ',', 'b'], ','), vec![vec!['a'], vec![], vec!['b']]);
    assert_eq!(lines_of("a\r\n\nb"), vec![vec!['a'], vec!['b']]);
}
