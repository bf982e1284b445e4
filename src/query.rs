//! What to ask the version-control tool, and how each invocation mode is
//! configured.
use vstd::prelude::*;
use crate::text::{chars_of, split_chars, split_on, string_of, nonempty_lines, lines_of};
use crate::report::{string_views, ReportLabels, LabelsView, opt_view, report_text, raw_report_text, render_report, render_raw_report};
use crate::record::{parse_records, parse_outcome, retained_lines, ParseError};

verus! {

/// The number of records that the capped modes keep.
pub const RECENT_LIMIT: usize = 10;

/// The four ways the report can be asked for.
#[derive(Debug, Clone, Copy, PartialEq, Eq, Structural)]
pub enum Mode {
    /// `<project_name> <changed_files>`: history of an explicit list of files.
    ExplicitFiles,
    /// `<project_name>`: history of the files changed by the current commit.
    DiffFiles,
    /// No arguments: the most recent commits.
    Recent,
    /// No arguments: the invoking user's most recent commits, written verbatim.
    OwnCommits,
}

/// Where the files that scope the history come from.
#[derive(Debug, Clone, PartialEq, Eq)]
pub enum FileScope {
    Unscoped,
    /// A comma-separated list of paths.
    Explicit(String),
    /// The paths that differ between the current commit and its parent.
    FromDiff,
}

/// A mode's settings.
#[derive(Debug, Clone, PartialEq, Eq)]
pub struct Config {
    pub project: Option<String>,
    pub files: FileScope,
    pub author: Option<String>,
    pub cap: Option<usize>,
    /// Write the history lines as they are, without parsing them.
    pub verbatim: bool,
}

/// A required argument is missing.
#[derive(Debug, Clone, Copy, PartialEq, Eq, Structural)]
pub enum UsageError {
    MissingProjectName,
    MissingChangedFiles,
}

/// The settings for `mode` given the arguments `args` and the invoking
/// user's name `user`.
pub fn configure(mode: Mode, args: &Vec<String>, user: &String) -> (r: Result<Config, UsageError>)
    ensures
        (mode == Mode::ExplicitFiles || mode == Mode::DiffFiles) && args.len() == 0
            <==> r == Err::<Config, UsageError>(UsageError::MissingProjectName),
        mode == Mode::ExplicitFiles && args.len() == 1
            <==> r == Err::<Config, UsageError>(UsageError::MissingChangedFiles),
        r matches Ok(c) ==> {
            &&& mode == Mode::ExplicitFiles ==> c.project == Some(args[0]) && c.files == FileScope::Explicit(args[1])
                && c.author is None && c.cap is None && !c.verbatim
            &&& mode == Mode::DiffFiles ==> c.project == Some(args[0]) && c.files is FromDiff
                && c.author is None && c.cap is None && !c.verbatim
            &&& mode == Mode::Recent ==> c.project is None && c.files is Unscoped
                && c.author is None && c.cap == Some(RECENT_LIMIT) && !c.verbatim
            &&& mode == Mode::OwnCommits ==> c.project is None && c.files is Unscoped
                && c.author == Some(*user) && c.cap == Some(RECENT_LIMIT) && c.verbatim
        },
{
    match mode {
        Mode::ExplicitFiles => {
            if args.len() == 0 {
                Err(UsageError::MissingProjectName)
            } else if args.len() == 1 {
                Err(UsageError::MissingChangedFiles)
            } else {
                Ok(Config {
                    project: Some(args[0].clone()),
                    files: FileScope::Explicit(args[1].clone()),
                    author: None,
                    cap: None,
                    verbatim: false,
                })
            }
        },
        Mode::DiffFiles => {
            if args.len() == 0 {
                Err(UsageError::MissingProjectName)
            } else {
                Ok(Config {
                    project: Some(args[0].clone()),
                    files: FileScope::FromDiff,
                    author: None,
                    cap: None,
                    verbatim: false,
                })
            }
        },
        Mode::Recent => Ok(Config {
            project: None,
            files: FileScope::Unscoped,
            author: None,
            cap: Some(RECENT_LIMIT),
            verbatim: false,
        }),
        Mode::OwnCommits => Ok(Config {
            project: None,
            files: FileScope::Unscoped,
            author: Some(user.clone()),
            cap: Some(RECENT_LIMIT),
            verbatim: true,
        }),
    }
}

/// The non-empty members of `ls`, in order.
pub open spec fn drop_empty(ls: Seq<Seq<char>>) -> Seq<Seq<char>>
    decreases ls.len(),
{
    if ls.len() == 0 {
        Seq::empty()
    } else if ls.last().len() == 0 {
        drop_empty(ls.drop_last())
    } else {
        drop_empty(ls.drop_last()).push(ls.last())
    }
}

/// The paths of a comma-separated list.
pub open spec fn paths_of(list: Seq<char>) -> Seq<Seq<char>> {
    drop_empty(split_on(list, ','))
}

/// The arguments of the history query: one line per commit with short hash,
/// author name, author date and subject, optionally limited to one author and
/// to the paths of a comma-separated list.
pub open spec fn history_args_spec(files: Option<Seq<char>>, author: Option<Seq<char>>) -> Seq<Seq<char>> {
    seq!["log"@, "--format=%h,%an,%ad,%s"@]
        + (match author { Some(a) => seq!["--author="@ + a], None => Seq::empty() })
        + (match files { Some(f) => seq!["--"@] + paths_of(f), None => Seq::empty() })
}

/// The arguments of the history query (see `history_args_spec`).
pub fn history_args(files: &Option<String>, author: &Option<String>) -> (r: Vec<String>)
    ensures
        string_views(r@) == history_args_spec(opt_view(*files), opt_view(*author)),
{
    let mut r: Vec<String> = Vec::new();
    r.push(String::from_str("log"));
    r.push(String::from_str("--format=%h,%an,%ad,%s"));
    let ghost base = string_views(r@);
    assert(base =~= seq!["log"@, "--format=%h,%an,%ad,%s"@]);
    if let Some(a) = author {
        let mut arg = String::from_str("--author=");
        arg.append(a.as_str());
        r.push(arg);
    }
    let ghost mid = string_views(r@);
    assert(mid =~= base + (match opt_view(*author) { Some(a) => seq!["--author="@ + a], None => Seq::<Seq<char>>::empty() }));
    if let Some(f) = files {
        r.push(String::from_str("--"));
        let ghost dashed = string_views(r@);
        let pieces = split_chars(&chars_of(f.as_str()), ',');
        let ghost all = split_on(f@, ',');
        let mut i: usize = 0;
        assert(all.take(0) =~= Seq::<Seq<char>>::empty());
        assert(string_views(r@) =~= dashed + drop_empty(all.take(0)));
        while i < pieces.len()
            invariant
                i <= pieces.len(),
                pieces.len() == all.len(),
                forall|j: int| 0 <= j < pieces.len() ==> #[trigger] pieces[j]@ == all[j],
                string_views(r@) == dashed + drop_empty(all.take(i as int)),
            decreases pieces.len() - i,
        {
            let ghost before = r@;
            proof {
                assert(all.take(i as int + 1).drop_last() =~= all.take(i as int));
            }
            if pieces[i].len() > 0 {
                r.push(string_of(&pieces[i]));
                assert(string_views(r@) =~= string_views(before).push(pieces[i as int]@));
            }
            i = i + 1;
        }
        assert(all.take(i as int) =~= all);
        assert(string_views(r@) =~= mid + (seq!["--"@] + paths_of(f@)));
    }
    r
}

/// The current-revision query.
pub fn revision_args() -> (r: Vec<String>)
    ensures
        string_views(r@) == seq!["rev-parse"@, "HEAD"@],
{
    let mut r: Vec<String> = Vec::new();
    r.push(String::from_str("rev-parse"));
    r.push(String::from_str("HEAD"));
    assert(string_views(r@) =~= seq!["rev-parse"@, "HEAD"@]);
    r
}

/// The query for the paths that differ between `rev`'s parent and `rev`.
pub fn diff_args(rev: &str) -> (r: Vec<String>)
    ensures
        string_views(r@) == seq!["diff"@, "--name-only"@, rev@ + "^"@, rev@],
{
    let mut r: Vec<String> = Vec::new();
    r.push(String::from_str("diff"));
    r.push(String::from_str("--name-only"));
    let mut parent = String::from_str(rev);
    parent.append("^");
    r.push(parent);
    r.push(String::from_str(rev));
    assert(string_views(r@) =~= seq!["diff"@, "--name-only"@, rev@ + "^"@, rev@]);
    r
}

/// The first non-empty line of the current-revision query's output.
pub fn revision_of(out: &str) -> (r: Option<String>)
    ensures
        nonempty_lines(out@).len() == 0 <==> r is None,
        r matches Some(x) ==> x@ == nonempty_lines(out@)[0],
{
    let ls = lines_of(out);
    if ls.len() == 0 {
        None
    } else {
        Some(string_of(&ls[0]))
    }
}

/// The members of `ls` separated by `sep`.
pub open spec fn join_with(ls: Seq<Seq<char>>, sep: char) -> Seq<char>
    decreases ls.len(),
{
    if ls.len() == 0 {
        Seq::empty()
    } else if ls.len() == 1 {
        ls[0]
    } else {
        join_with(ls.drop_last(), sep).push(sep) + ls.last()
    }
}

/// The comma-separated list of the paths, one per non-empty line, that the
/// differing-paths query printed.
pub fn changed_files_of(out: &str) -> (r: String)
    ensures
        r@ == join_with(nonempty_lines(out@), ','),
{
    let ls = lines_of(out);
    let ghost all = nonempty_lines(out@);
    let mut r = String::new();
    let mut i: usize = 0;
    assert(all.take(0) =~= Seq::<Seq<char>>::empty());
    while i < ls.len()
        invariant
            i <= ls.len(),
            ls.len() == all.len(),
            forall|j: int| 0 <= j < ls.len() ==> #[trigger] ls[j]@ == all[j],
            r@ == join_with(all.take(i as int), ','),
        decreases ls.len() - i,
    {
        proof {
            assert(all.take(i as int + 1).drop_last() =~= all.take(i as int));
        }
        if i > 0 {
            r.push(',');
        }
        let piece = string_of(&ls[i]);
        r.append(piece.as_str());
        i = i + 1;
        assert(r@ =~= join_with(all.take(i as int), ','));
    }
    assert(all.take(i as int) =~= all);
    r
}

/// Why a query of the version-control tool gave no usable output.
#[derive(Debug, Clone, PartialEq, Eq)]
pub enum QueryError {
    /// The tool could not be started.
    SpawnFailed,
    /// The tool exited with a failure status; its error text.
    Failed { stderr: String },
}

/// The output of a finished query: its standard output when it succeeded,
/// else its error text.
pub fn query_output(success: bool, stdout: String, stderr: String) -> (r: Result<String, QueryError>)
    ensures
        success ==> r == Ok::<String, QueryError>(stdout),
        !success ==> r == Err::<String, QueryError>(QueryError::Failed { stderr }),
{
    if success {
        Ok(stdout)
    } else {
        Err(QueryError::Failed { stderr })
    }
}

/// The changed-files column's value for a configuration: the explicit list,
/// or the list derived from the differing paths, or none.
pub open spec fn files_label(files: FileScope, derived: Option<Seq<char>>) -> Option<Seq<char>> {
    match files {
        FileScope::Unscoped => None,
        FileScope::Explicit(f) => Some(f@),
        FileScope::FromDiff => derived,
    }
}

/// The report's text for a configuration, the history text `raw`, the
/// derived changed-files list (for `FileScope::FromDiff`) and the instant
/// `now`: verbatim lines, or parsed records with their leading columns.
pub open spec fn report_outcome(config: Config, derived: Option<Seq<char>>, raw: Seq<char>, now: int) -> Result<Seq<char>, Seq<char>> {
    if config.verbatim {
        Ok(raw_report_text(retained_lines(raw, config.cap)))
    } else {
        match parse_outcome(raw, config.cap, now) {
            Ok(recs) => Ok(report_text(
                LabelsView { project: opt_view(config.project), changed_files: files_label(config.files, derived) },
                recs,
            )),
            Err(l) => Err(l),
        }
    }
}

/// Builds the report's text from the history text (see `report_outcome`).
pub fn build_report(config: &Config, derived: &Option<String>, raw: &str, now: i64) -> (r: Result<String, ParseError>)
    ensures
        r is Ok <==> report_outcome(*config, opt_view(*derived), raw@, now as int) is Ok,
        r matches Ok(t) ==> report_outcome(*config, opt_view(*derived), raw@, now as int) == Ok::<Seq<char>, Seq<char>>(t@),
        r matches Err(ParseError::MalformedRecord { line: l })
            ==> report_outcome(*config, opt_view(*derived), raw@, now as int) == Err::<Seq<char>, Seq<char>>(l@),
{
    if config.verbatim {
        return Ok(render_raw_report(raw, config.cap));
    }
    let records = match parse_records(raw, config.cap, now) {
        Ok(v) => v,
        Err(e) => return Err(e),
    };
    let changed_files = match &config.files {
        FileScope::Unscoped => None,
        FileScope::Explicit(f) => Some(f.clone()),
        FileScope::FromDiff => derived.clone(),
    };
    let labels = ReportLabels { project: config.project.clone(), changed_files };
    assert(labels@ == LabelsView { project: opt_view(config.project), changed_files: files_label(config.files, opt_view(*derived)) });
    Ok(render_report(&labels, &records))
}

} // verus!
