//! Rendering records as comma-separated text: one header row, then one row
//! per record. Fields that hold a comma, a quote or a line break are quoted.
use vstd::prelude::*;
use crate::text::{chars_of, nonempty_lines};
use crate::record::{CommitRecord, RecordView, views, retained_lines};

verus! {

/// Optional leading columns: a project name and a list of changed files,
/// repeated on every row.
#[derive(Debug, Clone, PartialEq, Eq)]
pub struct ReportLabels {
    pub project: Option<String>,
    pub changed_files: Option<String>,
}

pub struct LabelsView {
    pub project: Option<Seq<char>>,
    pub changed_files: Option<Seq<char>>,
}

pub open spec fn opt_view(o: Option<String>) -> Option<Seq<char>> {
    match o {
        Some(s) => Some(s@),
        None => None,
    }
}

impl View for ReportLabels {
    type V = LabelsView;

    open spec fn view(&self) -> LabelsView {
        LabelsView { project: opt_view(self.project), changed_files: opt_view(self.changed_files) }
    }
}

/// A character that forces a field to be quoted.
pub open spec fn is_special(c: char) -> bool {
    c == ',' || c == '"' || c == '\n' || c == '\r'
}

pub open spec fn needs_quoting(f: Seq<char>) -> bool {
    exists|i: int| 0 <= i < f.len() && is_special(#[trigger] f[i])
}

/// `f` with every quote doubled.
pub open spec fn escape_quotes(f: Seq<char>) -> Seq<char>
    decreases f.len(),
{
    if f.len() == 0 {
        Seq::empty()
    } else if f.last() == '"' {
        escape_quotes(f.drop_last()) + seq!['"', '"']
    } else {
        escape_quotes(f.drop_last()).push(f.last())
    }
}

/// A field as written in a row.
pub open spec fn csv_field(f: Seq<char>) -> Seq<char> {
    if needs_quoting(f) {
        seq!['"'] + escape_quotes(f) + seq!['"']
    } else {
        f
    }
}

/// The fields written one after another, separated by commas.
pub open spec fn join_fields(fs: Seq<Seq<char>>) -> Seq<char>
    decreases fs.len(),
{
    if fs.len() == 0 {
        Seq::empty()
    } else if fs.len() == 1 {
        csv_field(fs[0])
    } else {
        join_fields(fs.drop_last()) + seq![','] + csv_field(fs.last())
    }
}

/// One row: the joined fields and a line feed.
pub open spec fn row_text(fs: Seq<Seq<char>>) -> Seq<char> {
    join_fields(fs).push('\n')
}

/// The leading columns' values (or titles), as `labels` configures them.
pub open spec fn leading(labels: LabelsView, project: Seq<char>, files: Seq<char>) -> Seq<Seq<char>> {
    (if labels.project is Some { seq![project] } else { Seq::empty() })
        + (if labels.changed_files is Some { seq![files] } else { Seq::empty() })
}

/// The column titles.
pub open spec fn header_fields(labels: LabelsView) -> Seq<Seq<char>> {
    leading(labels, "Project Name"@, "Changed Files"@)
        + seq!["Commit Hash"@, "Author"@, "Date"@, "Message"@, "Time Difference"@]
}

/// What stands in the last column when the time since the commit is unknown.
pub open spec fn not_available() -> Seq<char> {
    "N/A"@
}

/// The fields of a record's row.
pub open spec fn row_fields(labels: LabelsView, rec: RecordView) -> Seq<Seq<char>> {
    leading(labels, labels.project.unwrap_or(Seq::empty()), labels.changed_files.unwrap_or(Seq::empty()))
        + seq![rec.hash, rec.author, rec.date, rec.message, rec.time_since_commit.unwrap_or(not_available())]
}

pub open spec fn rows_text(labels: LabelsView, recs: Seq<RecordView>) -> Seq<char>
    decreases recs.len(),
{
    if recs.len() == 0 {
        Seq::empty()
    } else {
        rows_text(labels, recs.drop_last()) + row_text(row_fields(labels, recs.last()))
    }
}

/// The whole report: the header row, then one row per record, in order.
pub open spec fn report_text(labels: LabelsView, recs: Seq<RecordView>) -> Seq<char> {
    row_text(header_fields(labels)) + rows_text(labels, recs)
}

/// The views of a vector of strings.
pub open spec fn string_views(v: Seq<String>) -> Seq<Seq<char>> {
    v.map_values(|s: String| s@)
}

fn push_field(out: &mut String, field: &String)
    ensures
        final(out)@ == old(out)@ + csv_field(field@),
{
    let cs = chars_of(field.as_str());
    let mut special = false;
    let mut i: usize = 0;
    while i < cs.len()
        invariant
            i <= cs.len(),
            cs@ == field@,
            special <==> exists|j: int| 0 <= j < i && is_special(#[trigger] cs@[j]),
        decreases cs.len() - i,
    {
        let c = cs[i];
        if c == ',' || c == '"' || c == '\n' || c == '\r' {
            special = true;
        }
        i = i + 1;
    }
    if !special {
        out.append(field.as_str());
        return;
    }
    out.push('"');
    let ghost start = out@;
    let mut k: usize = 0;
    while k < cs.len()
        invariant
            k <= cs.len(),
            cs@ == field@,
            out@ == start + escape_quotes(cs@.take(k as int)),
        decreases cs.len() - k,
    {
        assert(cs@.take(k as int + 1).drop_last() =~= cs@.take(k as int));
        let c = cs[k];
        if c == '"' {
            out.push('"');
            out.push('"');
        } else {
            out.push(c);
        }
        k = k + 1;
        assert(out@ =~= start + escape_quotes(cs@.take(k as int)));
    }
    assert(cs@.take(k as int) =~= cs@);
    out.push('"');
    assert(out@ =~= old(out)@ + csv_field(field@));
}

fn push_row(out: &mut String, fields: &Vec<String>)
    ensures
        final(out)@ == old(out)@ + row_text(string_views(fields@)),
{
    let ghost fs = string_views(fields@);
    let ghost start = out@;
    let mut i: usize = 0;
    assert(fs.take(0) =~= Seq::<Seq<char>>::empty());
    while i < fields.len()
        invariant
            i <= fields.len(),
            fs == string_views(fields@),
            out@ == start + join_fields(fs.take(i as int)),
        decreases fields.len() - i,
    {
        let ghost before = out@;
        if i > 0 {
            out.push(',');
        }
        push_field(out, &fields[i]);
        proof {
            let t = fs.take(i as int + 1);
            assert(t.drop_last() =~= fs.take(i as int));
            assert(t.last() == fields[i as int]@);
            if i == 0 {
                assert(t.len() == 1);
                assert(out@ =~= start + join_fields(t));
            } else {
                assert(out@ =~= before + seq![','] + csv_field(fields[i as int]@));
                assert(out@ =~= start + join_fields(t));
            }
        }
        i = i + 1;
    }
    assert(fs.take(i as int) =~= fs);
    out.push('\n');
    assert(out@ =~= old(out)@ + row_text(fs));
}

fn leading_values(labels: &ReportLabels, out: &mut Vec<String>)
    ensures
        string_views(final(out)@) == string_views(old(out)@) + leading(
            labels@,
            labels@.project.unwrap_or(Seq::empty()),
            labels@.changed_files.unwrap_or(Seq::empty()),
        ),
{
    let ghost before = string_views(out@);
    if let Some(p) = &labels.project {
        out.push(p.clone());
    }
    let ghost mid = string_views(out@);
    assert(mid =~= before + (if labels@.project is Some { seq![labels@.project.unwrap_or(Seq::empty())] } else { Seq::<Seq<char>>::empty() }));
    if let Some(c) = &labels.changed_files {
        out.push(c.clone());
    }
    assert(string_views(out@) =~= mid + (if labels@.changed_files is Some { seq![labels@.changed_files.unwrap_or(Seq::empty())] } else { Seq::<Seq<char>>::empty() }));
}

fn header_row(labels: &ReportLabels) -> (r: Vec<String>)
    ensures
        string_views(r@) == header_fields(labels@),
{
    let mut r: Vec<String> = Vec::new();
    if labels.project.is_some() {
        r.push(String::from_str("Project Name"));
    }
    if labels.changed_files.is_some() {
        r.push(String::from_str("Changed Files"));
    }
    r.push(String::from_str("Commit Hash"));
    r.push(String::from_str("Author"));
    r.push(String::from_str("Date"));
    r.push(String::from_str("Message"));
    r.push(String::from_str("Time Difference"));
    assert(string_views(r@) =~= header_fields(labels@));
    r
}

fn record_row(labels: &ReportLabels, rec: &CommitRecord) -> (r: Vec<String>)
    ensures
        string_views(r@) == row_fields(labels@, rec@),
{
    let mut r: Vec<String> = Vec::new();
    assert(string_views(r@) =~= Seq::<Seq<char>>::empty());
    leading_values(labels, &mut r);
    let ghost lead = string_views(r@);
    r.push(rec.hash.clone());
    r.push(rec.author.clone());
    r.push(rec.date.clone());
    r.push(rec.message.clone());
    let time = match &rec.time_since_commit {
        Some(t) => t.clone(),
        None => String::from_str("N/A"),
    };
    r.push(time);
    assert(string_views(r@) =~= lead + seq![rec@.hash, rec@.author, rec@.date, rec@.message,
        rec@.time_since_commit.unwrap_or(not_available())]);
    r
}

/// Renders the records as the report's text: a header row whose columns
/// `labels` configures, then one row per record, in order.
pub fn render_report(labels: &ReportLabels, records: &Vec<CommitRecord>) -> (r: String)
    ensures
        r@ == report_text(labels@, views(records@)),
{
    let mut r = String::new();
    push_row(&mut r, &header_row(labels));
    let ghost head = r@;
    let ghost recs = views(records@);
    let mut i: usize = 0;
    assert(recs.take(0) =~= Seq::<RecordView>::empty());
    while i < records.len()
        invariant
            i <= records.len(),
            recs == views(records@),
            head == row_text(header_fields(labels@)),
            r@ == head + rows_text(labels@, recs.take(i as int)),
        decreases records.len() - i,
    {
        push_row(&mut r, &record_row(labels, &records[i]));
        proof {
            let t = recs.take(i as int + 1);
            assert(t.drop_last() =~= recs.take(i as int));
            assert(t.last() == records[i as int]@);
        }
        i = i + 1;
        assert(r@ =~= head + rows_text(labels@, recs.take(i as int)));
    }
    assert(recs.take(i as int) =~= recs);
    r
}

/// The column titles of the verbatim report.
pub open spec fn raw_header_fields() -> Seq<Seq<char>> {
    seq!["Commit Hash"@, "Author"@, "Date"@, "Message"@]
}

/// The lines, each followed by a line feed.
pub open spec fn lines_text(ls: Seq<Seq<char>>) -> Seq<char>
    decreases ls.len(),
{
    if ls.len() == 0 {
        Seq::empty()
    } else {
        lines_text(ls.drop_last()) + ls.last().push('\n')
    }
}

/// The verbatim report: the header row, then the lines unchanged.
pub open spec fn raw_report_text(ls: Seq<Seq<char>>) -> Seq<char> {
    row_text(raw_header_fields()) + lines_text(ls)
}

/// Renders history text without parsing it: the header row, then the kept
/// lines (the non-empty ones, at most `cap` of them) as they are.
pub fn render_raw_report(raw: &str, cap: Option<usize>) -> (r: String)
    ensures
        r@ == raw_report_text(retained_lines(raw@, cap)),
{
    let mut header: Vec<String> = Vec::new();
    header.push(String::from_str("Commit Hash"));
    header.push(String::from_str("Author"));
    header.push(String::from_str("Date"));
    header.push(String::from_str("Message"));
    assert(string_views(header@) =~= raw_header_fields());
    let mut r = String::new();
    push_row(&mut r, &header);
    let ghost head = r@;
    let lines = crate::text::lines_of(raw);
    let ghost kept = retained_lines(raw@, cap);
    let ghost ls = nonempty_lines(raw@);
    let count: usize = match cap {
        Some(n) => if n < lines.len() { n } else { lines.len() },
        None => lines.len(),
    };
    let mut i: usize = 0;
    assert(kept.take(0) =~= Seq::<Seq<char>>::empty());
    while i < count
        invariant
            count <= lines.len(),
            lines.len() == ls.len(),
            forall|j: int| 0 <= j < lines.len() ==> #[trigger] lines[j]@ == ls[j],
            kept == retained_lines(raw@, cap),
            kept.len() == count,
            forall|j: int| 0 <= j < count ==> #[trigger] kept[j] == ls[j],
            i <= count,
            head == row_text(raw_header_fields()),
            r@ == head + lines_text(kept.take(i as int)),
        decreases count - i,
    {
        let line = crate::text::string_of(&lines[i]);
        r.append(line.as_str());
        r.push('\n');
        proof {
            let t = kept.take(i as int + 1);
            assert(t.drop_last() =~= kept.take(i as int));
            assert(t.last() == lines[i as int]@);
        }
        i = i + 1;
        assert(r@ =~= head + lines_text(kept.take(i as int)));
    }
    assert(kept.take(i as int) =~= kept);
    r
}

/// With no records the report is the header row and nothing else.
pub proof fn lemma_empty_report_is_header(labels: LabelsView)
    ensures
        report_text(labels, Seq::empty()) == row_text(header_fields(labels)),
{
    assert(report_text(labels, Seq::empty()) =~= row_text(header_fields(labels)));
}

/// A record whose time since the commit is unknown has `N/A` in its last
/// column: its row ends with `,N/A` and the line feed.
pub proof fn lemma_unknown_time_is_not_available(labels: LabelsView, rec: RecordView)
    requires
        rec.time_since_commit is None,
    ensures
        row_fields(labels, rec).last() == "N/A"@,
        row_text(row_fields(labels, rec)) == join_fields(row_fields(labels, rec).drop_last()) + ",N/A\n"@,
{
    reveal_strlit("N/A");
    reveal_strlit(",N/A\n");
    let fs = row_fields(labels, rec);
    assert(fs.last() == "N/A"@);
    assert(!needs_quoting("N/A"@)) by {
        assert forall|i: int| 0 <= i < "N/A"@.len() implies !is_special(#[trigger] "N/A"@[i]) by {}
    }
    assert(fs.len() > 1);
    assert(row_text(fs) =~= join_fields(fs.drop_last()) + ",N/A\n"@);
}

} // verus!
