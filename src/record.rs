//! Commit records and the parsing of history text into them.
use vstd::prelude::*;
use crate::text::{split_on, nonempty_lines, string_of, split_chars, lines_of};
use crate::elapsed::{time_since_text, derive_time_since};

verus! {

/// The history tool's field separator.
pub const FIELD_DELIMITER: char = ',';

/// One commit of the history: the fields of one line of history text, and
/// the time elapsed since the commit when its date could be read.
#[derive(Debug, Clone, PartialEq, Eq)]
pub struct CommitRecord {
    pub hash: String,
    pub author: String,
    pub date: String,
    pub message: String,
    pub time_since_commit: Option<String>,
}

/// The contents of a `CommitRecord`.
pub struct RecordView {
    pub hash: Seq<char>,
    pub author: Seq<char>,
    pub date: Seq<char>,
    pub message: Seq<char>,
    pub time_since_commit: Option<Seq<char>>,
}

impl View for CommitRecord {
    type V = RecordView;

    open spec fn view(&self) -> RecordView {
        RecordView {
            hash: self.hash@,
            author: self.author@,
            date: self.date@,
            message: self.message@,
            time_since_commit: match self.time_since_commit {
                Some(t) => Some(t@),
                None => None,
            },
        }
    }
}

/// Why history text could not be read.
#[derive(Debug, Clone, PartialEq, Eq)]
pub enum ParseError {
    /// A non-empty line has fewer than four comma-separated fields.
    MalformedRecord { line: String },
}

/// The comma-separated fields of a line.
pub open spec fn fields_of(line: Seq<char>) -> Seq<Seq<char>> {
    split_on(line, FIELD_DELIMITER)
}

/// A line holds hash, author, date and message.
pub open spec fn well_formed_line(line: Seq<char>) -> bool {
    fields_of(line).len() >= 4
}

/// The record that a well-formed line gives, seen at `now`: the first four
/// fields, and the time since the date in the third.
pub open spec fn record_of(line: Seq<char>, now: int) -> RecordView {
    let f = fields_of(line);
    RecordView {
        hash: f[0],
        author: f[1],
        date: f[2],
        message: f[3],
        time_since_commit: time_since_text(f[2], now),
    }
}

/// The records of `ls` in order, or the first line that is not well formed.
pub open spec fn parse_lines(ls: Seq<Seq<char>>, now: int) -> Result<Seq<RecordView>, Seq<char>>
    decreases ls.len(),
{
    if ls.len() == 0 {
        Ok(Seq::empty())
    } else {
        match parse_lines(ls.drop_last(), now) {
            Err(e) => Err(e),
            Ok(v) => if well_formed_line(ls.last()) {
                Ok(v.push(record_of(ls.last(), now)))
            } else {
                Err(ls.last())
            },
        }
    }
}

/// The first `cap` of `ls` when a cap is given, else all of `ls`.
pub open spec fn capped<A>(ls: Seq<A>, cap: Option<usize>) -> Seq<A> {
    match cap {
        Some(n) => if n < ls.len() { ls.take(n as int) } else { ls },
        None => ls,
    }
}

/// The lines of history text that are kept: the non-empty ones, at most
/// `cap` of them.
pub open spec fn retained_lines(raw: Seq<char>, cap: Option<usize>) -> Seq<Seq<char>> {
    capped(nonempty_lines(raw), cap)
}

/// What parsing history text gives: the records, or the first bad line.
pub open spec fn parse_outcome(raw: Seq<char>, cap: Option<usize>, now: int) -> Result<Seq<RecordView>, Seq<char>> {
    parse_lines(retained_lines(raw, cap), now)
}

/// The views of a vector of records.
pub open spec fn views(v: Seq<CommitRecord>) -> Seq<RecordView> {
    v.map_values(|r: CommitRecord| r@)
}

/// Parses one line of history text (`hash,author,date,message`) into a
/// record, with the time since the commit seen at `now`.
pub fn process_commit_line(line: &str, now: i64) -> (r: Result<CommitRecord, ParseError>)
    ensures
        r is Ok <==> well_formed_line(line@),
        r matches Ok(rec) ==> rec@ == record_of(line@, now as int),
        r matches Err(ParseError::MalformedRecord { line: l }) ==> l@ == line@,
{
    let cs = crate::text::chars_of(line);
    record_from_chars(&cs, now)
}

fn record_from_chars(cs: &Vec<char>, now: i64) -> (r: Result<CommitRecord, ParseError>)
    ensures
        r is Ok <==> well_formed_line(cs@),
        r matches Ok(rec) ==> rec@ == record_of(cs@, now as int),
        r matches Err(ParseError::MalformedRecord { line: l }) ==> l@ == cs@,
{
    let fields = split_chars(cs, FIELD_DELIMITER);
    if fields.len() < 4 {
        return Err(ParseError::MalformedRecord { line: string_of(cs) });
    }
    let date = string_of(&fields[2]);
    let time_since_commit = derive_time_since(date.as_str(), now);
    let rec = CommitRecord {
        hash: string_of(&fields[0]),
        author: string_of(&fields[1]),
        date,
        message: string_of(&fields[3]),
        time_since_commit,
    };
    assert(rec@ == record_of(cs@, now as int));
    Ok(rec)
}

/// Parses history text: one record per non-empty line, in order, keeping at
/// most `cap` lines when a cap is given. Fails on the first kept line with
/// fewer than four fields.
pub fn parse_records(raw: &str, cap: Option<usize>, now: i64) -> (r: Result<Vec<CommitRecord>, ParseError>)
    ensures
        r is Ok <==> parse_outcome(raw@, cap, now as int) is Ok,
        r matches Ok(v) ==> parse_outcome(raw@, cap, now as int) == Ok::<Seq<RecordView>, Seq<char>>(views(v@)),
        r matches Err(ParseError::MalformedRecord { line: l }) ==> parse_outcome(raw@, cap, now as int) == Err::<Seq<RecordView>, Seq<char>>(l@),
{
    let lines = lines_of(raw);
    let ghost ls = nonempty_lines(raw@);
    let ghost kept = retained_lines(raw@, cap);
    let count: usize = match cap {
        Some(n) => if n < lines.len() { n } else { lines.len() },
        None => lines.len(),
    };
    assert(kept.len() == count);
    let mut out: Vec<CommitRecord> = Vec::new();
    let mut i: usize = 0;
    assert(kept.take(0) =~= Seq::<Seq<char>>::empty());
    assert(views(out@) =~= Seq::<RecordView>::empty());
    while i < count
        invariant
            count <= lines.len(),
            lines.len() == ls.len(),
            forall|j: int| 0 <= j < lines.len() ==> #[trigger] lines[j]@ == ls[j],
            kept == retained_lines(raw@, cap),
            kept.len() == count,
            forall|j: int| 0 <= j < count ==> #[trigger] kept[j] == ls[j],
            i <= count,
            parse_lines(kept.take(i as int), now as int) == Ok::<Seq<RecordView>, Seq<char>>(views(out@)),
        decreases count - i,
    {
        proof {
            assert(kept.take(i as int + 1).drop_last() =~= kept.take(i as int));
            assert(kept.take(i as int + 1).last() == lines[i as int]@);
        }
        let ghost before = out@;
        match record_from_chars(&lines[i], now) {
            Ok(rec) => {
                let ghost rv = rec@;
                out.push(rec);
                assert(views(out@) =~= views(before).push(rv));
            },
            Err(e) => {
                proof {
                    let t = kept.take(i as int + 1);
                    assert(!well_formed_line(t.last()));
                    assert(parse_lines(t, now as int) == Err::<Seq<RecordView>, Seq<char>>(lines[i as int]@));
                    lemma_parse_lines_err_extends(kept, i as int + 1, now as int);
                }
                return Err(e);
            },
        }
        i = i + 1;
    }
    assert(kept.take(i as int) =~= kept);
    Ok(out)
}

/// Once a prefix of the lines fails, every longer prefix fails the same way.
proof fn lemma_parse_lines_err_extends(ls: Seq<Seq<char>>, k: int, now: int)
    requires
        0 <= k <= ls.len(),
        parse_lines(ls.take(k), now) is Err,
    ensures
        parse_lines(ls, now) == parse_lines(ls.take(k), now),
    decreases ls.len() - k,
{
    if k < ls.len() {
        assert(ls.take(k + 1).drop_last() =~= ls.take(k));
        lemma_parse_lines_err_extends(ls, k + 1, now);
    } else {
        assert(ls.take(k) =~= ls);
    }
}

/// Parsing lines succeeds exactly when every line is well formed, and then
/// gives one record per line, in order, made of that line's fields.
pub proof fn lemma_parse_lines_exact(ls: Seq<Seq<char>>, now: int)
    ensures
        parse_lines(ls, now) is Ok <==> forall|i: int| 0 <= i < ls.len() ==> well_formed_line(#[trigger] ls[i]),
        parse_lines(ls, now) is Ok ==> parse_lines(ls, now) == Ok::<Seq<RecordView>, Seq<char>>(
            ls.map_values(|l: Seq<char>| record_of(l, now)),
        ),
    decreases ls.len(),
{
    if ls.len() > 0 {
        let init = ls.drop_last();
        lemma_parse_lines_exact(init, now);
        assert forall|i: int| 0 <= i < init.len() implies #[trigger] init[i] == ls[i] by {}
        if parse_lines(ls, now) is Ok {
            assert forall|i: int| 0 <= i < ls.len() implies well_formed_line(#[trigger] ls[i]) by {
                if i < init.len() {
                    assert(init[i] == ls[i]);
                }
            }
            assert(ls.map_values(|l: Seq<char>| record_of(l, now)) =~= init.map_values(
                |l: Seq<char>| record_of(l, now),
            ).push(record_of(ls.last(), now)));
        }
        if forall|i: int| 0 <= i < ls.len() ==> well_formed_line(#[trigger] ls[i]) {
            assert(well_formed_line(ls[ls.len() - 1]));
            assert forall|i: int| 0 <= i < init.len() implies well_formed_line(#[trigger] init[i]) by {
                assert(init[i] == ls[i]);
            }
        }
    } else {
        assert(ls.map_values(|l: Seq<char>| record_of(l, now)) =~= Seq::<RecordView>::empty());
    }
}

/// History text whose non-empty lines all have four fields parses into one
/// record per non-empty line, in order, whose hash, author, date and message
/// are that line's fields.
pub proof fn lemma_well_formed_text_parses(raw: Seq<char>, now: int)
    requires
        forall|i: int| 0 <= i < nonempty_lines(raw).len() ==> well_formed_line(#[trigger] nonempty_lines(raw)[i]),
    ensures
        parse_outcome(raw, None, now) matches Ok(v) && v.len() == nonempty_lines(raw).len()
            && forall|i: int| 0 <= i < v.len() ==> {
                let f = fields_of(nonempty_lines(raw)[i]);
                &&& (#[trigger] v[i]).hash == f[0]
                &&& v[i].author == f[1]
                &&& v[i].date == f[2]
                &&& v[i].message == f[3]
            },
{
    lemma_parse_lines_exact(nonempty_lines(raw), now);
}

/// A kept line with fewer than four fields makes parsing fail, reporting the
/// first such line; no records are produced.
pub proof fn lemma_malformed_line_fails(raw: Seq<char>, cap: Option<usize>, now: int, i: int)
    requires
        0 <= i < retained_lines(raw, cap).len(),
        fields_of(retained_lines(raw, cap)[i]).len() < 4,
    ensures
        parse_outcome(raw, cap, now) matches Err(l) && !well_formed_line(l),
{
    let ls = retained_lines(raw, cap);
    lemma_parse_lines_exact(ls, now);
    assert(!well_formed_line(ls[i]));
    lemma_parse_lines_err_is_bad(ls, now);
}

proof fn lemma_parse_lines_err_is_bad(ls: Seq<Seq<char>>, now: int)
    ensures
        parse_lines(ls, now) matches Err(l) ==> !well_formed_line(l),
    decreases ls.len(),
{
    if ls.len() > 0 {
        lemma_parse_lines_err_is_bad(ls.drop_last(), now);
    }
}

proof fn lemma_parse_lines_prefix(ls: Seq<Seq<char>>, k: int, now: int)
    requires
        0 <= k <= ls.len(),
        parse_lines(ls, now) is Ok,
    ensures
        parse_lines(ls.take(k), now) matches Ok(w) && parse_lines(ls, now) matches Ok(v)
            && w == v.take(k),
    decreases ls.len(),
{
    if k == ls.len() {
        assert(ls.take(k) =~= ls);
        let v = parse_lines(ls, now)->Ok_0;
        assert(v.take(k) =~= v) by {
            lemma_parse_lines_len(ls, now);
        }
    } else {
        let init = ls.drop_last();
        lemma_parse_lines_prefix(init, k, now);
        assert(init.take(k) =~= ls.take(k));
        lemma_parse_lines_len(init, now);
        let v = parse_lines(ls, now)->Ok_0;
        let u = parse_lines(init, now)->Ok_0;
        assert(v.take(k) =~= u.take(k));
    }
}

proof fn lemma_parse_lines_len(ls: Seq<Seq<char>>, now: int)
    ensures
        parse_lines(ls, now) matches Ok(v) ==> v.len() == ls.len(),
    decreases ls.len(),
{
    if ls.len() > 0 {
        lemma_parse_lines_len(ls.drop_last(), now);
    }
}

/// Keeping at most `n` lines of history text that parses into more than `n`
/// records gives exactly the first `n` of those records, in order.
pub proof fn lemma_cap_keeps_first(raw: Seq<char>, n: usize, now: int)
    requires
        parse_outcome(raw, None, now) matches Ok(v) && v.len() > n,
    ensures
        parse_outcome(raw, Some(n), now) matches Ok(w) && parse_outcome(raw, None, now) matches Ok(v)
            && w == v.take(n as int),
{
    let ls = nonempty_lines(raw);
    lemma_parse_lines_len(ls, now);
    lemma_parse_lines_prefix(ls, n as int, now);
}

} // verus!
