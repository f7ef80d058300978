//! Worktree reconciler: parses the raw line-oriented output of a
//! "list worktrees" invocation into structured records and classifies
//! each worktree as active or archived against the inactive-slot list.
//!
//! Each listing line is whitespace-separated `<path> <commit>
//! <branch-in-brackets>`. A line with too few fields, or a branch field
//! too short to carry its bracket decoration, is a fatal parse error:
//! the listing format is an assumed invariant, not defended against.

use vstd::prelude::*;

use crate::OpError;
use crate::text::chars_to_string;
use crate::text::sub_chars;
use crate::text::to_chars;

verus! {

/// Whitespace for the purpose of splitting listing lines into fields.
pub open spec fn is_ws(c: char) -> bool {
    c == ' ' || c == '\t' || c == '\r' || c == '\n'
}

/// The whitespace-separated fields of `s` from position `i` on, given
/// the (non-empty-so-far) current field `cur` and the fields `acc`
/// already completed.
pub open spec fn fields_rec(s: Seq<char>, i: int, cur: Seq<char>, acc: Seq<Seq<char>>) -> Seq<
    Seq<char>,
>
    decreases s.len() - i,
{
    if i < 0 || i >= s.len() {
        if cur.len() > 0 {
            acc.push(cur)
        } else {
            acc
        }
    } else if is_ws(s[i]) {
        if cur.len() > 0 {
            fields_rec(s, i + 1, Seq::empty(), acc.push(cur))
        } else {
            fields_rec(s, i + 1, Seq::empty(), acc)
        }
    } else {
        fields_rec(s, i + 1, cur.push(s[i]), acc)
    }
}

/// The whitespace-separated fields of a line.
pub open spec fn fields_of(s: Seq<char>) -> Seq<Seq<char>> {
    fields_rec(s, 0, Seq::empty(), Seq::empty())
}

/// Splits a line into its whitespace-separated fields.
pub fn split_fields(line: &Vec<char>) -> (r: Vec<Vec<char>>)
    ensures
        r.deep_view() == fields_of(line@),
{
    let mut acc: Vec<Vec<char>> = Vec::new();
    let mut cur: Vec<char> = Vec::new();
    proof {
        assert(acc.deep_view() =~~= Seq::<Seq<char>>::empty());
    }
    let mut i: usize = 0;
    while i < line.len()
        invariant
            i <= line@.len(),
            fields_rec(line@, i as int, cur@, acc.deep_view()) == fields_of(line@),
        decreases line@.len() - i,
    {
        let ghost prev_acc = acc.deep_view();
        let ghost prev_cur = cur@;
        let c = line[i];
        if c == ' ' || c == '\t' || c == '\r' || c == '\n' {
            if cur.len() > 0 {
                acc.push(cur);
                cur = Vec::new();
                proof {
                    assert(acc.deep_view() =~~= prev_acc.push(prev_cur));
                }
            } else {
                proof {
                    assert(cur@ =~= Seq::<char>::empty());
                }
            }
        } else {
            cur.push(c);
        }
        i += 1;
    }
    if cur.len() > 0 {
        let ghost prev_acc = acc.deep_view();
        let ghost prev_cur = cur@;
        acc.push(cur);
        proof {
            assert(acc.deep_view() =~~= prev_acc.push(prev_cur));
        }
    }
    acc
}

/// The lines of `s` from position `i` on: segments separated by a line
/// feed, a carriage return directly before a line feed stripped, and a
/// final empty segment dropped.
pub open spec fn lines_rec(s: Seq<char>, i: int, cur: Seq<char>, acc: Seq<Seq<char>>) -> Seq<
    Seq<char>,
>
    decreases s.len() - i,
{
    if i < 0 || i >= s.len() {
        if cur.len() > 0 {
            acc.push(cur)
        } else {
            acc
        }
    } else if s[i] == '\n' {
        lines_rec(s, i + 1, Seq::empty(), acc.push(strip_cr(cur)))
    } else {
        lines_rec(s, i + 1, cur.push(s[i]), acc)
    }
}

/// Drops one carriage return at the end of a line body, if present.
pub open spec fn strip_cr(s: Seq<char>) -> Seq<char> {
    if s.len() > 0 && s.last() == '\r' {
        s.drop_last()
    } else {
        s
    }
}

/// The lines of a raw listing.
pub open spec fn lines_of(s: Seq<char>) -> Seq<Seq<char>> {
    lines_rec(s, 0, Seq::empty(), Seq::empty())
}

/// Splits a raw listing into its lines.
pub fn split_lines(raw: &Vec<char>) -> (r: Vec<Vec<char>>)
    ensures
        r.deep_view() == lines_of(raw@),
{
    let mut acc: Vec<Vec<char>> = Vec::new();
    let mut cur: Vec<char> = Vec::new();
    proof {
        assert(acc.deep_view() =~~= Seq::<Seq<char>>::empty());
    }
    let mut i: usize = 0;
    while i < raw.len()
        invariant
            i <= raw@.len(),
            lines_rec(raw@, i as int, cur@, acc.deep_view()) == lines_of(raw@),
        decreases raw@.len() - i,
    {
        let ghost prev_acc = acc.deep_view();
        let ghost prev_cur = cur@;
        let c = raw[i];
        if c == '\n' {
            if cur.len() > 0 && cur[cur.len() - 1] == '\r' {
                cur.pop();
                proof {
                    assert(cur@ =~= strip_cr(prev_cur));
                }
            }
            proof {
                assert(cur@ == strip_cr(prev_cur));
            }
            acc.push(cur);
            cur = Vec::new();
            proof {
                assert(acc.deep_view() =~~= prev_acc.push(strip_cr(prev_cur)));
            }
        } else {
            cur.push(c);
        }
        i += 1;
    }
    if cur.len() > 0 {
        let ghost prev_acc = acc.deep_view();
        let ghost prev_cur = cur@;
        acc.push(cur);
        proof {
            assert(acc.deep_view() =~~= prev_acc.push(prev_cur));
        }
    }
    acc
}

/// The mathematical content of one worktree record: a path and the
/// branch checked out there.
#[verifier::ext_equal]
pub ghost struct RecordView {
    pub path: Seq<char>,
    pub branch: Seq<char>,
}

/// One worktree reported by the live listing: its path and the branch
/// checked out there, bracket decoration removed. Transient, never
/// persisted.
#[derive(Debug)]
pub struct WorktreeRecord {
    pub path: String,
    pub branch: String,
}

impl View for WorktreeRecord {
    type V = RecordView;

    open spec fn view(&self) -> RecordView {
        RecordView { path: self.path@, branch: self.branch@ }
    }
}

impl DeepView for WorktreeRecord {
    type V = RecordView;

    open spec fn deep_view(&self) -> RecordView {
        self.view()
    }
}

/// The record described by one well-formed listing line: the first
/// field is the path, the third carries the branch between one leading
/// and one trailing decoration character.
pub open spec fn parse_record_spec(line: Seq<char>) -> Option<RecordView> {
    let fs = fields_of(line);
    if fs.len() >= 3 && fs[2].len() >= 2 {
        Some(RecordView { path: fs[0], branch: fs[2].subrange(1, fs[2].len() - 1) })
    } else {
        None
    }
}

/// Parses one listing line into a worktree record; a line with fewer
/// than three fields, or a branch field shorter than its decoration, is
/// a malformed-listing error.
pub fn parse_record(line: &Vec<char>) -> (r: Result<WorktreeRecord, OpError>)
    ensures
        match r {
            Ok(rec) => parse_record_spec(line@) == Some(rec@),
            Err(e) => parse_record_spec(line@) is None && e == OpError::MalformedListing,
        },
{
    let fs = split_fields(line);
    if fs.len() >= 3 {
        proof {
            assert(fs.deep_view()[0] == fs@[0]@);
            assert(fs.deep_view()[2] == fs@[2]@);
        }
        let f2: &Vec<char> = &fs[2];
        if f2.len() >= 2 {
            let b = sub_chars(f2, 1, f2.len() - 1);
            let path = chars_to_string(&fs[0]);
            let branch = chars_to_string(&b);
            Ok(WorktreeRecord { path, branch })
        } else {
            Err(OpError::MalformedListing)
        }
    } else {
        Err(OpError::MalformedListing)
    }
}

/// The active records among the lines from index `i` on, appended to
/// those in `acc`: a record is dropped when its path is a member of the
/// inactive set, and a malformed line poisons the whole listing.
pub open spec fn records_rec(
    lines: Seq<Seq<char>>,
    inactive: Seq<Seq<char>>,
    i: int,
    acc: Seq<RecordView>,
) -> Option<Seq<RecordView>>
    decreases lines.len() - i,
{
    if i < 0 || i >= lines.len() {
        Some(acc)
    } else {
        match parse_record_spec(lines[i]) {
            None => None,
            Some(r) => records_rec(
                lines,
                inactive,
                i + 1,
                if inactive.contains(r.path) {
                    acc
                } else {
                    acc.push(r)
                },
            ),
        }
    }
}

/// The active worktree records of a raw listing: every well-formed line
/// whose path is not in the inactive set, in listing order; `None` when
/// some line is malformed.
pub open spec fn active_records(raw: Seq<char>, inactive: Seq<Seq<char>>) -> Option<
    Seq<RecordView>,
> {
    records_rec(lines_of(raw), inactive, 0, Seq::empty())
}

/// Parses the raw worktree listing and returns the records of the
/// active worktrees: those the listing reports whose path is absent
/// from `inactive`. Errs exactly when some line is malformed.
pub fn list_active(raw: &String, inactive: &Vec<String>) -> (r: Result<Vec<WorktreeRecord>, OpError>)
    ensures
        match r {
            Ok(v) => active_records(raw@, inactive.deep_view()) == Some(v.deep_view()),
            Err(e) => active_records(raw@, inactive.deep_view()) is None && e
                == OpError::MalformedListing,
        },
{
    let chars = to_chars(raw.as_str());
    let lines = split_lines(&chars);
    let mut out: Vec<WorktreeRecord> = Vec::new();
    proof {
        assert(out.deep_view() =~~= Seq::<RecordView>::empty());
    }
    let mut i: usize = 0;
    while i < lines.len()
        invariant
            i <= lines@.len(),
            lines.deep_view() == lines_of(raw@),
            records_rec(lines.deep_view(), inactive.deep_view(), i as int, out.deep_view())
                == active_records(raw@, inactive.deep_view()),
        decreases lines@.len() - i,
    {
        let ghost prev_out = out.deep_view();
        proof {
            assert(lines.deep_view()[i as int] == lines@[i as int]@);
        }
        let rec = match parse_record(&lines[i]) {
            Ok(rec) => rec,
            Err(e) => {
                return Err(e);
            },
        };
        if !crate::text::contains_string(inactive, &rec.path) {
            out.push(rec);
            proof {
                assert(out.deep_view() =~~= prev_out.push(rec@));
            }
        }
        i += 1;
    }
    Ok(out)
}

/// The reconciler exclusion law: an active listing never contains a
/// record whose path is a member of the inactive set, whatever the raw
/// listing was.
pub proof fn lemma_active_excludes_inactive(raw: Seq<char>, inactive: Seq<Seq<char>>)
    ensures
        active_records(raw, inactive) matches Some(rs) ==> forall|k: int|
            0 <= k < rs.len() ==> !inactive.contains(rs[k].path),
{
    lemma_records_rec_excludes(lines_of(raw), inactive, 0, Seq::empty());
}

proof fn lemma_records_rec_excludes(
    lines: Seq<Seq<char>>,
    inactive: Seq<Seq<char>>,
    i: int,
    acc: Seq<RecordView>,
)
    requires
        forall|k: int| 0 <= k < acc.len() ==> !inactive.contains(acc[k].path),
    ensures
        records_rec(lines, inactive, i, acc) matches Some(rs) ==> forall|k: int|
            0 <= k < rs.len() ==> !inactive.contains(rs[k].path),
    decreases lines.len() - i,
{
    if i < 0 || i >= lines.len() {
    } else {
        match parse_record_spec(lines[i]) {
            None => {},
            Some(r) => {
                if inactive.contains(r.path) {
                    lemma_records_rec_excludes(lines, inactive, i + 1, acc);
                } else {
                    lemma_records_rec_excludes(lines, inactive, i + 1, acc.push(r));
                }
            },
        }
    }
}

} // verus!
