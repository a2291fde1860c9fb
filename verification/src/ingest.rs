//! CSV ingestion of projects exported by the submission platform.
//!
//! The CSV reader itself is an outside library; its result is a named,
//! otherwise unconstrained function of the text.  Everything after it is
//! verified: which rows are usable, how a row becomes a project document,
//! and how the prize-track column splits into the challenge list.

use vstd::prelude::*;
use vstd::string::StrSliceExecFns;
use crate::models::{Project, ProjectView, MU_PRIOR_BITS, SIGMA_SQ_PRIOR_BITS};

verus! {

/// The CSV text could not be parsed.
#[derive(Clone, Copy, Debug, PartialEq, Eq, Structural)]
pub enum CsvError {
    Parse,
}

/// What the CSV reader makes of the text: the records and their fields,
/// or nothing when the text is malformed.  The result depends on the text
/// alone.
pub uninterp spec fn csv_rows(text: Seq<char>, has_headers: bool) -> Option<Seq<Seq<Seq<char>>>>;

/// Relies on `csv::ReaderBuilder` and `StringRecords`: parses the text
/// into records of string fields, reading a header row first when asked.
#[verifier::external_body]
fn parse_csv_records(data: &str, has_headers: bool) -> (r: Option<Vec<Vec<String>>>)
    ensures
        r.deep_view() == csv_rows(data@, has_headers),
{
    let mut rdr = csv::ReaderBuilder::new().has_headers(has_headers).from_reader(data.as_bytes());
    let mut out = Vec::new();
    for rec in rdr.records() {
        match rec {
            Ok(row) => out.push(row.iter().map(|f| f.to_string()).collect()),
            Err(_) => return None,
        }
    }
    Some(out)
}

/// The fields joined back with commas: the inverse view of splitting.
pub open spec fn spec_join_commas(fields: Seq<Seq<char>>) -> Seq<char>
    decreases fields.len(),
{
    if fields.len() == 0 {
        Seq::empty()
    } else if fields.len() == 1 {
        fields[0]
    } else {
        fields[0] + seq![','] + spec_join_commas(fields.drop_first())
    }
}

proof fn lemma_join_extend_last(fs: Seq<Seq<char>>, cur: Seq<char>, c: char)
    ensures
        spec_join_commas(fs.push(cur.push(c))) == spec_join_commas(fs.push(cur)).push(c),
    decreases fs.len(),
{
    if fs.len() == 0 {
        assert(fs.push(cur.push(c))[0] == cur.push(c));
        assert(fs.push(cur)[0] == cur);
    } else {
        lemma_join_extend_last(fs.drop_first(), cur, c);
        assert(fs.push(cur.push(c)).drop_first() =~= fs.drop_first().push(cur.push(c)));
        assert(fs.push(cur).drop_first() =~= fs.drop_first().push(cur));
        assert(fs.push(cur.push(c))[0] == fs[0]);
        assert(fs.push(cur)[0] == fs[0]);
        assert((fs[0] + seq![','] + spec_join_commas(fs.drop_first().push(cur))).push(c) =~= fs[0]
            + seq![','] + spec_join_commas(fs.drop_first().push(cur)).push(c));
    }
}

proof fn lemma_join_new_field(fs: Seq<Seq<char>>, cur: Seq<char>)
    ensures
        spec_join_commas(fs.push(cur).push(Seq::empty())) == spec_join_commas(fs.push(cur)).push(
            ',',
        ),
    decreases fs.len(),
{
    if fs.len() == 0 {
        let two = fs.push(cur).push(Seq::<char>::empty());
        assert(two[0] == cur);
        assert(two.drop_first() =~= seq![Seq::<char>::empty()]);
        assert(spec_join_commas(seq![Seq::<char>::empty()]) == Seq::<char>::empty());
        assert(spec_join_commas(two) == cur + seq![','] + Seq::<char>::empty());
        assert(cur + seq![','] + Seq::<char>::empty() =~= cur.push(','));
        assert(spec_join_commas(fs.push(cur)) == cur);
    } else {
        lemma_join_new_field(fs.drop_first(), cur);
        assert(fs.push(cur).push(Seq::empty()).drop_first() =~= fs.drop_first().push(cur).push(
            Seq::empty(),
        ));
        assert(fs.push(cur).drop_first() =~= fs.drop_first().push(cur));
        assert(fs.push(cur).push(Seq::empty())[0] == fs[0]);
        assert(fs.push(cur)[0] == fs[0]);
        assert((fs[0] + seq![','] + spec_join_commas(fs.drop_first().push(cur))).push(',') =~= fs[0]
            + seq![','] + spec_join_commas(fs.drop_first().push(cur)).push(','));
    }
}

/// Splits a string at commas.  The contract pins the result exactly: the
/// fields contain no comma, and joined back with commas they give the
/// input.  A string without commas yields itself; every comma opens a new
/// field, so empty fields are kept.
pub fn split_commas(s: &str) -> (r: Vec<String>)
    ensures
        r@.len() >= 1,
        spec_join_commas(r.deep_view()) == s@,
        forall|k: int| 0 <= k < r@.len() ==> !(#[trigger] r.deep_view()[k]).contains(','),
{
    let n = s.unicode_len();
    let mut fields: Vec<String> = Vec::new();
    let mut start: usize = 0;
    let mut i: usize = 0;
    while i < n
        invariant
            n == s@.len(),
            0 <= start <= i <= n,
            spec_join_commas(fields.deep_view().push(s@.subrange(start as int, i as int)))
                == s@.take(i as int),
            !s@.subrange(start as int, i as int).contains(','),
            forall|k: int|
                0 <= k < fields@.len() ==> !(#[trigger] fields.deep_view()[k]).contains(','),
        decreases n - i,
    {
        let c = s.get_char(i);
        proof {
            assert(s@.take(i + 1) =~= s@.take(i as int).push(s@[i as int]));
        }
        if c == ',' {
            let ghost fs = fields.deep_view();
            let ghost curv = s@.subrange(start as int, i as int);
            let field = s.substring_char(start, i).to_owned();
            fields.push(field);
            proof {
                lemma_join_new_field(fs, curv);
                assert(fields.deep_view() =~= fs.push(curv));
                assert(s@.subrange(i + 1, i + 1) =~= Seq::<char>::empty());
                assert(fields.deep_view().push(s@.subrange(i + 1, i + 1)) =~= fs.push(curv).push(
                    Seq::empty(),
                ));
            }
            start = i + 1;
        } else {
            let ghost fs = fields.deep_view();
            let ghost curv = s@.subrange(start as int, i as int);
            proof {
                lemma_join_extend_last(fs, curv, s@[i as int]);
                assert(s@.subrange(start as int, i + 1) =~= curv.push(s@[i as int]));
                assert(fields.deep_view().push(s@.subrange(start as int, i + 1)) =~= fs.push(
                    curv.push(s@[i as int]),
                ));
                assert(!s@.subrange(start as int, i + 1).contains(',')) by {
                    let ext = s@.subrange(start as int, i + 1);
                    if ext.contains(',') {
                        let w = choose|k: int| 0 <= k < ext.len() && ext[k] == ',';
                        assert(w < curv.len() ==> curv[w] == ',');
                    }
                }
            }
        }
        i = i + 1;
    }
    let ghost fs = fields.deep_view();
    let ghost curv = s@.subrange(start as int, n as int);
    let field = s.substring_char(start, n).to_owned();
    fields.push(field);
    proof {
        assert(s@.take(n as int) =~= s@);
        assert(fields.deep_view() =~= fs.push(curv));
    }
    fields
}

/// An empty string becomes no link at all.
pub open spec fn spec_str_opt(s: Seq<char>) -> Option<Seq<char>> {
    if s.len() == 0 {
        None
    } else {
        Some(s)
    }
}

/// A usable export row: enough columns to read every mapped field.
pub open spec fn spec_row_usable(row: Seq<Seq<char>>) -> bool {
    row.len() >= 13
}

/// The usable rows of an export, in order.
pub open spec fn keep_usable_rows(rows: Seq<Seq<Seq<char>>>) -> Seq<Seq<Seq<char>>>
    decreases rows.len(),
{
    if rows.len() == 0 {
        Seq::empty()
    } else {
        let rest = keep_usable_rows(rows.drop_last());
        if spec_row_usable(rows.last()) {
            rest.push(rows.last())
        } else {
            rest
        }
    }
}

/// A project built from one usable export row, before a location is
/// assigned: title, description and links from their columns, default
/// posteriors.  The challenge list is the prize column split at commas,
/// which the clauses of `devpost_integration` pin through the join.
pub open spec fn spec_row_matches_project(row: Seq<Seq<char>>, p: ProjectView) -> bool {
    &&& p.id == None::<u64>
    &&& p.name == row[0]
    &&& p.location == 0u64
    &&& p.description == row[6]
    &&& p.try_link == spec_str_opt(row[7])
    &&& p.video_link == spec_str_opt(row[8])
    &&& spec_join_commas(p.challenge_list) == row[9]
    &&& forall|k: int| 0 <= k < p.challenge_list.len() ==> !(#[trigger] p.challenge_list[k]).contains(',')
    &&& p.seen == 0u64
    &&& p.votes == 0u64
    &&& p.mu == MU_PRIOR_BITS
    &&& p.sigma_sq == SIGMA_SQ_PRIOR_BITS
    &&& p.active
    &&& !p.prioritized
    &&& p.last_activity == 0i64
}

/// Turns an export of the submission platform into project documents:
/// one project per usable row, in order; rows with too few columns are
/// dropped; unparsable text is an error.  The export carries a header
/// row.
pub fn devpost_integration(data: &str) -> (r: Result<Vec<Project>, CsvError>)
    ensures
        r is Err <==> csv_rows(data@, true) is None,
        r matches Ok(projects) ==> (csv_rows(data@, true) matches Some(rows) && {
            let usable = keep_usable_rows(rows);
            &&& projects.deep_view().len() == usable.len()
            &&& forall|k: int|
                0 <= k < usable.len() ==> spec_row_matches_project(
                    #[trigger] usable[k],
                    projects.deep_view()[k],
                )
        }),
{
    let rows = match parse_csv_records(data, true) {
        Some(rows) => rows,
        None => {
            return Err(CsvError::Parse);
        },
    };
    let ghost rv = rows.deep_view();
    let n = rows.len();
    let mut projects: Vec<Project> = Vec::new();
    let mut i: usize = 0;
    while i < n
        invariant
            n == rows@.len(),
            rv == rows.deep_view(),
            0 <= i <= n,
            projects.deep_view().len() == keep_usable_rows(rv.take(i as int)).len(),
            forall|k: int|
                0 <= k < keep_usable_rows(rv.take(i as int)).len() ==> spec_row_matches_project(
                    #[trigger] keep_usable_rows(rv.take(i as int))[k],
                    projects.deep_view()[k],
                ),
        decreases n - i,
    {
        proof {
            assert(rv.take(i + 1).drop_last() =~= rv.take(i as int));
            assert(rv.take(i + 1).last() == rv[i as int]);
        }
        let row = &rows[i];
        if row.len() >= 13 {
            let name = row[0].clone();
            let description = row[6].clone();
            let try_link = if row[7].as_str().is_empty() {
                None
            } else {
                Some(row[7].clone())
            };
            let video_link = if row[8].as_str().is_empty() {
                None
            } else {
                Some(row[8].clone())
            };
            let challenge_list = split_commas(row[9].as_str());
            let ghost before = projects.deep_view();
            let p = Project::new(name, description, try_link, video_link, challenge_list);
            proof {
                assert(rows@[i as int].deep_view() == rv[i as int]);
                assert(forall|k: int|
                    0 <= k < rows@[i as int]@.len() ==> rows@[i as int].deep_view()[k] == (
                    #[trigger] rows@[i as int]@[k])@);
                assert(spec_row_matches_project(rv[i as int], p@));
            }
            projects.push(p);
            proof {
                assert(projects.deep_view() =~= before.push(p@));
            }
        }
        i = i + 1;
    }
    proof {
        assert(rv.take(n as int) =~= rv);
    }
    Ok(projects)
}

} // verus!
