//! Mail merge over CSV data: the template is filled once for each record of
//! the table, and the filled documents are joined, each in the namespace
//! `merge-<index>` and each after the first on a new page.

use vstd::prelude::*;
use crate::combine::{namespaced, page_break, AstConcatenator};
use crate::mailmerge::{merged_event, process_ast, record_views};
use crate::md_events::{event_views, Event, EventView};
use crate::text::{append, chars_of, decimal_of_u64, nat_decimal, string_of};

verus! {

pub open spec fn texts(v: Seq<String>) -> Seq<Seq<char>> {
    v.map_values(|s: String| s@)
}

pub open spec fn row_texts(rows: Seq<Vec<String>>) -> Seq<Seq<Seq<char>>> {
    rows.map_values(|r: Vec<String>| texts(r@))
}

/// The header row and the records of CSV text, as `csv` reads them with
/// every field trimmed, or the text of the error it reports.
pub uninterp spec fn csv_table(data: Seq<char>) -> Result<(Seq<Seq<char>>, Seq<Seq<Seq<char>>>), Seq<char>>;

pub open spec fn table_views(r: Result<(Vec<String>, Vec<Vec<String>>), String>) -> Result<
    (Seq<Seq<char>>, Seq<Seq<Seq<char>>>),
    Seq<char>,
> {
    match r {
        Ok((h, rows)) => Ok((texts(h@), row_texts(rows@))),
        Err(e) => Err(e@),
    }
}

/// Reads CSV text with `csv::ReaderBuilder`, trimming every field: the
/// header row and the records, or the first error's message. The contract
/// names the result; it claims nothing more of it.
#[verifier::external_body]
fn read_csv(data: &str) -> (r: Result<(Vec<String>, Vec<Vec<String>>), String>)
    ensures
        table_views(r) == csv_table(data@),
{
    let mut reader = csv::ReaderBuilder::new().trim(csv::Trim::All).from_reader(data.as_bytes());
    let headers: Vec<String> = reader.headers().map_err(|e| e.to_string())?.iter().map(|h| h.to_string()).collect();
    let rows = reader
        .records()
        .map(|rec| rec.map(|fields| fields.iter().map(|f| f.to_string()).collect()))
        .collect::<Result<Vec<Vec<String>>, csv::Error>>()
        .map_err(|e| e.to_string())?;
    Ok((headers, rows))
}

/// The record of a row: each field under the header of its column, the
/// last column first, so that a header named twice gives its last field.
/// Fields past the last header are left out.
pub open spec fn row_record(headers: Seq<Seq<char>>, row: Seq<Seq<char>>) -> Seq<(Seq<char>, Seq<char>)> {
    let n = if row.len() < headers.len() {
        row.len()
    } else {
        headers.len()
    };
    Seq::new(n, |k: int| (headers[n - 1 - k], row[n - 1 - k]))
}

pub open spec fn merge_namespace(i: nat) -> Seq<char> {
    "merge-"@ + nat_decimal(i)
}

/// The template filled from the row at index `i`, in its namespace.
pub open spec fn merged_copy(
    template: Seq<EventView>,
    headers: Seq<Seq<char>>,
    row: Seq<Seq<char>>,
    i: nat,
) -> Seq<EventView> {
    template.map_values(|e: EventView| merged_event(e, row_record(headers, row))).map_values(
        |e: EventView| namespaced(merge_namespace(i), e),
    )
}

/// The joined documents of the template filled from each row in turn.
pub open spec fn merged_documents(
    template: Seq<EventView>,
    headers: Seq<Seq<char>>,
    rows: Seq<Seq<Seq<char>>>,
) -> Seq<EventView>
    decreases rows.len(),
{
    if rows.len() == 0 {
        seq![]
    } else {
        let prev = merged_documents(template, headers, rows.drop_last());
        prev + (if prev.len() > 0 {
            seq![EventView::Html(page_break())]
        } else {
            seq![]
        }) + merged_copy(template, headers, rows.last(), (rows.len() - 1) as nat)
    }
}

fn row_record_of(headers: &[String], row: &Vec<String>) -> (r: Vec<(String, String)>)
    ensures
        record_views(r@) == row_record(texts(headers@), texts(row@)),
{
    let n = if row.len() < headers.len() {
        row.len()
    } else {
        headers.len()
    };
    let mut rec: Vec<(String, String)> = Vec::new();
    let mut k: usize = 0;
    while k < n
        invariant
            n <= row@.len(),
            n <= headers@.len(),
            k <= n,
            rec@.len() == k,
            forall|j: int| 0 <= j < k ==> #[trigger] rec@[j] == (headers@[n - 1 - j], row@[n - 1 - j]),
        decreases n - k,
    {
        rec.push((headers[n - 1 - k].clone(), row[n - 1 - k].clone()));
        k = k + 1;
    }
    proof {
        assert(record_views(rec@) =~= row_record(texts(headers@), texts(row@)));
    }
    rec
}

fn namespace_of(i: usize) -> (r: String)
    ensures
        r@ == merge_namespace(i as nat),
{
    let mut v = chars_of("merge-");
    let d = decimal_of_u64(i as u64);
    append(&mut v, d.as_slice());
    string_of(v.as_slice())
}

/// Fills the template from each row, the fields named by `headers`, and
/// joins the filled documents; with no row there is nothing to merge.
pub fn merge_records(template: &[Event], headers: &[String], rows: &[Vec<String>]) -> (r: Result<Vec<Event>, String>)
    ensures
        rows@.len() == 0 ==> (r matches Err(m) && m@ == "No data records found in CSV."@),
        rows@.len() > 0 ==> (r matches Ok(es) && event_views(es@) == merged_documents(
            event_views(template@),
            texts(headers@),
            row_texts(rows@),
        )),
{
    let ghost tv = event_views(template@);
    let ghost hv = texts(headers@);
    let mut concat = AstConcatenator::new();
    let n = rows.len();
    for i in 0..n
        invariant
            n == rows@.len(),
            tv == event_views(template@),
            hv == texts(headers@),
            concat@ == merged_documents(tv, hv, row_texts(rows@).take(i as int)),
    {
        let record = row_record_of(headers, &rows[i]);
        let processed = process_ast(template, &record);
        let ns = namespace_of(i);
        concat.add_document(ns.as_str(), processed);
        proof {
            let taken = row_texts(rows@).take(i + 1);
            assert(taken.drop_last() =~= row_texts(rows@).take(i as int));
            assert(taken.last() == texts(rows@[i as int]@));
            assert(concat@ =~= merged_documents(tv, hv, taken));
        }
    }
    if n == 0 {
        return Err(String::from_str("No data records found in CSV."));
    }
    proof {
        assert(row_texts(rows@).take(n as int) =~= row_texts(rows@));
    }
    Ok(concat.build())
}

/// Mail merge of a template over CSV data whose first row names the fields:
/// the error of the CSV reader where it fails, else the merged documents.
pub fn mail_merge(template: &[Event], csv_data: &str) -> (r: Result<Vec<Event>, String>)
    ensures
        match csv_table(csv_data@) {
            Err(e) => r matches Err(m) && m@ == e,
            Ok((h, rows)) => if rows.len() == 0 {
                r matches Err(m) && m@ == "No data records found in CSV."@
            } else {
                r matches Ok(es) && event_views(es@) == merged_documents(event_views(template@), h, rows)
            },
        },
{
    match read_csv(csv_data) {
        Err(e) => Err(e),
        Ok((headers, rows)) => merge_records(template, headers.as_slice(), rows.as_slice()),
    }
}

} // verus!
