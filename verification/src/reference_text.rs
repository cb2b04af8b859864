//! The plain-text bibliography line of a CSL reference, as the DOCX writer
//! lists cited works: authors, title, container, volume, pages and year.

use vstd::prelude::*;
use crate::attributes::opt_view;
use crate::csl::{NameVariable, Reference};
use crate::text::{append, append_str, chars_of, decimal_of_i32, int_decimal, join, join_of, trim, trim_of, views};

verus! {

/// A name as written in the line: the given name, a space, the family name.
pub open spec fn name_text(a: NameVariable) -> Seq<char> {
    (match opt_view(a.given) {
        Some(g) => g + " "@,
        None => seq![],
    }) + (match opt_view(a.family) {
        Some(f) => f,
        None => seq![],
    })
}

/// The names of the authors that are not empty, trimmed, in order.
pub open spec fn author_names(authors: Seq<NameVariable>) -> Seq<Seq<char>>
    decreases authors.len(),
{
    if authors.len() == 0 {
        seq![]
    } else {
        let prev = author_names(authors.drop_last());
        let n = name_text(authors.last());
        if n.len() > 0 {
            prev.push(trim(n))
        } else {
            prev
        }
    }
}

pub open spec fn authors_part(r: Reference) -> Seq<char> {
    match r.author {
        Some(v) => {
            let names = author_names(v@);
            if names.len() > 0 {
                join(names, ", "@) + ". "@
            } else {
                seq![]
            }
        },
        None => seq![],
    }
}

pub open spec fn field_part(o: Option<String>, before: Seq<char>, after: Seq<char>) -> Seq<char> {
    match opt_view(o) {
        Some(v) => before + v + after,
        None => seq![],
    }
}

/// The year of the issued date: its first date part, when there is one.
pub open spec fn year_part(r: Reference) -> Seq<char> {
    match r.issued {
        Some(d) => if d.date_parts@.len() > 0 && d.date_parts@[0]@.len() > 0 {
            int_decimal(d.date_parts@[0]@[0] as int) + ". "@
        } else {
            seq![]
        },
        None => seq![],
    }
}

/// The bibliography line of a reference.
pub open spec fn reference_line(r: Reference) -> Seq<char> {
    trim(
        authors_part(r) + field_part(r.title, seq![], ". "@) + field_part(r.container_title, seq![], ", "@)
            + field_part(r.volume, "vol. "@, ", "@) + field_part(r.page, "pp. "@, ", "@) + year_part(r),
    )
}

fn append_field(out: &mut Vec<char>, o: &Option<String>, before: &str, after: &str)
    ensures
        final(out)@ == old(out)@ + field_part(*o, before@, after@),
{
    match o {
        Some(v) => {
            append_str(out, before);
            append_str(out, v.as_str());
            append_str(out, after);
        },
        None => {},
    }
}

/// Formats a reference as one line of plain text: the authors' names
/// joined by commas, then title, container, volume, pages and year, each
/// where the reference has it.
pub fn format_reference(r: &Reference) -> (s: String)
    ensures
        s@ == reference_line(*r),
{
    let mut out: Vec<char> = Vec::new();
    match &r.author {
        Some(authors) => {
            let mut names: Vec<Vec<char>> = Vec::new();
            let n = authors.len();
            for i in 0..n
                invariant
                    n == authors@.len(),
                    views(names@) == author_names(authors@.take(i as int)),
            {
                let a = &authors[i];
                let mut name: Vec<char> = Vec::new();
                match &a.given {
                    Some(first) => {
                        append_str(&mut name, first.as_str());
                        name.push(' ');
                    },
                    None => {},
                }
                match &a.family {
                    Some(last) => append_str(&mut name, last.as_str()),
                    None => {},
                }
                proof {
                    reveal_strlit(" ");
                    assert(name@ =~= name_text(*a));
                    assert(authors@.take(i + 1).drop_last() =~= authors@.take(i as int));
                }
                if name.len() > 0 {
                    let t = trim_of(name.as_slice());
                    names.push(t);
                    proof {
                        assert(views(names@) =~= author_names(authors@.take(i as int)).push(trim(name_text(*a))));
                    }
                }
            }
            proof {
                assert(authors@.take(n as int) =~= authors@);
            }
            if names.len() > 0 {
                let sep = chars_of(", ");
                let j = join_of(&names, sep.as_slice());
                append(&mut out, j.as_slice());
                append_str(&mut out, ". ");
            }
        },
        None => {},
    }
    assert(out@ == authors_part(*r));
    proof {
        reveal_strlit("");
    }
    append_field(&mut out, &r.title, "", ". ");
    append_field(&mut out, &r.container_title, "", ", ");
    append_field(&mut out, &r.volume, "vol. ", ", ");
    append_field(&mut out, &r.page, "pp. ", ", ");
    match &r.issued {
        Some(d) => {
            if d.date_parts.len() > 0 && d.date_parts[0].len() > 0 {
                let y = decimal_of_i32(d.date_parts[0][0]);
                append(&mut out, y.as_slice());
                append_str(&mut out, ". ");
            }
        },
        None => {},
    }
    assert(out@ =~= authors_part(*r) + field_part(r.title, seq![], ". "@) + field_part(r.container_title, seq![], ", "@)
        + field_part(r.volume, "vol. "@, ", "@) + field_part(r.page, "pp. "@, ", "@) + year_part(*r));
    let t = trim_of(out.as_slice());
    crate::text::string_of(t.as_slice())
}

} // verus!
