//! Writing a Markdown document as a LaTeX article: a fixed preamble, the
//! title block from the configuration, then one LaTeX construct for each
//! event of the document.

use vstd::prelude::*;
use crate::config::Config;
use crate::markup::{escape_latex, latex_escaped};
use crate::md_events::{Alignment, Event, HeadingLevel, Tag, TagEnd};
use crate::text::{append, append_str, chars_of, string_of};

verus! {

pub open spec fn preamble() -> Seq<char> {
    "\\documentclass{article}\n\\usepackage[utf8]{inputenc}\n\\usepackage{amsmath}\n\\usepackage{amsfonts}\n\\usepackage{amssymb}\n\\usepackage{graphicx}\n\\usepackage{hyperref}\n\\usepackage{booktabs}\n\\usepackage{longtable}\n\\usepackage{listings}\n\\usepackage{color}\n\\usepackage[margin=1in]{geometry}\n\\definecolor{lightgray}{gray}{0.95}\n\\lstset{\n    backgroundcolor=\\color{lightgray},\n    basicstyle=\\ttfamily\\small,\n    breaklines=true,\n    frame=single,\n}\n\n"@
}

/// The title block and abstract of the configuration.
pub open spec fn title_block(c: Config) -> Seq<char> {
    (if c.title@.len() > 0 {
        "\\title{"@ + latex_escaped(c.title@) + "}\n"@
    } else {
        seq![]
    }) + (if c.author@.len() > 0 {
        "\\author{"@ + latex_escaped(c.author@) + "}\n"@
    } else {
        seq![]
    }) + (if c.date@.len() > 0 {
        "\\date{"@ + latex_escaped(c.date@) + "}\n"@
    } else {
        seq![]
    }) + "\\begin{document}\n\n"@ + (if c.title@.len() > 0 {
        "\\maketitle\n\n"@
    } else {
        seq![]
    }) + (if c.abstract_text@.len() > 0 {
        "\\begin{abstract}\n"@ + latex_escaped(c.abstract_text@) + "\n\\end{abstract}\n\n"@
    } else {
        seq![]
    })
}

pub open spec fn sectioning(l: HeadingLevel) -> Seq<char> {
    match l {
        HeadingLevel::H1 => "\\section{"@,
        HeadingLevel::H2 => "\\subsection{"@,
        HeadingLevel::H3 => "\\subsubsection{"@,
        HeadingLevel::H4 => "\\paragraph{"@,
        HeadingLevel::H5 => "\\subparagraph{"@,
        HeadingLevel::H6 => "\\subparagraph{"@,
    }
}

pub open spec fn column_letter(a: Alignment) -> char {
    match a {
        Alignment::Center => 'c',
        Alignment::Right => 'r',
        _ => 'l',
    }
}

/// The column specification of a table.
pub open spec fn columns(aligns: Seq<Alignment>) -> Seq<char> {
    aligns.map_values(|a: Alignment| column_letter(a))
}

/// What one event writes, given whether a table is open and how many cells
/// of the current row have started: the new state and the text.
pub open spec fn latex_step(in_table: bool, cell: int, e: Event) -> (bool, int, Seq<char>) {
    match e {
        Event::Start(Tag::Paragraph) => (in_table, cell, if in_table {
            seq![]
        } else {
            "\n"@
        }),
        Event::End(TagEnd::Paragraph) => (in_table, cell, if in_table {
            seq![]
        } else {
            "\n\n"@
        }),
        Event::Start(Tag::Heading { level, .. }) => (in_table, cell, sectioning(level)),
        Event::End(TagEnd::Heading(_)) => (in_table, cell, "}\n\n"@),
        Event::Start(Tag::BlockQuote) => (in_table, cell, "\\begin{quote}\n"@),
        Event::End(TagEnd::BlockQuote) => (in_table, cell, "\\end{quote}\n\n"@),
        Event::Start(Tag::FencedCode(lang)) => (in_table, cell, if lang@.len() == 0 {
            "\\begin{lstlisting}\n"@
        } else if lang@ == "mermaid"@ {
            "\\begin{lstlisting}[language=mermaid]\n"@
        } else {
            "\\begin{lstlisting}[language="@ + lang@ + "]\n"@
        }),
        Event::Start(Tag::IndentedCode) => (in_table, cell, "\\begin{lstlisting}\n"@),
        Event::End(TagEnd::CodeBlock) => (in_table, cell, "\\end{lstlisting}\n\n"@),
        Event::Start(Tag::List(start)) => (in_table, cell, if start is Some {
            "\\begin{enumerate}\n"@
        } else {
            "\\begin{itemize}\n"@
        }),
        Event::End(TagEnd::List(ordered)) => (in_table, cell, if ordered {
            "\\end{enumerate}\n\n"@
        } else {
            "\\end{itemize}\n\n"@
        }),
        Event::Start(Tag::Item) => (in_table, cell, "\\item "@),
        Event::End(TagEnd::Item) => (in_table, cell, "\n"@),
        Event::Start(Tag::Table(aligns)) => (
            true,
            cell,
            "\\begin{longtable}{"@ + columns(aligns@) + "}\n\\toprule\n"@,
        ),
        Event::End(TagEnd::Table) => (false, cell, "\\bottomrule\n\\end{longtable}\n\n"@),
        Event::End(TagEnd::TableHead) => (in_table, cell, "\\midrule\n"@),
        Event::Start(Tag::TableRow) => (in_table, 0, seq![]),
        Event::End(TagEnd::TableRow) => (in_table, cell, " \\\\\n"@),
        Event::Start(Tag::TableCell) => (in_table, cell + 1, if cell > 0 {
            " & "@
        } else {
            seq![]
        }),
        Event::Start(Tag::Emphasis) => (in_table, cell, "\\textit{"@),
        Event::End(TagEnd::Emphasis) => (in_table, cell, "}"@),
        Event::Start(Tag::Strong) => (in_table, cell, "\\textbf{"@),
        Event::End(TagEnd::Strong) => (in_table, cell, "}"@),
        Event::Start(Tag::Strikethrough) => (in_table, cell, "\\sout{"@),
        Event::End(TagEnd::Strikethrough) => (in_table, cell, "}"@),
        Event::Start(Tag::Link { dest_url, .. }) => (in_table, cell, "\\href{"@ + dest_url@ + "}{"@),
        Event::End(TagEnd::Link) => (in_table, cell, "}"@),
        Event::Start(Tag::Image { dest_url, title }) => (
            in_table,
            cell,
            "\\begin{figure}[h]\n\\centering\n"@ + "\\includegraphics[width=\\textwidth]{"@ + dest_url@
                + "}\n"@ + if title@.len() > 0 {
                "\\caption{"@ + latex_escaped(title@) + "}\n"@
            } else {
                seq![]
            },
        ),
        Event::End(TagEnd::Image) => (in_table, cell, "\\end{figure}\n"@),
        Event::Code(t) => (in_table, cell, "\\texttt{"@ + latex_escaped(t@) + "}"@),
        Event::Text(t) => (in_table, cell, latex_escaped(t@)),
        Event::SoftBreak | Event::HardBreak => (in_table, cell, if in_table {
            " "@
        } else {
            " \\\\\n"@
        }),
        Event::InlineMath(m) => (in_table, cell, "$"@ + m@ + "$"@),
        Event::DisplayMath(m) => (in_table, cell, "\n\\[\n"@ + m@ + "\n\\]\n"@),
        Event::Rule => (in_table, cell, "\n\\newpage\n\n"@),
        Event::FootnoteReference(l) => (in_table, cell, "\\footnotemark["@ + latex_escaped(l@) + "]"@),
        _ => (in_table, cell, seq![]),
    }
}

/// The state after some events and the text they write.
pub open spec fn latex_run(es: Seq<Event>) -> (bool, int, Seq<char>)
    decreases es.len(),
{
    if es.len() == 0 {
        (false, 0, seq![])
    } else {
        let r = latex_run(es.drop_last());
        let s = latex_step(r.0, r.1, es.last());
        (s.0, s.1, r.2 + s.2)
    }
}

/// The LaTeX article of a document.
pub open spec fn latex_document(es: Seq<Event>, c: Config) -> Seq<char> {
    preamble() + title_block(c) + latex_run(es).2 + "\\end{document}\n"@
}

fn escaped_chars(s: &str) -> (r: Vec<char>)
    ensures
        r@ == latex_escaped(s@),
{
    let e = escape_latex(s);
    chars_of(e.as_str())
}

#[verifier::rlimit(60)]
#[verifier::spinoff_prover]
fn latex_step_exec(in_table: &mut bool, cell: &mut usize, out: &mut Vec<char>, e: &Event)
    requires
        *old(cell) < usize::MAX,
    ensures
        (*final(in_table), *final(cell) as int, final(out)@) == ({
            let s = latex_step(*old(in_table), *old(cell) as int, *e);
            (s.0, s.1, old(out)@ + s.2)
        }),
        *final(cell) <= *old(cell) + 1,
{
    let ghost o0 = out@;
    match e {
        Event::Start(Tag::Paragraph) => {
            if !*in_table {
                append_str(out, "\n");
            }
        },
        Event::End(TagEnd::Paragraph) => {
            if !*in_table {
                append_str(out, "\n\n");
            }
        },
        Event::Start(Tag::Heading { level, .. }) => {
            let lev: &str = match level {
                HeadingLevel::H1 => "\\section{",
                HeadingLevel::H2 => "\\subsection{",
                HeadingLevel::H3 => "\\subsubsection{",
                HeadingLevel::H4 => "\\paragraph{",
                HeadingLevel::H5 => "\\subparagraph{",
                HeadingLevel::H6 => "\\subparagraph{",
            };
            append_str(out, lev);
        },
        Event::End(TagEnd::Heading(_)) => append_str(out, "}\n\n"),
        Event::Start(Tag::BlockQuote) => append_str(out, "\\begin{quote}\n"),
        Event::End(TagEnd::BlockQuote) => append_str(out, "\\end{quote}\n\n"),
        Event::Start(Tag::FencedCode(lang)) => {
            let l = chars_of(lang.as_str());
            proof {
                reveal_strlit("mermaid");
            }
            if l.len() == 0 {
                append_str(out, "\\begin{lstlisting}\n");
            } else if crate::text::eq_str(l.as_slice(), "mermaid") {
                append_str(out, "\\begin{lstlisting}[language=mermaid]\n");
            } else {
                append_str(out, "\\begin{lstlisting}[language=");
                append(out, l.as_slice());
                append_str(out, "]\n");
            }
        },
        Event::Start(Tag::IndentedCode) => append_str(out, "\\begin{lstlisting}\n"),
        Event::End(TagEnd::CodeBlock) => append_str(out, "\\end{lstlisting}\n\n"),
        Event::Start(Tag::List(start)) => {
            if start.is_some() {
                append_str(out, "\\begin{enumerate}\n");
            } else {
                append_str(out, "\\begin{itemize}\n");
            }
        },
        Event::End(TagEnd::List(ordered)) => {
            if *ordered {
                append_str(out, "\\end{enumerate}\n\n");
            } else {
                append_str(out, "\\end{itemize}\n\n");
            }
        },
        Event::Start(Tag::Item) => append_str(out, "\\item "),
        Event::End(TagEnd::Item) => append_str(out, "\n"),
        Event::Start(Tag::Table(aligns)) => {
            *in_table = true;
            let mut spec_cols: Vec<char> = Vec::new();
            for k in 0..aligns.len()
                invariant
                    spec_cols@ == columns(aligns@.take(k as int)),
            {
                let c = match aligns[k] {
                    Alignment::Center => 'c',
                    Alignment::Right => 'r',
                    _ => 'l',
                };
                spec_cols.push(c);
                proof {
                    assert(spec_cols@ =~= columns(aligns@.take(k + 1)));
                }
            }
            proof {
                assert(aligns@.take(aligns@.len() as int) =~= aligns@);
            }
            append_str(out, "\\begin{longtable}{");
            append(out, spec_cols.as_slice());
            append_str(out, "}\n\\toprule\n");
        },
        Event::End(TagEnd::Table) => {
            append_str(out, "\\bottomrule\n\\end{longtable}\n\n");
            *in_table = false;
        },
        Event::End(TagEnd::TableHead) => append_str(out, "\\midrule\n"),
        Event::Start(Tag::TableRow) => {
            *cell = 0;
        },
        Event::End(TagEnd::TableRow) => append_str(out, " \\\\\n"),
        Event::Start(Tag::TableCell) => {
            if *cell > 0 {
                append_str(out, " & ");
            }
            *cell = *cell + 1;
        },
        Event::Start(Tag::Emphasis) => append_str(out, "\\textit{"),
        Event::End(TagEnd::Emphasis) => append_str(out, "}"),
        Event::Start(Tag::Strong) => append_str(out, "\\textbf{"),
        Event::End(TagEnd::Strong) => append_str(out, "}"),
        Event::Start(Tag::Strikethrough) => append_str(out, "\\sout{"),
        Event::End(TagEnd::Strikethrough) => append_str(out, "}"),
        Event::Start(Tag::Link { dest_url, .. }) => {
            append_str(out, "\\href{");
            append_str(out, dest_url.as_str());
            append_str(out, "}{");
        },
        Event::End(TagEnd::Link) => append_str(out, "}"),
        Event::Start(Tag::Image { dest_url, title }) => {
            append_str(out, "\\begin{figure}[h]\n\\centering\n");
            append_str(out, "\\includegraphics[width=\\textwidth]{");
            append_str(out, dest_url.as_str());
            append_str(out, "}\n");
            if chars_of(title.as_str()).len() > 0 {
                append_str(out, "\\caption{");
                let t = escaped_chars(title.as_str());
                append(out, t.as_slice());
                append_str(out, "}\n");
            }
        },
        Event::End(TagEnd::Image) => append_str(out, "\\end{figure}\n"),
        Event::Code(t) => {
            append_str(out, "\\texttt{");
            let v = escaped_chars(t.as_str());
            append(out, v.as_slice());
            append_str(out, "}");
        },
        Event::Text(t) => {
            let v = escaped_chars(t.as_str());
            append(out, v.as_slice());
        },
        Event::SoftBreak | Event::HardBreak => {
            if !*in_table {
                append_str(out, " \\\\\n");
            } else {
                append_str(out, " ");
            }
        },
        Event::InlineMath(m) => {
            append_str(out, "$");
            append_str(out, m.as_str());
            append_str(out, "$");
        },
        Event::DisplayMath(m) => {
            append_str(out, "\n\\[\n");
            append_str(out, m.as_str());
            append_str(out, "\n\\]\n");
        },
        Event::Rule => append_str(out, "\n\\newpage\n\n"),
        Event::FootnoteReference(l) => {
            append_str(out, "\\footnotemark[");
            let v = escaped_chars(l.as_str());
            append(out, v.as_slice());
            append_str(out, "]");
        },
        _ => {},
    }
    proof {
        assert(out@ =~= o0 + latex_step(*old(in_table), *old(cell) as int, *e).2);
    }
}

#[verifier::rlimit(60)]
fn latex_head(config: &Config) -> (out: Vec<char>)
    ensures
        out@ == preamble() + title_block(*config),
{
    let mut out: Vec<char> = Vec::new();
    append_str(
        &mut out,
        "\\documentclass{article}\n\\usepackage[utf8]{inputenc}\n\\usepackage{amsmath}\n\\usepackage{amsfonts}\n\\usepackage{amssymb}\n\\usepackage{graphicx}\n\\usepackage{hyperref}\n\\usepackage{booktabs}\n\\usepackage{longtable}\n\\usepackage{listings}\n\\usepackage{color}\n\\usepackage[margin=1in]{geometry}\n\\definecolor{lightgray}{gray}{0.95}\n\\lstset{\n    backgroundcolor=\\color{lightgray},\n    basicstyle=\\ttfamily\\small,\n    breaklines=true,\n    frame=single,\n}\n\n",
    );
    let has_title = chars_of(config.title.as_str()).len() > 0;
    if has_title {
        append_str(&mut out, "\\title{");
        let v = escaped_chars(config.title.as_str());
        append(&mut out, v.as_slice());
        append_str(&mut out, "}\n");
    }
    if chars_of(config.author.as_str()).len() > 0 {
        append_str(&mut out, "\\author{");
        let v = escaped_chars(config.author.as_str());
        append(&mut out, v.as_slice());
        append_str(&mut out, "}\n");
    }
    if chars_of(config.date.as_str()).len() > 0 {
        append_str(&mut out, "\\date{");
        let v = escaped_chars(config.date.as_str());
        append(&mut out, v.as_slice());
        append_str(&mut out, "}\n");
    }
    append_str(&mut out, "\\begin{document}\n\n");
    if has_title {
        append_str(&mut out, "\\maketitle\n\n");
    }
    if chars_of(config.abstract_text.as_str()).len() > 0 {
        append_str(&mut out, "\\begin{abstract}\n");
        let v = escaped_chars(config.abstract_text.as_str());
        append(&mut out, v.as_slice());
        append_str(&mut out, "\n\\end{abstract}\n\n");
    }
    proof {
        assert(out@ =~= preamble() + title_block(*config));
    }
    out
}

/// Writes a Markdown document, given as its events, as a LaTeX article.
#[verifier::rlimit(60)]
pub fn convert(events: &[Event], config: &Config) -> (r: Result<String, String>)
    requires
        events@.len() < usize::MAX,
    ensures
        r matches Ok(s) && s@ == latex_document(events@, *config),
{
    let mut out = latex_head(config);
    let ghost head = out@;
    let mut in_table = false;
    let mut cell: usize = 0;
    let n = events.len();
    for i in 0..n
        invariant
            n == events@.len() < usize::MAX,
            (in_table, cell as int, out@) == ({
                let r = latex_run(events@.take(i as int));
                (r.0, r.1, head + r.2)
            }),
            cell <= i,
    {
        latex_step_exec(&mut in_table, &mut cell, &mut out, &events[i]);
        proof {
            assert(events@.take(i + 1).drop_last() =~= events@.take(i as int));
            assert(events@.take(i + 1).last() == events@[i as int]);
            assert(out@ =~= head + latex_run(events@.take(i + 1)).2);
        }
    }
    proof {
        assert(events@.take(n as int) =~= events@);
    }
    append_str(&mut out, "\\end{document}\n");
    Ok(string_of(out.as_slice()))
}

/// Inline styles and block openings write their LaTeX markup after what
/// came before, whatever came before, and leave the table state alone:
/// emphasis opens `\textit{`, strong text `\textbf{` (so the two are set
/// differently), strike-through `\sout{`, each closed by `}`; a level 1, 2
/// or 3 heading opens `\section{`, `\subsection{` or `\subsubsection{`, a
/// quote `\begin{quote}`, a list item `\item `.
pub proof fn law_latex_inline_markup(es: Seq<Event>, id: Option<String>)
    ensures
        latex_run(es.push(Event::Start(Tag::Emphasis))) == (latex_run(es).0, latex_run(es).1, latex_run(es).2 + "\\textit{"@),
        latex_run(es.push(Event::End(TagEnd::Emphasis))) == (latex_run(es).0, latex_run(es).1, latex_run(es).2 + "}"@),
        latex_run(es.push(Event::Start(Tag::Strong))) == (latex_run(es).0, latex_run(es).1, latex_run(es).2 + "\\textbf{"@),
        latex_run(es.push(Event::End(TagEnd::Strong))) == (latex_run(es).0, latex_run(es).1, latex_run(es).2 + "}"@),
        latex_run(es.push(Event::Start(Tag::Strikethrough))) == (latex_run(es).0, latex_run(es).1, latex_run(es).2 + "\\sout{"@),
        latex_run(es.push(Event::End(TagEnd::Strikethrough))) == (latex_run(es).0, latex_run(es).1, latex_run(es).2 + "}"@),
        latex_run(es.push(Event::Start(Tag::Heading { level: HeadingLevel::H1, id }))) == (latex_run(es).0, latex_run(es).1, latex_run(es).2 + "\\section{"@),
        latex_run(es.push(Event::Start(Tag::Heading { level: HeadingLevel::H2, id }))) == (latex_run(es).0, latex_run(es).1, latex_run(es).2 + "\\subsection{"@),
        latex_run(es.push(Event::Start(Tag::Heading { level: HeadingLevel::H3, id }))) == (latex_run(es).0, latex_run(es).1, latex_run(es).2 + "\\subsubsection{"@),
        latex_run(es.push(Event::Start(Tag::BlockQuote))) == (latex_run(es).0, latex_run(es).1, latex_run(es).2 + "\\begin{quote}\n"@),
        latex_run(es.push(Event::Start(Tag::Item))) == (latex_run(es).0, latex_run(es).1, latex_run(es).2 + "\\item "@),
{
    assert(es.push(Event::Start(Tag::Emphasis)).drop_last() =~= es);
    assert(es.push(Event::End(TagEnd::Emphasis)).drop_last() =~= es);
    assert(es.push(Event::Start(Tag::Strong)).drop_last() =~= es);
    assert(es.push(Event::End(TagEnd::Strong)).drop_last() =~= es);
    assert(es.push(Event::Start(Tag::Strikethrough)).drop_last() =~= es);
    assert(es.push(Event::End(TagEnd::Strikethrough)).drop_last() =~= es);
    assert(es.push(Event::Start(Tag::Heading { level: HeadingLevel::H1, id })).drop_last() =~= es);
    assert(es.push(Event::Start(Tag::Heading { level: HeadingLevel::H2, id })).drop_last() =~= es);
    assert(es.push(Event::Start(Tag::Heading { level: HeadingLevel::H3, id })).drop_last() =~= es);
    assert(es.push(Event::Start(Tag::BlockQuote)).drop_last() =~= es);
    assert(es.push(Event::Start(Tag::Item)).drop_last() =~= es);
}

/// Lists open `enumerate` when numbered and `itemize` otherwise and close
/// the same environment; inline code is set in `\texttt{..}` and text is
/// written escaped; a link opens `\href{url}{`; inline math stays between
/// `$`; a rule starts a new page; a heading and a quote close their
/// markup. None of these changes the table state.
pub proof fn law_latex_blocks_and_inlines(es: Seq<Event>, n: u64, t: String, url: String)
    ensures
        latex_run(es.push(Event::Start(Tag::List(Some(n))))) == (latex_run(es).0, latex_run(es).1, latex_run(es).2 + "\\begin{enumerate}\n"@),
        latex_run(es.push(Event::Start(Tag::List(None)))) == (latex_run(es).0, latex_run(es).1, latex_run(es).2 + "\\begin{itemize}\n"@),
        latex_run(es.push(Event::End(TagEnd::List(true)))) == (latex_run(es).0, latex_run(es).1, latex_run(es).2 + "\\end{enumerate}\n\n"@),
        latex_run(es.push(Event::End(TagEnd::List(false)))) == (latex_run(es).0, latex_run(es).1, latex_run(es).2 + "\\end{itemize}\n\n"@),
        latex_run(es.push(Event::Code(t))) == (latex_run(es).0, latex_run(es).1, latex_run(es).2 + "\\texttt{"@ + latex_escaped(t@) + "}"@),
        latex_run(es.push(Event::Text(t))) == (latex_run(es).0, latex_run(es).1, latex_run(es).2 + latex_escaped(t@)),
        latex_run(es.push(Event::Start(Tag::Link { dest_url: url, title: t }))) == (latex_run(es).0, latex_run(es).1, latex_run(es).2 + "\\href{"@ + url@ + "}{"@),
        latex_run(es.push(Event::End(TagEnd::Link))) == (latex_run(es).0, latex_run(es).1, latex_run(es).2 + "}"@),
        latex_run(es.push(Event::InlineMath(t))) == (latex_run(es).0, latex_run(es).1, latex_run(es).2 + "$"@ + t@ + "$"@),
        latex_run(es.push(Event::Rule)) == (latex_run(es).0, latex_run(es).1, latex_run(es).2 + "\n\\newpage\n\n"@),
        latex_run(es.push(Event::End(TagEnd::Heading(HeadingLevel::H1)))) == (latex_run(es).0, latex_run(es).1, latex_run(es).2 + "}\n\n"@),
        latex_run(es.push(Event::End(TagEnd::BlockQuote))) == (latex_run(es).0, latex_run(es).1, latex_run(es).2 + "\\end{quote}\n\n"@),
{
    assert(es.push(Event::Start(Tag::List(Some(n)))).drop_last() =~= es);
    assert(es.push(Event::Start(Tag::List(None))).drop_last() =~= es);
    assert(es.push(Event::End(TagEnd::List(true))).drop_last() =~= es);
    assert(es.push(Event::End(TagEnd::List(false))).drop_last() =~= es);
    assert(es.push(Event::Code(t)).drop_last() =~= es);
    assert(es.push(Event::Text(t)).drop_last() =~= es);
    assert(es.push(Event::Start(Tag::Link { dest_url: url, title: t })).drop_last() =~= es);
    assert(es.push(Event::End(TagEnd::Link)).drop_last() =~= es);
    assert(es.push(Event::InlineMath(t)).drop_last() =~= es);
    assert(es.push(Event::Rule).drop_last() =~= es);
    assert(es.push(Event::End(TagEnd::Heading(HeadingLevel::H1))).drop_last() =~= es);
    assert(es.push(Event::End(TagEnd::BlockQuote)).drop_last() =~= es);
}

} // verus!
