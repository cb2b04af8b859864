//! LaTeX formulas as Office Math Markup (OMML) for Word documents. A
//! formula is read left to right: `\frac` with its two groups becomes a
//! fraction whose numerator and denominator are read the same way, any other
//! command is kept as text, braces and whitespace between items are dropped,
//! and every other run of characters becomes a math text run.

use vstd::prelude::*;
use crate::text::{append, append_str, chars_of, is_whitespace, is_ws, slice_of, string_of};
use crate::unicode::{char_is_alphabetic, unicode_alphabetic};

verus! {

// ── XML text ─────────────────────────────────────────────────────────────────

/// What `quick_xml::escape::escape` writes for one character.
pub open spec fn xml_char(c: char) -> Seq<char> {
    if c == '<' {
        "&lt;"@
    } else if c == '>' {
        "&gt;"@
    } else if c == '&' {
        "&amp;"@
    } else if c == '\'' {
        "&apos;"@
    } else if c == '"' {
        "&quot;"@
    } else if c == '\r' {
        "&#13;"@
    } else {
        seq![c]
    }
}

/// The text `s` escaped for XML, character by character.
pub open spec fn xml_escaped(s: Seq<char>) -> Seq<char>
    decreases s.len(),
{
    if s.len() == 0 {
        seq![]
    } else {
        xml_escaped(s.drop_last()) + xml_char(s.last())
    }
}

/// Calls `quick_xml::escape::escape`, which is what `BytesText::new` does
/// to the text of a text event. Claims what the crate's source shows: `<`,
/// `>`, `&`, `'`, `"` and carriage return are replaced by their character
/// references, every other character is kept.
#[verifier::external_body]
fn escape_xml(s: &str) -> (r: String)
    ensures
        r@ == xml_escaped(s@),
{
    quick_xml::escape::escape(s).into_owned()
}

// ── Reading the formula ──────────────────────────────────────────────────────

/// The end of the command name that starts at `i`: the first position from
/// `i` on that holds no alphabetic character.
pub open spec fn name_end(s: Seq<char>, i: int) -> int
    decreases s.len() - i,
{
    if 0 <= i < s.len() && unicode_alphabetic(s[i]) {
        name_end(s, i + 1)
    } else {
        i
    }
}

/// The first position from `i` on that holds no whitespace.
pub open spec fn skip_ws(s: Seq<char>, i: int) -> int
    decreases s.len() - i,
{
    if 0 <= i < s.len() && is_ws(s[i]) {
        skip_ws(s, i + 1)
    } else {
        i
    }
}

pub open spec fn is_stop(c: char) -> bool {
    c == '\\' || c == '{' || c == '}' || is_ws(c)
}

/// The end of the plain text run that starts at `i`.
pub open spec fn text_end(s: Seq<char>, i: int) -> int
    decreases s.len() - i,
{
    if 0 <= i < s.len() && !is_stop(s[i]) {
        text_end(s, i + 1)
    } else {
        i
    }
}

/// The content of a brace group read from `i` on, `depth` groups being
/// open and `acc` read so far, and the position after its closing brace (or
/// the end of the text when it is not closed). Nested braces are kept.
pub open spec fn brace_scan(s: Seq<char>, i: int, depth: int, acc: Seq<char>) -> (Seq<char>, int)
    decreases s.len() - i,
{
    if 0 <= i < s.len() && depth > 0 {
        if s[i] == '{' {
            brace_scan(s, i + 1, depth + 1, acc.push('{'))
        } else if s[i] == '}' {
            if depth == 1 {
                (acc, i + 1)
            } else {
                brace_scan(s, i + 1, depth - 1, acc.push('}'))
            }
        } else {
            brace_scan(s, i + 1, depth, acc.push(s[i]))
        }
    } else {
        (acc, i)
    }
}

/// The argument of a command read from `start` on, past whitespace: a brace
/// group's content, or else a single character; and where reading goes on.
pub open spec fn extract_group(s: Seq<char>, start: int) -> (Seq<char>, int) {
    let j = skip_ws(s, start);
    if j >= s.len() || j < 0 {
        (seq![], j)
    } else if s[j] == '{' {
        brace_scan(s, j + 1, 1, seq![])
    } else {
        (seq![s[j]], j + 1)
    }
}

pub proof fn lemma_name_end(s: Seq<char>, i: int)
    requires
        0 <= i <= s.len(),
    ensures
        i <= name_end(s, i) <= s.len(),
        forall|k: int| i <= k < name_end(s, i) ==> unicode_alphabetic(#[trigger] s[k]),
        name_end(s, i) < s.len() ==> !unicode_alphabetic(s[name_end(s, i)]),
    decreases s.len() - i,
{
    if i < s.len() && unicode_alphabetic(s[i]) {
        lemma_name_end(s, i + 1);
    }
}

pub proof fn lemma_skip_ws(s: Seq<char>, i: int)
    requires
        0 <= i <= s.len(),
    ensures
        i <= skip_ws(s, i) <= s.len(),
        forall|k: int| i <= k < skip_ws(s, i) ==> is_ws(#[trigger] s[k]),
        skip_ws(s, i) < s.len() ==> !is_ws(s[skip_ws(s, i)]),
    decreases s.len() - i,
{
    if i < s.len() && is_ws(s[i]) {
        lemma_skip_ws(s, i + 1);
    }
}

pub proof fn lemma_text_end(s: Seq<char>, i: int)
    requires
        0 <= i <= s.len(),
    ensures
        i <= text_end(s, i) <= s.len(),
        forall|k: int| i <= k < text_end(s, i) ==> !is_stop(#[trigger] s[k]),
        text_end(s, i) < s.len() ==> is_stop(s[text_end(s, i)]),
    decreases s.len() - i,
{
    if i < s.len() && !is_stop(s[i]) {
        lemma_text_end(s, i + 1);
    }
}

pub proof fn lemma_brace_scan(s: Seq<char>, i: int, depth: int, acc: Seq<char>)
    requires
        0 <= i <= s.len(),
    ensures
        i <= brace_scan(s, i, depth, acc).1 <= s.len(),
        brace_scan(s, i, depth, acc).0.len() <= acc.len() + (brace_scan(s, i, depth, acc).1 - i),
    decreases s.len() - i,
{
    if i < s.len() && depth > 0 {
        if s[i] == '{' {
            lemma_brace_scan(s, i + 1, depth + 1, acc.push('{'));
        } else if s[i] == '}' {
            if depth != 1 {
                lemma_brace_scan(s, i + 1, depth - 1, acc.push('}'));
            }
        } else {
            lemma_brace_scan(s, i + 1, depth, acc.push(s[i]));
        }
    }
}

pub proof fn lemma_extract_group(s: Seq<char>, start: int)
    requires
        0 <= start <= s.len(),
    ensures
        start <= extract_group(s, start).1 <= s.len(),
        extract_group(s, start).0.len() <= extract_group(s, start).1 - start,
{
    lemma_skip_ws(s, start);
    let j = skip_ws(s, start);
    if j < s.len() && s[j] == '{' {
        lemma_brace_scan(s, j + 1, 1, seq![]);
    }
}

/// One math text run.
pub open spec fn text_run(t: Seq<char>) -> Seq<char> {
    "<m:r><m:t>"@ + xml_escaped(t) + "</m:t></m:r>"@
}

/// The OMML of the formula `s` read from position `i` on.
pub open spec fn omml_from(s: Seq<char>, i: int) -> Seq<char>
    decreases s.len(), s.len() - i,
{
    if i < 0 || i >= s.len() {
        seq![]
    } else if s[i] == '\\' {
        proof {
            lemma_name_end(s, i + 1);
        }
        let e = name_end(s, i + 1);
        let cmd = s.subrange(i + 1, e);
        if cmd == "frac"@ {
            proof {
                reveal_strlit("frac");
                lemma_extract_group(s, e);
                lemma_extract_group(s, extract_group(s, e).1);
            }
            let num = extract_group(s, e);
            let den = extract_group(s, num.1);
            "<m:f><m:num>"@ + omml_from(num.0, 0) + "</m:num><m:den>"@ + omml_from(den.0, 0)
                + "</m:den></m:f>"@ + omml_from(s, den.1)
        } else {
            text_run(seq!['\\'] + cmd) + omml_from(s, e)
        }
    } else if s[i] == '{' || s[i] == '}' || is_ws(s[i]) {
        omml_from(s, i + 1)
    } else {
        proof {
            lemma_text_end(s, i);
        }
        let e = text_end(s, i);
        text_run(s.subrange(i, e)) + omml_from(s, e)
    }
}

/// The OMML of a LaTeX formula.
pub open spec fn omml(s: Seq<char>) -> Seq<char> {
    omml_from(s, 0)
}

// ── Writing ──────────────────────────────────────────────────────────────────

fn write_text_run(out: &mut Vec<char>, t: &[char])
    ensures
        final(out)@ == old(out)@ + text_run(t@),
{
    append_str(out, "<m:r><m:t>");
    let text = string_of(t);
    let escaped = escape_xml(text.as_str());
    append_str(out, escaped.as_str());
    append_str(out, "</m:t></m:r>");
}

fn name_end_of(s: &[char], i: usize) -> (e: usize)
    requires
        i <= s@.len(),
    ensures
        e == name_end(s@, i as int),
{
    proof {
        lemma_name_end(s@, i as int);
    }
    let mut e = i;
    while e < s.len() && char_is_alphabetic(s[e])
        invariant
            i <= e <= s@.len(),
            name_end(s@, e as int) == name_end(s@, i as int),
        decreases s@.len() - e,
    {
        e = e + 1;
    }
    e
}

fn text_end_of(s: &[char], i: usize) -> (e: usize)
    requires
        i <= s@.len(),
    ensures
        e == text_end(s@, i as int),
{
    let mut e = i;
    while e < s.len() && !(s[e] == '\\' || s[e] == '{' || s[e] == '}' || is_whitespace(s[e]))
        invariant
            i <= e <= s@.len(),
            text_end(s@, e as int) == text_end(s@, i as int),
        decreases s@.len() - e,
    {
        e = e + 1;
    }
    e
}

fn extract_group_of(s: &[char], start: usize) -> (r: (Vec<char>, usize))
    requires
        start <= s@.len(),
    ensures
        (r.0@, r.1 as int) == extract_group(s@, start as int),
{
    let n = s.len();
    let mut j = start;
    while j < n && is_whitespace(s[j])
        invariant
            start <= j <= n == s@.len(),
            skip_ws(s@, j as int) == skip_ws(s@, start as int),
        decreases n - j,
    {
        j = j + 1;
    }
    if j >= n {
        return (Vec::new(), j);
    }
    if s[j] != '{' {
        let mut v: Vec<char> = Vec::new();
        v.push(s[j]);
        return (v, j + 1);
    }
    let mut depth: usize = 1;
    let mut content: Vec<char> = Vec::new();
    let mut i = j + 1;
    while i < n && depth > 0
        invariant_except_break
            j + 1 <= i <= n == s@.len(),
            depth <= i - j,
            brace_scan(s@, i as int, depth as int, content@) == extract_group(s@, start as int),
        ensures
            (content@, i as int) == extract_group(s@, start as int),
        decreases n - i,
    {
        if s[i] == '{' {
            depth = depth + 1;
        } else if s[i] == '}' {
            depth = depth - 1;
            if depth == 0 {
                i = i + 1;
                break;
            }
        }
        content.push(s[i]);
        i = i + 1;
    }
    (content, i)
}

fn write_math_run(out: &mut Vec<char>, s: &[char])
    ensures
        final(out)@ == old(out)@ + omml(s@),
    decreases s@.len(),
{
    let n = s.len();
    let ghost start = out@;
    let mut i: usize = 0;
    while i < n
        invariant
            i <= n == s@.len(),
            out@ + omml_from(s@, i as int) == start + omml(s@),
        decreases n - i,
    {
        let ghost before = out@;
        if s[i] == '\\' {
            let e = name_end_of(s, i + 1);
            proof {
                lemma_name_end(s@, i + 1);
            }
            let cmd = slice_of(s, i + 1, e);
            proof {
                reveal_strlit("frac");
            }
            if crate::text::eq_str(cmd.as_slice(), "frac") {
                let (num, a) = extract_group_of(s, e);
                proof {
                    lemma_extract_group(s@, e as int);
                    lemma_extract_group(s@, a as int);
                }
                let (den, b) = extract_group_of(s, a);
                append_str(out, "<m:f><m:num>");
                write_math_run(out, num.as_slice());
                append_str(out, "</m:num><m:den>");
                write_math_run(out, den.as_slice());
                append_str(out, "</m:den></m:f>");
                proof {
                    assert(out@ + omml_from(s@, b as int) == before + omml_from(s@, i as int));
                }
                i = b;
            } else {
                let mut t: Vec<char> = Vec::new();
                t.push('\\');
                append(&mut t, cmd.as_slice());
                write_text_run(out, t.as_slice());
                proof {
                    assert(t@ =~= seq!['\\'] + cmd@);
                    assert(out@ + omml_from(s@, e as int) == before + omml_from(s@, i as int));
                }
                i = e;
            }
        } else if s[i] == '{' || s[i] == '}' || is_whitespace(s[i]) {
            i = i + 1;
        } else {
            let e = text_end_of(s, i);
            proof {
                lemma_text_end(s@, i as int);
            }
            let t = slice_of(s, i, e);
            write_text_run(out, t.as_slice());
            proof {
                assert(out@ + omml_from(s@, e as int) == before + omml_from(s@, i as int));
            }
            i = e;
        }
    }
}

/// Writes LaTeX as the OMML of Word equations.
pub struct OmmlAstGenerator;

impl OmmlAstGenerator {
    /// The OMML of a LaTeX formula.
    pub fn translate(latex: &str) -> (r: String)
        ensures
            r@ == omml(latex@),
    {
        let s = chars_of(latex);
        let mut out: Vec<char> = Vec::new();
        write_math_run(&mut out, s.as_slice());
        assert(out@ =~= omml(latex@));
        string_of(out.as_slice())
    }
}

pub open spec fn paragraph_open() -> Seq<char> {
    "<w:p xmlns:w=\"http://schemas.openxmlformats.org/wordprocessingml/2006/main\" xmlns:m=\"http://schemas.openxmlformats.org/officeDocument/2006/math\">"@
}

/// A display formula: its OMML in a math paragraph of its own.
pub open spec fn display_block(latex: Seq<char>) -> Seq<char> {
    paragraph_open() + "<m:oMathPara>"@ + omml(latex) + "</m:oMathPara>"@ + "</w:p>"@
}

/// An inline formula: its OMML in a paragraph.
pub open spec fn inline_block(latex: Seq<char>) -> Seq<char> {
    paragraph_open() + omml(latex) + "</w:p>"@
}

fn math_id() -> (r: String)
    ensures
        crate::text::starts_with(r@, "math_"@),
        crate::cite::is_uuid_v4(r@.skip(5)),
{
    let mut v = chars_of("math_");
    let id = crate::cite::new_id();
    append_str(&mut v, id.as_str());
    let ghost p = "math_"@;
    assert(v@ == p + id@);
    assert(v@.take(p.len() as int) =~= p);
    proof {
        reveal_strlit("math_");
        assert(v@.skip(5) =~= id@);
    }
    string_of(v.as_slice())
}

/// Translates LaTeX into the OMML paragraphs of a Word document, each with
/// a fresh `math_` id.
pub struct LatexToOmmlTranslator;

impl LatexToOmmlTranslator {
    pub fn new() -> (r: Self) {
        LatexToOmmlTranslator
    }

    /// The OMML of a formula.
    pub fn build_xml(&self, latex: &str) -> (r: String)
        ensures
            r@ == omml(latex@),
    {
        OmmlAstGenerator::translate(latex)
    }

    /// A display formula as a paragraph of its own, with its id.
    pub fn render_display_math(&self, latex: &str) -> (r: (String, String))
        ensures
            crate::text::starts_with(r.0@, "math_"@),
            crate::cite::is_uuid_v4(r.0@.skip(5)),
            r.1@ == display_block(latex@),
    {
        let xml = self.build_xml(latex);
        let mut block: Vec<char> = chars_of(
            "<w:p xmlns:w=\"http://schemas.openxmlformats.org/wordprocessingml/2006/main\" xmlns:m=\"http://schemas.openxmlformats.org/officeDocument/2006/math\">",
        );
        append_str(&mut block, "<m:oMathPara>");
        append_str(&mut block, xml.as_str());
        append_str(&mut block, "</m:oMathPara>");
        append_str(&mut block, "</w:p>");
        let id = math_id();
        (id, string_of(block.as_slice()))
    }

    /// An inline formula in a paragraph, with its id.
    pub fn render_inline_math(&self, latex: &str) -> (r: (String, String))
        ensures
            crate::text::starts_with(r.0@, "math_"@),
            crate::cite::is_uuid_v4(r.0@.skip(5)),
            r.1@ == inline_block(latex@),
    {
        let xml = self.build_xml(latex);
        let id = math_id();
        let mut block: Vec<char> = chars_of(
            "<w:p xmlns:w=\"http://schemas.openxmlformats.org/wordprocessingml/2006/main\" xmlns:m=\"http://schemas.openxmlformats.org/officeDocument/2006/math\">",
        );
        append_str(&mut block, xml.as_str());
        append_str(&mut block, "</w:p>");
        (id, string_of(block.as_slice()))
    }
}

} // verus!
