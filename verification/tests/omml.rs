use marksmen::omml::{LatexToOmmlTranslator, OmmlAstGenerator};

fn run(t: &str) -> String {
    format!("<m:r><m:t>{}</m:t></m:r>", t)
}

#[test]
fn fraction_becomes_numerator_over_denominator() {
    assert_eq!(
        OmmlAstGenerator::translate("\\frac{a}{b}"),
        format!("<m:f><m:num>{}</m:num><m:den>{}</m:den></m:f>", run("a"), run("b"))
    );
}

#[test]
fn nested_and_single_character_fractions() {
    let inner = format!("<m:f><m:num>{}</m:num><m:den>{}</m:den></m:f>", run("1"), run("2"));
    assert_eq!(
        OmmlAstGenerator::translate("\\frac{\\frac{1}{2}}{x+1}"),
        format!("<m:f><m:num>{}</m:num><m:den>{}</m:den></m:f>", inner, run("x+1"))
    );
    assert_eq!(OmmlAstGenerator::translate("\\frac 1 2"), inner);
}

#[test]
fn text_runs_split_at_spaces_braces_and_commands() {
    assert_eq!(OmmlAstGenerator::translate("x + y"), format!("{}{}{}", run("x"), run("+"), run("y")));
    assert_eq!(OmmlAstGenerator::translate("{a}b\\alpha<2"), format!("{}{}{}{}", run("a"), run("b"), run("\\alpha"), run("&lt;2")));
    assert_eq!(OmmlAstGenerator::translate(""), "");
}

#[test]
fn display_and_inline_math_paragraphs() {
    let t = LatexToOmmlTranslator::new();
    let open = "<w:p xmlns:w=\"http://schemas.openxmlformats.org/wordprocessingml/2006/main\" xmlns:m=\"http://schemas.openxmlformats.org/officeDocument/2006/math\">";
    let (id, block) = t.render_display_math("a");
    assert!(id.starts_with("math_") && id.len() > 5);
    assert_eq!(block, format!("{}<m:oMathPara>{}</m:oMathPara></w:p>", open, run("a")));
    let (id2, inline) = t.render_inline_math("a'");
    assert!(id2.starts_with("math_"));
    assert_ne!(id, id2);
    assert_eq!(inline, format!("{}{}</w:p>", open, run("a&apos;")));
    assert_eq!(t.build_xml("z"), run("z"));
}
