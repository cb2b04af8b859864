//! The CSL citation style schema and the reference model it formats.

use vstd::prelude::*;

verus! {

// ── Reference model ──────────────────────────────────────────────────────────

/// A citation reference with CSL 1.0.2 variables.
#[derive(Debug, Clone, Default)]
pub struct Reference {
    pub id: String,
    /// The CSL type: `article-journal`, `book`, `chapter`, ...
    pub ref_type: String,
    pub title: Option<String>,
    pub container_title: Option<String>,
    pub publisher: Option<String>,
    pub publisher_place: Option<String>,
    pub page: Option<String>,
    pub volume: Option<String>,
    pub issue: Option<String>,
    pub doi: Option<String>,
    pub url: Option<String>,
    pub isbn: Option<String>,
    pub issn: Option<String>,
    pub issued: Option<DateVariable>,
    pub accessed: Option<DateVariable>,
    pub author: Option<Vec<NameVariable>>,
    pub editor: Option<Vec<NameVariable>>,
    pub translator: Option<Vec<NameVariable>>,
}

#[derive(Debug, Clone)]
pub struct DateVariable {
    /// e.g. `[[2023, 10, 5]]`
    pub date_parts: Vec<Vec<i32>>,
}

#[derive(Debug, Clone, Default)]
pub struct NameVariable {
    pub family: Option<String>,
    pub given: Option<String>,
    pub dropping_particle: Option<String>,
    pub non_dropping_particle: Option<String>,
    pub suffix: Option<String>,
    /// For institutional authors
    pub literal: Option<String>,
}

// ── Style schema ─────────────────────────────────────────────────────────────

#[derive(Debug)]
pub struct Style {
    pub class: String,
    pub version: String,
    pub info: Option<Info>,
    pub locales: Vec<Locale>,
    pub macros: Vec<Macro>,
    pub citation: Citation,
    pub bibliography: Option<Bibliography>,
}

#[derive(Debug, Clone)]
pub struct Info {
    pub title: String,
    pub id: String,
    pub updated: String,
}

#[derive(Debug, Clone)]
pub struct Locale {
    pub lang: Option<String>,
    pub terms: Option<Terms>,
    pub dates: Vec<DateDef>,
}

#[derive(Debug, Clone)]
pub struct Terms {
    pub items: Vec<Term>,
}

#[derive(Debug, Clone)]
pub struct Term {
    pub name: String,
    pub form: Option<String>,
    pub single: Option<String>,
    pub multiple: Option<String>,
    pub value: Option<String>,
}

#[derive(Debug)]
pub struct Macro {
    pub name: String,
    pub elements: Vec<RenderingElement>,
}

#[derive(Debug)]
pub struct Citation {
    pub layout: Option<Layout>,
    pub sort: Option<Sort>,
}

#[derive(Debug)]
pub struct Bibliography {
    pub layout: Option<Layout>,
    pub sort: Option<Sort>,
}

#[derive(Debug)]
pub struct Layout {
    pub prefix: Option<String>,
    pub suffix: Option<String>,
    pub delimiter: Option<String>,
    pub elements: Vec<RenderingElement>,
}

#[derive(Debug, Clone)]
pub struct Sort {
    pub keys: Vec<SortKey>,
}

#[derive(Debug, Clone)]
pub struct SortKey {
    pub variable: Option<String>,
    pub macro_name: Option<String>,
    /// `ascending` or `descending`
    pub sort: Option<String>,
}

#[derive(Debug)]
pub enum RenderingElement {
    Text(Text),
    Date(DateDef),
    Number(Number),
    Names(Names),
    Label(Label),
    Group(Group),
    Choose(Choose),
}

#[derive(Debug, Clone)]
pub struct Text {
    pub variable: Option<String>,
    pub macro_name: Option<String>,
    pub term: Option<String>,
    pub value: Option<String>,
    pub prefix: Option<String>,
    pub suffix: Option<String>,
    pub quotes: Option<bool>,
    pub font_style: Option<String>,
    pub font_weight: Option<String>,
    pub text_decoration: Option<String>,
    pub vertical_align: Option<String>,
}

#[derive(Debug, Clone)]
pub struct DateDef {
    pub variable: String,
    pub form: Option<String>,
    pub date_parts: Option<String>,
}

#[derive(Debug, Clone)]
pub struct Number {
    pub variable: String,
    pub form: Option<String>,
}

#[derive(Debug)]
pub struct Names {
    pub variable: String,
    pub name: Option<Name>,
    pub label: Option<Label>,
    pub substitute: Option<Substitute>,
}

#[derive(Debug, Clone)]
pub struct Name {
    pub form: Option<String>,
    pub name_as_sort_order: Option<String>,
    pub and: Option<String>,
    pub delimiter: Option<String>,
    pub delimiter_precedes_last: Option<String>,
    pub et_al_min: Option<usize>,
    pub et_al_use_first: Option<usize>,
}

#[derive(Debug)]
pub struct Substitute {
    pub elements: Vec<RenderingElement>,
}

#[derive(Debug, Clone)]
pub struct Label {
    pub variable: String,
    pub form: Option<String>,
    pub plural: Option<String>,
}

#[derive(Debug)]
pub struct Group {
    pub delimiter: Option<String>,
    pub elements: Vec<RenderingElement>,
}

#[derive(Debug)]
pub struct Choose {
    pub if_block: Vec<IfBlock>,
    pub else_if_block: Vec<IfBlock>,
    pub else_block: Option<ElseBlock>,
}

#[derive(Debug)]
pub struct IfBlock {
    pub type_match: Option<String>,
    pub variable_match: Option<String>,
    pub is_numeric: Option<String>,
    pub is_uncertain_date: Option<String>,
    /// `any`, `all` or `none`
    pub match_condition: Option<String>,
    pub elements: Vec<RenderingElement>,
}

#[derive(Debug)]
pub struct ElseBlock {
    pub elements: Vec<RenderingElement>,
}

} // verus!
