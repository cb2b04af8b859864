use marksmen::cite::CitationPayload;
use marksmen::csl_citation::{format_csl_bibliography, format_csl_citation};
use marksmen::csl::{
    Choose, Citation, DateDef, DateVariable, ElseBlock, Group, IfBlock, Label, Layout, Macro, Name,
    NameVariable, Names, Number, Reference, RenderingElement, Sort, SortKey, Style, Text,
};
use marksmen::csl_engine::{evaluate_element, evaluate_element_with_fuel, evaluate_layout, Context};
use marksmen::csl_sort::compare_references;
use marksmen::reference_text::format_reference;
use std::cmp::Ordering;

fn text(value: Option<&str>, variable: Option<&str>, macro_name: Option<&str>, term: Option<&str>) -> Text {
    Text {
        variable: variable.map(|s| s.to_string()),
        macro_name: macro_name.map(|s| s.to_string()),
        term: term.map(|s| s.to_string()),
        value: value.map(|s| s.to_string()),
        prefix: None,
        suffix: None,
        quotes: None,
        font_style: None,
        font_weight: None,
        text_decoration: None,
        vertical_align: None,
    }
}

fn style_with_macros(macros: Vec<Macro>) -> Style {
    Style {
        class: "in-text".to_string(),
        version: "1.0".to_string(),
        info: None,
        locales: vec![],
        macros,
        citation: Citation { layout: None, sort: None },
        bibliography: None,
    }
}

fn person(family: &str, given: &str) -> NameVariable {
    NameVariable {
        family: Some(family.to_string()),
        given: Some(given.to_string()),
        ..NameVariable::default()
    }
}

fn sample_reference() -> Reference {
    Reference {
        id: "r1".to_string(),
        ref_type: "article-journal".to_string(),
        title: Some("Deep Waters".to_string()),
        issued: Some(DateVariable { date_parts: vec![vec![2023, 5, 7]] }),
        author: Some(vec![person("Smith", "John"), person("Doe", "Jane")]),
        ..Reference::default()
    }
}

#[test]
fn text_value_with_prefix_suffix_and_quotes() {
    let style = style_with_macros(vec![]);
    let reference = sample_reference();
    let ctx = Context::new(&style, &reference);
    let mut t = text(Some("Hi"), None, None, None);
    t.prefix = Some("(".to_string());
    t.suffix = Some(")".to_string());
    t.quotes = Some(true);
    let out = evaluate_element(&RenderingElement::Text(t), &ctx);
    assert_eq!(out.as_deref(), Some("(\"Hi\")"));
}

#[test]
fn text_variables_terms_and_macros() {
    let style = style_with_macros(vec![
        Macro {
            name: "pair".to_string(),
            elements: vec![
                RenderingElement::Text(text(Some("A"), None, None, None)),
                RenderingElement::Text(text(Some("B"), None, None, None)),
            ],
        },
        Macro {
            name: "pair".to_string(),
            elements: vec![RenderingElement::Text(text(Some("later"), None, None, None))],
        },
    ]);
    let reference = sample_reference();
    let ctx = Context::new(&style, &reference);
    assert_eq!(ctx.macros.len(), 2);
    let title = RenderingElement::Text(text(None, Some("title"), None, None));
    assert_eq!(evaluate_element(&title, &ctx).as_deref(), Some("Deep Waters"));
    let unknown = RenderingElement::Text(text(None, Some("edition"), None, None));
    assert_eq!(evaluate_element(&unknown, &ctx), None);
    let term = RenderingElement::Text(text(None, None, None, Some("and")));
    assert_eq!(evaluate_element(&term, &ctx).as_deref(), Some("[term:and]"));
    // The later of two macros with one name is the one used.
    let mac = RenderingElement::Text(text(None, None, Some("pair"), None));
    assert_eq!(evaluate_element(&mac, &ctx).as_deref(), Some("later"));
    let missing = RenderingElement::Text(text(None, None, Some("none"), None));
    assert_eq!(evaluate_element(&missing, &ctx), None);
}

#[test]
fn dates_are_year_month_day() {
    let style = style_with_macros(vec![]);
    let mut reference = sample_reference();
    let date = RenderingElement::Date(DateDef { variable: "issued".to_string(), form: None, date_parts: None });
    {
        let ctx = Context::new(&style, &reference);
        assert_eq!(evaluate_element(&date, &ctx).as_deref(), Some("2023-05-07"));
    }
    reference.issued = Some(DateVariable { date_parts: vec![vec![1999, 12]] });
    {
        let ctx = Context::new(&style, &reference);
        assert_eq!(evaluate_element(&date, &ctx).as_deref(), Some("1999-12"));
    }
    let accessed = RenderingElement::Date(DateDef { variable: "accessed".to_string(), form: None, date_parts: None });
    let ctx = Context::new(&style, &reference);
    assert_eq!(evaluate_element(&accessed, &ctx), None);
}

#[test]
fn names_with_delimiters_and_and() {
    let style = style_with_macros(vec![]);
    let mut reference = sample_reference();
    let plain = RenderingElement::Names(Names { variable: "author".to_string(), name: None, label: None, substitute: None });
    {
        let ctx = Context::new(&style, &reference);
        assert_eq!(evaluate_element(&plain, &ctx).as_deref(), Some("Smith, J. Doe, J."));
    }
    let symbol = RenderingElement::Names(Names {
        variable: "author".to_string(),
        name: Some(Name {
            form: None,
            name_as_sort_order: None,
            and: Some("symbol".to_string()),
            delimiter: None,
            delimiter_precedes_last: None,
            et_al_min: None,
            et_al_use_first: None,
        }),
        label: None,
        substitute: None,
    });
    reference.author = Some(vec![
        person("Smith", "John"),
        NameVariable { literal: Some("WHO".to_string()), ..NameVariable::default() },
        NameVariable { family: Some("Plato".to_string()), ..NameVariable::default() },
    ]);
    let ctx = Context::new(&style, &reference);
    assert_eq!(evaluate_element(&symbol, &ctx).as_deref(), Some("Smith, J., WHO & Plato"));
    let editors = RenderingElement::Names(Names { variable: "editor".to_string(), name: None, label: None, substitute: None });
    assert_eq!(evaluate_element(&editors, &ctx), None);
}

#[test]
fn placeholders_groups_and_choices() {
    let style = style_with_macros(vec![]);
    let reference = sample_reference();
    let ctx = Context::new(&style, &reference);
    let number = RenderingElement::Number(Number { variable: "volume".to_string(), form: None });
    assert_eq!(evaluate_element(&number, &ctx).as_deref(), Some("[Number]"));
    let label = RenderingElement::Label(Label { variable: "page".to_string(), form: None, plural: None });
    assert_eq!(evaluate_element(&label, &ctx).as_deref(), Some("[Label]"));
    let group = RenderingElement::Group(Group {
        delimiter: Some(", ".to_string()),
        elements: vec![
            RenderingElement::Text(text(Some("a"), None, None, None)),
            RenderingElement::Text(text(None, Some("page"), None, None)),
            RenderingElement::Text(text(Some("b"), None, None, None)),
        ],
    });
    assert_eq!(evaluate_element(&group, &ctx).as_deref(), Some("a, b"));
    let empty_group = RenderingElement::Group(Group {
        delimiter: None,
        elements: vec![RenderingElement::Text(text(None, Some("page"), None, None))],
    });
    assert_eq!(evaluate_element(&empty_group, &ctx), None);
    let block = |type_match: Option<&str>, variable_match: Option<&str>, m: Option<&str>, value: &str| IfBlock {
        type_match: type_match.map(|s| s.to_string()),
        variable_match: variable_match.map(|s| s.to_string()),
        is_numeric: None,
        is_uncertain_date: None,
        match_condition: m.map(|s| s.to_string()),
        elements: vec![RenderingElement::Text(text(Some(value), None, None, None))],
    };
    let choose = RenderingElement::Choose(Choose {
        if_block: vec![block(Some("book"), None, None, "book")],
        else_if_block: vec![block(None, Some("title"), Some("none"), "untitled"), block(None, Some("title"), None, "titled")],
        else_block: Some(ElseBlock { elements: vec![RenderingElement::Text(text(Some("other"), None, None, None))] }),
    });
    assert_eq!(evaluate_element(&choose, &ctx).as_deref(), Some("titled"));
    let fallback = RenderingElement::Choose(Choose {
        if_block: vec![block(Some("book"), None, None, "book")],
        else_if_block: vec![],
        else_block: Some(ElseBlock { elements: vec![RenderingElement::Text(text(Some("other"), None, None, None))] }),
    });
    assert_eq!(evaluate_element(&fallback, &ctx).as_deref(), Some("other"));
    let nothing = RenderingElement::Choose(Choose { if_block: vec![], else_if_block: vec![], else_block: None });
    assert_eq!(evaluate_element(&nothing, &ctx), None);
}

#[test]
fn layout_joins_nonempty_outputs() {
    let style = style_with_macros(vec![]);
    let reference = sample_reference();
    let ctx = Context::new(&style, &reference);
    let layout = Layout {
        prefix: Some("(".to_string()),
        suffix: Some(")".to_string()),
        delimiter: Some("; ".to_string()),
        elements: vec![
            RenderingElement::Text(text(None, Some("title"), None, None)),
            RenderingElement::Text(text(None, Some("publisher"), None, None)),
            RenderingElement::Date(DateDef { variable: "issued".to_string(), form: None, date_parts: None }),
        ],
    };
    assert_eq!(evaluate_layout(&layout, &ctx), "(Deep Waters; 2023-05-07)");
    let bare = Layout { prefix: None, suffix: None, delimiter: None, elements: vec![] };
    assert_eq!(evaluate_layout(&bare, &ctx), "");
}

fn titled(id: &str, title: Option<&str>, year: i32) -> Reference {
    Reference {
        id: id.to_string(),
        ref_type: "book".to_string(),
        title: title.map(|s| s.to_string()),
        issued: Some(DateVariable { date_parts: vec![vec![year]] }),
        ..Reference::default()
    }
}

#[test]
fn sort_by_title_case_insensitively() {
    let by_title = Sort { keys: vec![SortKey { variable: Some("title".to_string()), macro_name: None, sort: None }] };
    let a = titled("a", Some("beta"), 2001);
    let b = titled("b", Some("Alpha"), 2000);
    assert_eq!(compare_references(&a, &b, &by_title), Ordering::Greater);
    assert_eq!(compare_references(&b, &a, &by_title), Ordering::Less);
    assert_eq!(compare_references(&a, &a, &by_title), Ordering::Equal);
    let down = Sort { keys: vec![SortKey { variable: Some("title".to_string()), macro_name: None, sort: Some("descending".to_string()) }] };
    assert_eq!(compare_references(&a, &b, &down), Ordering::Less);
}

#[test]
fn sort_missing_values_first_then_next_key() {
    let keys = Sort {
        keys: vec![
            SortKey { variable: Some("title".to_string()), macro_name: None, sort: None },
            SortKey { variable: Some("issued".to_string()), macro_name: None, sort: None },
        ],
    };
    let untitled = titled("u", None, 1990);
    let titled_ref = titled("t", Some("Zed"), 1980);
    assert_eq!(compare_references(&untitled, &titled_ref, &keys), Ordering::Less);
    let upper = titled("x", Some("SAME"), 2010);
    let lower = titled("y", Some("same"), 2009);
    assert_eq!(compare_references(&upper, &lower, &keys), Ordering::Greater);
    let by_macro = Sort { keys: vec![SortKey { variable: None, macro_name: Some("m".to_string()), sort: None }] };
    assert_eq!(compare_references(&upper, &untitled, &by_macro), Ordering::Equal);
}

fn citation(author: &str, year: &str) -> CitationPayload {
    CitationPayload {
        id: "c1".to_string(),
        author: author.to_string(),
        year: year.to_string(),
        title: "A Title".to_string(),
        publisher: "A Press".to_string(),
        item_type: "book".to_string(),
        url: "http://x".to_string(),
    }
}

#[test]
fn citation_record_becomes_csl_reference() {
    let r = marksmen::csl::Reference::from_citation(citation("Smith, John and  Doe ", "2020"));
    assert_eq!(r.id, "c1");
    assert_eq!(r.ref_type, "book");
    assert_eq!(r.title.as_deref(), Some("A Title"));
    assert_eq!(r.container_title.as_deref(), Some("A Press"));
    assert_eq!(r.url.as_deref(), Some("http://x"));
    let names = r.author.unwrap();
    assert_eq!(names.len(), 2);
    assert_eq!(names[0].family.as_deref(), Some("Smith"));
    assert_eq!(names[0].given.as_deref(), Some("John"));
    assert_eq!(names[1].family.as_deref(), Some("Doe"));
    assert_eq!(names[1].given, None);
    assert_eq!(r.issued.unwrap().date_parts, vec![vec![2020]]);
    let r2 = marksmen::csl::Reference::from_citation(citation("", "circa"));
    assert!(r2.author.is_none());
    assert!(r2.issued.is_none());
}

#[test]
fn in_text_citation_uses_builtin_layout() {
    assert_eq!(format_csl_citation(citation("Smith, John", "2020"), "apa".to_string()).unwrap(), "(, )");
}

#[test]
fn bibliography_lists_each_record() {
    let html = format_csl_bibliography(
        vec![citation("Smith, John and Doe, Jane", "2020"), citation("", "x")],
        "apa".to_string(),
    )
    .unwrap();
    let p = "<p style=\"margin:4px 0; padding-left:2em; text-indent:-2em; font-size:12px;\">";
    assert_eq!(
        html,
        format!("{p}Smith, Doe (2020). A Title. <em>A Press</em>.</p>{p}Unknown (n.d.). A Title. <em>A Press</em>.</p>")
    );
}

#[test]
fn reference_line_lists_authors_title_and_year() {
    let mut r = sample_reference();
    r.container_title = Some("Ocean Letters".to_string());
    r.volume = Some("12".to_string());
    r.page = Some("3-9".to_string());
    assert_eq!(
        format_reference(&r),
        "John Smith, Jane Doe. Deep Waters. Ocean Letters, vol. 12, pp. 3-9, 2023."
    );
}

#[test]
fn reference_line_skips_missing_parts() {
    let r = Reference {
        id: "x".to_string(),
        page: Some("7".to_string()),
        author: Some(vec![NameVariable::default(), NameVariable { family: Some("Solo".to_string()), ..NameVariable::default() }]),
        ..Reference::default()
    };
    assert_eq!(format_reference(&r), "Solo. pp. 7,");
    assert_eq!(format_reference(&Reference::default()), "");
}

#[test]
fn sort_order_is_transitive_across_keys() {
    let keys = Sort {
        keys: vec![
            SortKey { variable: Some("title".to_string()), macro_name: None, sort: None },
            SortKey { variable: Some("issued".to_string()), macro_name: None, sort: Some("descending".to_string()) },
        ],
    };
    let a = titled("a", Some("Same"), 2020);
    let b = titled("b", Some("same"), 2010);
    let c = titled("c", Some("Tail"), 1999);
    assert_eq!(compare_references(&a, &b, &keys), Ordering::Less);
    assert_eq!(compare_references(&b, &c, &keys), Ordering::Less);
    assert_eq!(compare_references(&a, &c, &keys), Ordering::Less);
}

#[test]
fn evaluation_with_a_budget_stops_on_recursive_macros() {
    let looping = style_with_macros(vec![Macro {
        name: "m".to_string(),
        elements: vec![RenderingElement::Text(text(None, None, Some("m"), None))],
    }]);
    let reference = sample_reference();
    let ctx = Context::new(&looping, &reference);
    assert_eq!(evaluate_element_with_fuel(&RenderingElement::Text(text(None, None, Some("m"), None)), &ctx, 50), None);
    let plain = style_with_macros(vec![]);
    let ctx = Context::new(&plain, &reference);
    let el = RenderingElement::Text(text(Some("Hi"), None, None, None));
    assert_eq!(evaluate_element_with_fuel(&el, &ctx, 5), Some(Some("Hi".to_string())));
    assert_eq!(evaluate_element_with_fuel(&el, &ctx, 0), None);
}
