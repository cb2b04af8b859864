//! Conversion configuration: page layout, math rendering, the Word style
//! map, and the merge of YAML front-matter overrides into a base config.

use vstd::prelude::*;

verus! {

/// A copy of an optional string that is equal to it.
pub fn copy_opt(o: &Option<String>) -> (r: Option<String>)
    ensures
        r == *o,
{
    match o {
        Some(s) => Some(s.clone()),
        None => None,
    }
}

// ── Math ─────────────────────────────────────────────────────────────────────

/// Configuration for math equation rendering.
#[derive(Debug, Clone)]
pub struct MathConfig {
    /// Whether math rendering is enabled. Default: `true`.
    pub enabled: bool,
}

pub fn default_enabled() -> (b: bool)
    ensures
        b,
{
    true
}

impl Default for MathConfig {
    fn default() -> (r: Self)
        ensures
            r.enabled,
    {
        MathConfig { enabled: default_enabled() }
    }
}

impl MathConfig {
    pub fn copied(&self) -> (r: Self)
        ensures
            r == *self,
    {
        MathConfig { enabled: self.enabled }
    }
}

// ── Page ─────────────────────────────────────────────────────────────────────

/// Page layout configuration for the PDF output (A4 with 30mm/25mm margins by default).
#[derive(Debug, Clone)]
pub struct PageConfig {
    pub width: String,
    pub height: String,
    pub margin_top: String,
    pub margin_right: String,
    pub margin_bottom: String,
    pub margin_left: String,
    pub header: Option<String>,
    pub footer: Option<String>,
    pub page_numbers: bool,
    pub font_size: Option<String>,
    pub font_family: Option<String>,
    pub line_spacing: Option<String>,
}

pub fn default_width() -> (s: String)
    ensures
        s@ == "210mm"@,
{
    String::from_str("210mm")
}

pub fn default_height() -> (s: String)
    ensures
        s@ == "297mm"@,
{
    String::from_str("297mm")
}

pub fn default_margin_vertical() -> (s: String)
    ensures
        s@ == "30mm"@,
{
    String::from_str("30mm")
}

pub fn default_margin_horizontal() -> (s: String)
    ensures
        s@ == "25mm"@,
{
    String::from_str("25mm")
}

impl Default for PageConfig {
    fn default() -> (r: Self)
        ensures
            r.width@ == "210mm"@,
            r.height@ == "297mm"@,
            r.margin_top@ == "30mm"@,
            r.margin_right@ == "25mm"@,
            r.margin_bottom@ == "30mm"@,
            r.margin_left@ == "25mm"@,
            r.header is None,
            r.footer is None,
            !r.page_numbers,
            r.font_size is None,
            r.font_family is None,
            r.line_spacing is None,
    {
        PageConfig {
            width: default_width(),
            height: default_height(),
            margin_top: default_margin_vertical(),
            margin_right: default_margin_horizontal(),
            margin_bottom: default_margin_vertical(),
            margin_left: default_margin_horizontal(),
            header: None,
            footer: None,
            page_numbers: false,
            font_size: None,
            font_family: None,
            line_spacing: None,
        }
    }
}

impl PageConfig {
    pub fn copied(&self) -> (r: Self)
        ensures
            r == *self,
    {
        PageConfig {
            width: self.width.clone(),
            height: self.height.clone(),
            margin_top: self.margin_top.clone(),
            margin_right: self.margin_right.clone(),
            margin_bottom: self.margin_bottom.clone(),
            margin_left: self.margin_left.clone(),
            header: copy_opt(&self.header),
            footer: copy_opt(&self.footer),
            page_numbers: self.page_numbers,
            font_size: copy_opt(&self.font_size),
            font_family: copy_opt(&self.font_family),
            line_spacing: copy_opt(&self.line_spacing),
        }
    }
}

// ── Style map ────────────────────────────────────────────────────────────────

/// Word style names for Markdown structure in DOCX output. `heading[i]` is
/// the style of heading level `i + 1`; `None` anywhere means the default.
#[derive(Debug, Clone)]
pub struct StyleMap {
    pub heading: [Option<String>; 6],
    pub blockquote: Option<String>,
    pub code_block: Option<String>,
    pub table: Option<String>,
    pub paragraph: Option<String>,
}

pub fn default_heading_array() -> (a: [Option<String>; 6])
    ensures
        forall|i: int| 0 <= i < 6 ==> #[trigger] a@[i] is None,
{
    [None, None, None, None, None, None]
}

impl Default for StyleMap {
    fn default() -> (r: Self)
        ensures
            forall|i: int| 0 <= i < 6 ==> #[trigger] r.heading@[i] is None,
            r.blockquote is None,
            r.code_block is None,
            r.table is None,
            r.paragraph is None,
    {
        StyleMap {
            heading: default_heading_array(),
            blockquote: None,
            code_block: None,
            table: None,
            paragraph: None,
        }
    }
}

/// The conventional Word name of heading level `idx + 1`.
pub open spec fn default_heading_name(idx: int) -> Seq<char> {
    if idx == 0 {
        "Heading1"@
    } else if idx == 1 {
        "Heading2"@
    } else if idx == 2 {
        "Heading3"@
    } else if idx == 3 {
        "Heading4"@
    } else if idx == 4 {
        "Heading5"@
    } else {
        "Heading6"@
    }
}

/// The slot of heading level `level`: levels below 1 use the first slot,
/// levels above 6 the last.
pub open spec fn heading_slot(level: int) -> int {
    if level <= 1 {
        0
    } else if level >= 6 {
        5
    } else {
        level - 1
    }
}

impl StyleMap {
    pub fn copied(&self) -> (r: Self)
        ensures
            r == *self,
    {
        let heading = [
            copy_opt(&self.heading[0]),
            copy_opt(&self.heading[1]),
            copy_opt(&self.heading[2]),
            copy_opt(&self.heading[3]),
            copy_opt(&self.heading[4]),
            copy_opt(&self.heading[5]),
        ];
        proof {
            broadcast use vstd::array::axiom_array_ext_equal;
            assert(heading =~= self.heading);
        }
        StyleMap {
            heading,
            blockquote: copy_opt(&self.blockquote),
            code_block: copy_opt(&self.code_block),
            table: copy_opt(&self.table),
            paragraph: copy_opt(&self.paragraph),
        }
    }

    /// The effective heading style for `level` (1-indexed, clamped to 1..=6):
    /// the override when one is set, `"HeadingN"` otherwise.
    pub fn heading_style(&self, level: usize) -> (r: &str)
        ensures
            r@ == (match self.heading@[heading_slot(level as int)] {
                Some(s) => s@,
                None => default_heading_name(heading_slot(level as int)),
            }),
    {
        let idx: usize = if level <= 1 {
            0
        } else if level >= 6 {
            5
        } else {
            level - 1
        };
        match &self.heading[idx] {
            Some(s) => s.as_str(),
            None => {
                if idx == 0 {
                    "Heading1"
                } else if idx == 1 {
                    "Heading2"
                } else if idx == 2 {
                    "Heading3"
                } else if idx == 3 {
                    "Heading4"
                } else if idx == 4 {
                    "Heading5"
                } else {
                    "Heading6"
                }
            },
        }
    }

    /// The effective blockquote style. Default: `"Quote"`.
    pub fn blockquote_style(&self) -> (r: &str)
        ensures
            r@ == (match self.blockquote {
                Some(s) => s@,
                None => "Quote"@,
            }),
    {
        match &self.blockquote {
            Some(s) => s.as_str(),
            None => "Quote",
        }
    }

    /// The effective code block style. Default: `"CodeBlock"`.
    pub fn code_block_style(&self) -> (r: &str)
        ensures
            r@ == (match self.code_block {
                Some(s) => s@,
                None => "CodeBlock"@,
            }),
    {
        match &self.code_block {
            Some(s) => s.as_str(),
            None => "CodeBlock",
        }
    }
}

// ── Top-level config ─────────────────────────────────────────────────────────

/// Top-level configuration for a conversion; front-matter can override it.
#[derive(Debug, Clone)]
pub struct Config {
    pub title: String,
    pub author: String,
    pub date: String,
    pub abstract_text: String,
    pub page: PageConfig,
    pub math: MathConfig,
    pub dest: Option<String>,
    pub highlight_theme: String,
    pub template_path: Option<String>,
    pub pdf_standard: Option<String>,
    pub style_map: StyleMap,
    pub password: Option<String>,
    pub certificate_path: Option<String>,
    pub private_key_path: Option<String>,
}

pub fn default_highlight_theme() -> (s: String)
    ensures
        s@ == "github"@,
{
    String::from_str("github")
}

impl Default for Config {
    fn default() -> (r: Self)
        ensures
            r.title@ == Seq::<char>::empty(),
            r.author@ == Seq::<char>::empty(),
            r.date@ == Seq::<char>::empty(),
            r.abstract_text@ == Seq::<char>::empty(),
            r.math.enabled,
            r.page.width@ == "210mm"@,
            r.dest is None,
            r.highlight_theme@ == "github"@,
            r.template_path is None,
            r.pdf_standard is None,
            r.style_map.blockquote is None,
            forall|i: int| 0 <= i < 6 ==> #[trigger] r.style_map.heading@[i] is None,
            r.password is None,
            r.certificate_path is None,
            r.private_key_path is None,
    {
        Config {
            title: String::new(),
            author: String::new(),
            date: String::new(),
            abstract_text: String::new(),
            page: PageConfig::default(),
            math: MathConfig::default(),
            dest: None,
            highlight_theme: default_highlight_theme(),
            template_path: None,
            pdf_standard: None,
            style_map: StyleMap::default(),
            password: None,
            certificate_path: None,
            private_key_path: None,
        }
    }
}

/// Front-matter overrides parsed from the YAML header; every field is optional.
#[derive(Debug, Clone, Default)]
pub struct FrontMatterConfig {
    pub title: Option<String>,
    pub author: Option<String>,
    pub date: Option<String>,
    pub abstract_text: Option<String>,
    pub page: Option<PageConfig>,
    pub math: Option<MathConfig>,
    pub dest: Option<String>,
    pub highlight_theme: Option<String>,
    pub template_path: Option<String>,
    pub pdf_standard: Option<String>,
    pub style_map: Option<StyleMap>,
    pub password: Option<String>,
}

/// `o` when it is set, `base` otherwise.
pub open spec fn pick<T>(o: Option<T>, base: T) -> T {
    match o {
        Some(v) => v,
        None => base,
    }
}

/// An optional override for an optional field: set values win.
pub open spec fn pick_opt<T>(o: Option<T>, base: Option<T>) -> Option<T> {
    match o {
        Some(v) => Some(v),
        None => base,
    }
}

/// The configuration that results from applying `fm` over `c`.
pub open spec fn merged(c: Config, fm: FrontMatterConfig) -> Config {
    Config {
        title: pick(fm.title, c.title),
        author: pick(fm.author, c.author),
        date: pick(fm.date, c.date),
        abstract_text: pick(fm.abstract_text, c.abstract_text),
        page: pick(fm.page, c.page),
        math: pick(fm.math, c.math),
        dest: pick_opt(fm.dest, c.dest),
        highlight_theme: pick(fm.highlight_theme, c.highlight_theme),
        template_path: pick_opt(fm.template_path, c.template_path),
        pdf_standard: pick_opt(fm.pdf_standard, c.pdf_standard),
        style_map: pick(fm.style_map, c.style_map),
        password: pick_opt(fm.password, c.password),
        certificate_path: c.certificate_path,
        private_key_path: c.private_key_path,
    }
}

fn pick_string(o: &Option<String>, base: &String) -> (r: String)
    ensures
        r == pick(*o, *base),
{
    match o {
        Some(s) => s.clone(),
        None => base.clone(),
    }
}

fn pick_opt_string(o: &Option<String>, base: &Option<String>) -> (r: Option<String>)
    ensures
        r == pick_opt(*o, *base),
{
    match o {
        Some(s) => Some(s.clone()),
        None => copy_opt(base),
    }
}

impl Config {
    /// Merge front-matter overrides into this config, returning a new config:
    /// every field that the front-matter sets replaces the base value, all
    /// others (the signing paths always) keep it.
    pub fn merge_frontmatter(&self, fm: &FrontMatterConfig) -> (r: Self)
        ensures
            r == merged(*self, *fm),
    {
        let page = match &fm.page {
            Some(p) => p.copied(),
            None => self.page.copied(),
        };
        let math = match &fm.math {
            Some(m) => m.copied(),
            None => self.math.copied(),
        };
        let style_map = match &fm.style_map {
            Some(s) => s.copied(),
            None => self.style_map.copied(),
        };
        Config {
            title: pick_string(&fm.title, &self.title),
            author: pick_string(&fm.author, &self.author),
            date: pick_string(&fm.date, &self.date),
            abstract_text: pick_string(&fm.abstract_text, &self.abstract_text),
            page,
            math,
            dest: pick_opt_string(&fm.dest, &self.dest),
            highlight_theme: pick_string(&fm.highlight_theme, &self.highlight_theme),
            template_path: pick_opt_string(&fm.template_path, &self.template_path),
            pdf_standard: pick_opt_string(&fm.pdf_standard, &self.pdf_standard),
            style_map,
            password: pick_opt_string(&fm.password, &self.password),
            certificate_path: copy_opt(&self.certificate_path),
            private_key_path: copy_opt(&self.private_key_path),
        }
    }
}

/// A front-matter block that sets nothing leaves the configuration as it was.
pub proof fn law_merge_empty_is_identity(c: Config, fm: FrontMatterConfig)
    requires
        fm.title is None,
        fm.author is None,
        fm.date is None,
        fm.abstract_text is None,
        fm.page is None,
        fm.math is None,
        fm.dest is None,
        fm.highlight_theme is None,
        fm.template_path is None,
        fm.pdf_standard is None,
        fm.style_map is None,
        fm.password is None,
    ensures
        merged(c, fm) == c,
{
}

/// Applying the same front-matter twice gives what applying it once gives.
pub proof fn law_merge_idempotent(c: Config, fm: FrontMatterConfig)
    ensures
        merged(merged(c, fm), fm) == merged(c, fm),
{
}

/// Of two front-matter blocks applied in turn, the later one wins on every
/// field it sets.
pub proof fn law_merge_later_wins(c: Config, a: FrontMatterConfig, b: FrontMatterConfig)
    ensures
        b.title is Some ==> merged(merged(c, a), b).title == b.title->0,
        b.style_map is Some ==> merged(merged(c, a), b).style_map == b.style_map->0,
        b.title is None ==> merged(merged(c, a), b).title == merged(c, a).title,
        merged(merged(c, a), b).certificate_path == c.certificate_path,
{
}

} // verus!
