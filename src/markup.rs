//! The library's own model of the parts of an HTML page that the extractors
//! read, and the calls into the HTML and pattern crates that produce it.
use vstd::prelude::*;

verus! {

/// A cell found inside a selected element.
#[derive(Debug, Clone)]
pub struct Cell {
    /// Its `class` attribute.
    pub class: Option<String>,
    /// Its text fragments, in document order.
    pub text: Vec<String>,
    /// The `title` attribute of the first icon inside it.
    pub title: Option<String>,
}

/// A selected table row.
#[derive(Debug, Clone)]
pub struct Row {
    /// Its `class` attribute.
    pub class: Option<String>,
    /// The cells inside it, in document order.
    pub cells: Vec<Cell>,
}

/// A selected element of a page.
#[derive(Debug, Clone)]
pub struct Element {
    /// Its `href` attribute.
    pub href: Option<String>,
    /// Its `value` attribute.
    pub value: Option<String>,
    /// Its text fragments, in document order.
    pub text: Vec<String>,
}

pub struct CellView {
    pub class: Option<Seq<char>>,
    pub text: Seq<Seq<char>>,
    pub title: Option<Seq<char>>,
}

pub struct RowView {
    pub class: Option<Seq<char>>,
    pub cells: Seq<CellView>,
}

pub struct ElementView {
    pub href: Option<Seq<char>>,
    pub value: Option<Seq<char>>,
    pub text: Seq<Seq<char>>,
}

pub open spec fn opt_view(o: Option<String>) -> Option<Seq<char>> {
    match o {
        Some(s) => Some(s@),
        None => None,
    }
}

pub open spec fn strings_view(v: Seq<String>) -> Seq<Seq<char>> {
    v.map_values(|s: String| s@)
}

impl View for Cell {
    type V = CellView;

    open spec fn view(&self) -> CellView {
        CellView { class: opt_view(self.class), text: strings_view(self.text@), title: opt_view(self.title) }
    }
}

impl View for Row {
    type V = RowView;

    open spec fn view(&self) -> RowView {
        RowView { class: opt_view(self.class), cells: self.cells@.map_values(|c: Cell| c@) }
    }
}

impl View for Element {
    type V = ElementView;

    open spec fn view(&self) -> ElementView {
        ElementView { href: opt_view(self.href), value: opt_view(self.value), text: strings_view(self.text@) }
    }
}

pub open spec fn rows_view(v: Seq<Row>) -> Seq<RowView> {
    v.map_values(|e: Row| e@)
}

pub open spec fn elements_view(v: Seq<Element>) -> Seq<ElementView> {
    v.map_values(|e: Element| e@)
}

/// Whether scraper's `Selector::parse` accepts `selector`.
pub uninterp spec fn valid_selector(selector: Seq<char>) -> bool;

/// The rows that `rows` selects in the document `markup`, with the cells that
/// `cells` selects in each and the icons that `icon` selects in those.
pub uninterp spec fn selected_rows(
    markup: Seq<char>,
    rows: Seq<char>,
    cells: Seq<char>,
    icon: Seq<char>,
) -> Seq<RowView>;

/// The elements that `selector` selects in the document `markup`.
pub uninterp spec fn selected(markup: Seq<char>, selector: Seq<char>) -> Seq<ElementView>;

/// Relies on scraper: `Selector::parse` reads each selector, `Html::parse_document`
/// parses `markup` as an HTML document, and `select` lists the elements that
/// `rows` matches, with their `class`, the `cells` matches inside each (in
/// document order), and for each cell its `class`, its text and the `title` of the first
/// `icon` match inside it.
#[verifier::external_body]
pub(crate) fn select_rows(markup: &str, rows: &str, cells: &str, icon: &str) -> (r: Option<Vec<Row>>)
    ensures
        r.is_some() == (valid_selector(rows@) && valid_selector(cells@) && valid_selector(icon@)),
        r matches Some(v) ==> rows_view(v@) == selected_rows(markup@, rows@, cells@, icon@),
{
    let rows = scraper::Selector::parse(rows).ok()?;
    let cells = scraper::Selector::parse(cells).ok()?;
    let icon = scraper::Selector::parse(icon).ok()?;
    let class = |e: scraper::ElementRef| e.attr("class").map(String::from);
    Some(scraper::Html::parse_document(markup).select(&rows).map(|e| Row {
        class: class(e),
        cells: e.select(&cells).map(|c| Cell {
            class: class(c),
            text: c.text().map(String::from).collect(),
            title: c.select(&icon).next().and_then(|i| i.attr("title")).map(String::from),
        }).collect(),
    }).collect())
}

/// Relies on scraper: `Selector::parse` reads `selector`, `Html::parse_document`
/// parses `markup` as an HTML document, and `select` lists the elements that
/// `selector` matches, with their `href`, `value` and text.
#[verifier::external_body]
pub(crate) fn select(markup: &str, selector: &str) -> (r: Option<Vec<Element>>)
    ensures
        r.is_some() == valid_selector(selector@),
        r matches Some(v) ==> elements_view(v@) == selected(markup@, selector@),
{
    let selector = scraper::Selector::parse(selector).ok()?;
    Some(scraper::Html::parse_document(markup).select(&selector).map(|e| Element {
        href: e.attr("href").map(String::from),
        value: e.attr("value").map(String::from),
        text: e.text().map(String::from).collect(),
    }).collect())
}

/// Whether regex's `Regex::new` accepts `pattern`.
pub uninterp spec fn valid_pattern(pattern: Seq<char>) -> bool;

/// The text of the leftmost-first match of `pattern` in `text`.
pub uninterp spec fn leftmost_match(pattern: Seq<char>, text: Seq<char>) -> Option<Seq<char>>;

/// `text` with every match of `pattern` removed.
pub uninterp spec fn matches_removed(pattern: Seq<char>, text: Seq<char>) -> Seq<char>;

/// Relies on regex: `Regex::new` compiles `pattern` and `Regex::find` gives the
/// leftmost-first match in `text`.
#[verifier::external_body]
pub(crate) fn first_match(pattern: &str, text: &str) -> (r: Option<Option<String>>)
    ensures
        r.is_some() == (valid_pattern(pattern@)),
        r matches Some(m) ==> opt_view(m) == leftmost_match(pattern@, text@),
{
    let re = regex::Regex::new(pattern).ok()?;
    Some(re.find(text).map(|m| m.as_str().to_string()))
}

/// Relies on regex: `Regex::new` compiles `pattern` and `Regex::replace_all`,
/// with an empty replacement, removes its matches from `text`.
#[verifier::external_body]
pub(crate) fn remove_matches(pattern: &str, text: &str) -> (r: Option<String>)
    ensures
        r.is_some() == (valid_pattern(pattern@)),
        r matches Some(s) ==> s@ == matches_removed(pattern@, text@),
{
    let re = regex::Regex::new(pattern).ok()?;
    Some(re.replace_all(text, "").into_owned())
}

} // verus!
