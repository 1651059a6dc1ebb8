//! Extraction of course results from overview and course detail pages.
use vstd::prelude::*;
use crate::markup::{
    elements_view, first_match, leftmost_match, matches_removed, opt_view, remove_matches,
    rows_view, select, select_rows, selected, selected_rows, strings_view, valid_pattern,
    valid_selector, Element, ElementView, Row, RowView,
};
use crate::record::{results_view, CourseResult, ResultView};
use crate::text::{
    lemma_one_line_without_comment, chars_of, contains, eq_ignoring_case, equal_ignoring_case, has_infix, join_lines,
    one_line, remove_newlines, str_contains, string_of, strip_comment, trim, trimmed,
    without_comment, without_newlines,
};

verus! {

/// Why a page could not be read.
#[derive(Debug, Clone, Copy, PartialEq, Eq)]
pub enum PageError {
    /// A selector or the course-code pattern was refused.
    InvalidQuery,
    /// The detail page has no heading.
    MissingHeading,
    /// The heading of the detail page holds no course code.
    MissingCourseCode,
}

/// The pattern of a course code: letters or digits ending in four digits, with
/// an optional part number of one or two digits.
pub const COURSE_CODE: &'static str = r"[A-Z0-9]+[0-9]{4}(\.[0-9]{1,2})?";

/// The fragments of a text, joined.
pub open spec fn joined(t: Seq<Seq<char>>) -> Seq<char>
    decreases t.len(),
{
    if t.len() == 0 {
        Seq::empty()
    } else {
        joined(t.drop_last()) + t.last()
    }
}

/// The fragments of a text, each trimmed, joined.
pub open spec fn joined_trimmed(t: Seq<Seq<char>>) -> Seq<char> {
    joined(t.map_values(|f: Seq<char>| trimmed(f)))
}

/// A missing class reads as no class.
pub open spec fn class_text(c: Option<Seq<char>>) -> Seq<char> {
    match c {
        Some(s) => s,
        None => Seq::empty(),
    }
}

/// A row that heads a section, or a top-level category.
pub open spec fn is_heading_row(e: RowView) -> bool {
    has_infix(class_text(e.class), "subhead"@) || has_infix(class_text(e.class), "level00"@)
}

/// A row whose single cell names a sub-course.
pub open spec fn is_group_row(e: RowView) -> bool {
    e.cells.len() == 1 && has_infix(class_text(e.cells[0].class), "level02"@)
}

/// A row of at least six cells, each marked as a data cell.
pub open spec fn has_data_cells(e: RowView) -> bool {
    e.cells.len() >= 6 && forall|k: int|
        0 <= k < e.cells.len() ==> has_infix(class_text(#[trigger] e.cells[k].class), "tbdata"@)
}

/// A row of the overview that holds a result.
pub open spec fn is_overview_row(e: RowView) -> bool {
    !is_heading_row(e) && has_data_cells(e)
}

/// The display name read from the text of a name cell.
pub open spec fn clean_name(t: Seq<Seq<char>>) -> Seq<char> {
    without_comment(one_line(joined_trimmed(t)))
}

/// An icon title that tells of a result; "offen" (open) in any case tells of none.
pub open spec fn title_scored(title: Option<Seq<char>>) -> bool {
    match title {
        Some(t) => !equal_ignoring_case(t, "offen"@),
        None => false,
    }
}

/// The result that an overview row holds.
pub open spec fn overview_result(e: RowView) -> ResultView {
    ResultView {
        id: joined(e.cells[0].text),
        name: clean_name(e.cells[1].text),
        scored: title_scored(e.cells[e.cells.len() - 1].title),
    }
}

/// The results of the overview rows among `rows`, in order.
pub open spec fn overview_spec(rows: Seq<RowView>) -> Seq<ResultView>
    decreases rows.len(),
{
    if rows.len() == 0 {
        Seq::empty()
    } else if is_overview_row(rows.last()) {
        overview_spec(rows.drop_last()).push(overview_result(rows.last()))
    } else {
        overview_spec(rows.drop_last())
    }
}

/// Joins the fragments of `t`, trimming each first when `trim_each` holds.
fn join_text(t: &Vec<String>, trim_each: bool) -> (r: Vec<char>)
    ensures
        trim_each ==> r@ == joined_trimmed(strings_view(t@)),
        !trim_each ==> r@ == joined(strings_view(t@)),
{
    let ghost ts = if trim_each {
        strings_view(t@).map_values(|f: Seq<char>| trimmed(f))
    } else {
        strings_view(t@)
    };
    let mut r: Vec<char> = Vec::new();
    let mut i: usize = 0;
    while i < t.len()
        invariant
            i <= t@.len(),
            ts.len() == t@.len(),
            forall|k: int| 0 <= k < t@.len() ==> #[trigger] ts[k] == if trim_each {
                trimmed(t@[k]@)
            } else {
                t@[k]@
            },
            r@ == joined(ts.subrange(0, i as int)),
        decreases t@.len() - i,
    {
        let f = if trim_each {
            trim(t[i].as_str())
        } else {
            t[i].clone()
        };
        let fc = chars_of(f.as_str());
        let mut k: usize = 0;
        let ghost before = r@;
        while k < fc.len()
            invariant
                k <= fc@.len(),
                r@ == before + fc@.subrange(0, k as int),
            decreases fc@.len() - k,
        {
            r.push(fc[k]);
            k = k + 1;
            assert(r@ =~= before + fc@.subrange(0, k as int));
        }
        assert(fc@.subrange(0, fc@.len() as int) =~= fc@);
        assert(ts.subrange(0, i + 1).drop_last() =~= ts.subrange(0, i as int));
        i = i + 1;
    }
    assert(ts.subrange(0, t@.len() as int) =~= ts);
    r
}

/// Whether `class` holds `marker`.
fn class_has(class: &Option<String>, marker: &str) -> (r: bool)
    ensures
        r == has_infix(class_text(opt_view(*class)), marker@),
{
    match class {
        Some(c) => str_contains(c.as_str(), marker),
        None => {
            let empty: Vec<char> = Vec::new();
            contains(&empty, &chars_of(marker))
        },
    }
}

fn heading_row(e: &Row) -> (r: bool)
    ensures
        r == is_heading_row(e@),
{
    class_has(&e.class, "subhead") || class_has(&e.class, "level00")
}

fn data_cells(e: &Row) -> (r: bool)
    ensures
        r == has_data_cells(e@),
{
    if e.cells.len() < 6 {
        return false;
    }
    let mut k: usize = 0;
    while k < e.cells.len()
        invariant
            forall|m: int| 0 <= m < k ==> has_infix(class_text(#[trigger] e@.cells[m].class), "tbdata"@),
        decreases e.cells@.len() - k,
    {
        if !class_has(&e.cells[k].class, "tbdata") {
            assert(!has_infix(class_text(e@.cells[k as int].class), "tbdata"@));
            return false;
        }
        k = k + 1;
    }
    true
}

fn title_means_scored(title: &Option<String>) -> (r: bool)
    ensures
        r == title_scored(opt_view(*title)),
{
    match title {
        Some(t) => !eq_ignoring_case(t.as_str(), "offen"),
        None => false,
    }
}

/// The results of the overview rows among `rows`, in document order. A row
/// counts when it is no heading and has at least six cells, all data cells.
pub fn overview_results(rows: &Vec<Row>) -> (r: Vec<CourseResult>)
    ensures
        results_view(r@) == overview_spec(rows_view(rows@)),
{
    let mut r: Vec<CourseResult> = Vec::new();
    let mut i: usize = 0;
    while i < rows.len()
        invariant
            i <= rows@.len(),
            results_view(r@) == overview_spec(rows_view(rows@.subrange(0, i as int))),
        decreases rows@.len() - i,
    {
        let e = &rows[i];
        assert(rows_view(rows@.subrange(0, i + 1)).drop_last() =~= rows_view(
            rows@.subrange(0, i as int),
        ));
        assert(rows_view(rows@.subrange(0, i + 1)).last() == e@);
        if !heading_row(e) && data_cells(e) {
            let id = string_of(&join_text(&e.cells[0].text, false));
            let name = string_of(&strip_comment(&join_lines(&join_text(&e.cells[1].text, true))));
            let scored = title_means_scored(&e.cells[e.cells.len() - 1].title);
            let res = CourseResult::new(id, name, scored);
            r.push(res);
            assert(results_view(r@) =~= overview_spec(rows_view(rows@.subrange(0, i as int))).push(res@));
        }
        i = i + 1;
    }
    assert(rows@.subrange(0, rows@.len() as int) =~= rows@);
    r
}

/// The points text of a detail row tells of a result: it is not empty and
/// does not say "noch nicht" (not yet).
pub open spec fn points_scored(p: Seq<char>) -> bool {
    p.len() > 0 && !has_infix(p, "noch nicht"@)
}

/// The label of a sub-course that stands for the closing examination of the
/// whole module.
pub open spec fn module_exam_label() -> Seq<char> {
    "Modulabschlussleistungen"@
}

/// What a pass over the rows of a detail page holds: the current sub-course's
/// code and name (none before the first grouping row), and the results so far.
pub struct DetailState {
    pub sub_id: Option<Seq<char>>,
    pub sub_name: Option<Seq<char>>,
    pub results: Seq<ResultView>,
}

/// The result of a data row under the current sub-course, or under the main
/// course when there is none. A sub-course that stands for the closing
/// examination of the module carries the main course's name.
pub open spec fn detail_result(
    st: DetailState,
    e: RowView,
    main_id: Seq<char>,
    main_name: Seq<char>,
) -> ResultView {
    ResultView {
        id: match st.sub_id {
            Some(id) => id,
            None => main_id,
        },
        name: match st.sub_name {
            None => main_name,
            Some(n) => if n == module_exam_label() {
                main_name
            } else {
                n
            },
        },
        scored: points_scored(joined(e.cells[3].text)),
    }
}

/// One step of the pass: a heading row is passed over, a grouping row starts a
/// new sub-course, a data row adds a result.
pub open spec fn detail_step(
    st: DetailState,
    e: RowView,
    main_id: Seq<char>,
    main_name: Seq<char>,
) -> DetailState {
    if is_heading_row(e) {
        st
    } else if is_group_row(e) {
        let label = joined(e.cells[0].text);
        DetailState {
            sub_id: leftmost_match(COURSE_CODE@, label),
            sub_name: Some(trimmed(matches_removed(COURSE_CODE@, label))),
            results: st.results,
        }
    } else if has_data_cells(e) {
        DetailState { results: st.results.push(detail_result(st, e, main_id, main_name)), ..st }
    } else {
        st
    }
}

/// The pass over the rows of a detail page, top to bottom.
pub open spec fn detail_pass(rows: Seq<RowView>, main_id: Seq<char>, main_name: Seq<char>) -> DetailState
    decreases rows.len(),
{
    if rows.len() == 0 {
        DetailState { sub_id: None, sub_name: None, results: Seq::empty() }
    } else {
        detail_step(detail_pass(rows.drop_last(), main_id, main_name), rows.last(), main_id, main_name)
    }
}

/// The text of a detail page's heading, on one line and trimmed.
pub open spec fn heading_text(h: ElementView) -> Seq<char> {
    trimmed(without_newlines(joined(h.text)))
}

/// The results of a detail page whose headings are `heads` and whose table
/// rows are `rows`.
pub open spec fn detail_outcome_from(heads: Seq<ElementView>, rows: Seq<RowView>) -> Result<Seq<ResultView>, PageError> {
    if heads.len() == 0 {
        Err(PageError::MissingHeading)
    } else if !valid_pattern(COURSE_CODE@) {
        Err(PageError::InvalidQuery)
    } else {
        let full = heading_text(heads[0]);
        match leftmost_match(COURSE_CODE@, full) {
            None => Err(PageError::MissingCourseCode),
            Some(id) => Ok(detail_pass(rows, id, trimmed(matches_removed(COURSE_CODE@, full))).results),
        }
    }
}

pub open spec fn outcome_view(r: Result<Vec<CourseResult>, PageError>) -> Result<Seq<ResultView>, PageError> {
    match r {
        Ok(v) => Ok(results_view(v@)),
        Err(e) => Err(e),
    }
}

/// The results of the rows of a detail page, given the main course's code and
/// name.
fn detail_results(rows: &Vec<Row>, main_id: &String, main_name: &String) -> (r: Vec<CourseResult>)
    requires
        valid_pattern(COURSE_CODE@),
    ensures
        results_view(r@) == detail_pass(rows_view(rows@), main_id@, main_name@).results,
{
    let mut sub_id: Option<String> = None;
    let mut sub_name: Option<String> = None;
    let module_label = "Modulabschlussleistungen".to_owned();
    let mut r: Vec<CourseResult> = Vec::new();
    let mut i: usize = 0;
    while i < rows.len()
        invariant
            i <= rows@.len(),
            valid_pattern(COURSE_CODE@),
            module_label@ == module_exam_label(),
            ({
                let st = detail_pass(rows_view(rows@.subrange(0, i as int)), main_id@, main_name@);
                st.sub_id == opt_view(sub_id) && st.sub_name == opt_view(sub_name) && st.results == results_view(r@)
            }),
        decreases rows@.len() - i,
    {
        let e = &rows[i];
        assert(rows_view(rows@.subrange(0, i + 1)).drop_last() =~= rows_view(
            rows@.subrange(0, i as int),
        ));
        assert(rows_view(rows@.subrange(0, i + 1)).last() == e@);
        if heading_row(e) {
        } else if e.cells.len() == 1 && class_has(&e.cells[0].class, "level02") {
            let label = string_of(&join_text(&e.cells[0].text, false));
            let found = match first_match(COURSE_CODE, label.as_str()) {
                Some(m) => m,
                None => {
                    return r;
                },
            };
            let rest = match remove_matches(COURSE_CODE, label.as_str()) {
                Some(t) => t,
                None => {
                    return r;
                },
            };
            sub_id = found;
            sub_name = Some(trim(rest.as_str()));
        } else if data_cells(e) {
            let id = match &sub_id {
                Some(s) => s.clone(),
                None => main_id.clone(),
            };
            let name = match &sub_name {
                None => main_name.clone(),
                Some(n) => if *n == module_label {
                    main_name.clone()
                } else {
                    n.clone()
                },
            };
            let points = join_text(&e.cells[3].text, false);
            let none_yet = chars_of("noch nicht");
            let scored = points.len() > 0 && !contains(&points, &none_yet);
            let res = CourseResult::new(id, name, scored);
            r.push(res);
            assert(results_view(r@) =~= results_view(r@.drop_last()).push(res@));
        }
        i = i + 1;
    }
    assert(rows@.subrange(0, rows@.len() as int) =~= rows@);
    r
}

/// The results of a course detail page, from its headings and its table rows:
/// the first heading gives the main course's code (the first course code in it)
/// and name (the rest of it); each row then adds a result as the pass over the
/// rows describes.
pub fn course_results_from(heads: &Vec<Element>, rows: &Vec<Row>) -> (r: Result<Vec<CourseResult>, PageError>)
    ensures
        outcome_view(r) == detail_outcome_from(elements_view(heads@), rows_view(rows@)),
{
    if heads.len() == 0 {
        return Err(PageError::MissingHeading);
    }
    let full = trim(string_of(&remove_newlines(&join_text(&heads[0].text, false))).as_str());
    assert(full@ == heading_text(elements_view(heads@)[0]));
    let main_id = match first_match(COURSE_CODE, full.as_str()) {
        None => {
            return Err(PageError::InvalidQuery);
        },
        Some(None) => {
            return Err(PageError::MissingCourseCode);
        },
        Some(Some(id)) => id,
    };
    let main_name = match remove_matches(COURSE_CODE, full.as_str()) {
        None => {
            return Err(PageError::InvalidQuery);
        },
        Some(t) => trim(t.as_str()),
    };
    Ok(detail_results(rows, &main_id, &main_name))
}

/// The results of the course detail page `markup`.
pub open spec fn detail_outcome(markup: Seq<char>) -> Result<Seq<ResultView>, PageError> {
    if !(valid_selector("h1"@) && valid_selector("table tr"@) && valid_selector("td"@)
        && valid_selector("img"@)) {
        Err(PageError::InvalidQuery)
    } else {
        detail_outcome_from(
            selected(markup, "h1"@),
            selected_rows(markup, "table tr"@, "td"@, "img"@),
        )
    }
}

/// Reads the results of a course detail page.
pub fn parse_course_results(markup: &str) -> (r: Result<Vec<CourseResult>, PageError>)
    ensures
        outcome_view(r) == detail_outcome(markup@),
{
    let heads = match select(markup, "h1") {
        Some(v) => v,
        None => {
            return Err(PageError::InvalidQuery);
        },
    };
    let rows = match select_rows(markup, "table tr", "td", "img") {
        Some(v) => v,
        None => {
            return Err(PageError::InvalidQuery);
        },
    };
    course_results_from(&heads, &rows)
}

/// The results of the overview page `markup`.
pub open spec fn overview_outcome(markup: Seq<char>) -> Result<Seq<ResultView>, PageError> {
    if !(valid_selector("tbody tr"@) && valid_selector("td"@) && valid_selector("img"@)) {
        Err(PageError::InvalidQuery)
    } else {
        Ok(overview_spec(selected_rows(markup, "tbody tr"@, "td"@, "img"@)))
    }
}

/// Reads the results of an overview page: one flat table of courses.
pub fn parse_overview(markup: &str) -> (r: Result<Vec<CourseResult>, PageError>)
    ensures
        outcome_view(r) == overview_outcome(markup@),
{
    match select_rows(markup, "tbody tr", "td", "img") {
        Some(rows) => Ok(overview_results(&rows)),
        None => Err(PageError::InvalidQuery),
    }
}

/// Every result that an overview yields has a name on one line, and a code
/// that is not empty when the first cell of each result row holds some text.
pub proof fn lemma_overview_results_clean(rows: Seq<RowView>)
    ensures
        forall|k: int, m: int|
            0 <= k < overview_spec(rows).len() && 0 <= m < overview_spec(rows)[k].name.len()
                ==> #[trigger] overview_spec(rows)[k].name[m] != '\n',
        (forall|i: int| 0 <= i < rows.len() && is_overview_row(#[trigger] rows[i]) ==> joined(rows[i].cells[0].text).len() > 0)
            ==> forall|k: int| 0 <= k < overview_spec(rows).len() ==> #[trigger] overview_spec(rows)[k].id.len() > 0,
    decreases rows.len(),
{
    if rows.len() > 0 {
        let p = rows.drop_last();
        let prev = overview_spec(p);
        let out = overview_spec(rows);
        lemma_overview_results_clean(p);
        if (forall|i: int| 0 <= i < rows.len() && is_overview_row(#[trigger] rows[i]) ==> joined(rows[i].cells[0].text).len() > 0) {
            assert forall|i: int| 0 <= i < p.len() && is_overview_row(#[trigger] p[i]) implies joined(p[i].cells[0].text).len() > 0 by {
                assert(p[i] == rows[i]);
            }
        }
        if is_overview_row(rows.last()) {
            let x = overview_result(rows.last());
            assert(out == prev.push(x));
            lemma_one_line_without_comment(joined_trimmed(rows.last().cells[1].text));
            assert forall|k: int, m: int| 0 <= k < out.len() && 0 <= m < out[k].name.len() implies #[trigger] out[k].name[m] != '\n' by {
                if k < prev.len() {
                    assert(out[k] == prev[k]);
                } else {
                    assert(out[k] == x);
                    assert(x.name[m] == without_comment(one_line(joined_trimmed(rows.last().cells[1].text)))[m]);
                }
            }
            if (forall|i: int| 0 <= i < rows.len() && is_overview_row(#[trigger] rows[i]) ==> joined(rows[i].cells[0].text).len() > 0) {
                assert(is_overview_row(rows[rows.len() - 1]));
                assert forall|k: int| 0 <= k < out.len() implies #[trigger] out[k].id.len() > 0 by {
                    if k < prev.len() {
                        assert(out[k] == prev[k]);
                    }
                }
            }
        }
    }
}

/// Reading the same overview markup twice gives the same results, in the same
/// order: the outcome depends on the markup alone.
pub proof fn lemma_overview_deterministic(a: Seq<char>, b: Seq<char>)
    requires
        a == b,
    ensures
        overview_outcome(a) == overview_outcome(b),
{
}

/// A semester offered on the overview page: the value that selects it and its
/// label.
#[derive(Debug, Clone)]
pub struct Semester {
    pub id: String,
    pub name: String,
}

pub struct SemesterView {
    pub id: Seq<char>,
    pub name: Seq<char>,
}

impl View for Semester {
    type V = SemesterView;

    open spec fn view(&self) -> SemesterView {
        SemesterView { id: self.id@, name: self.name@ }
    }
}

/// The semester an option stands for: its value (none reads as empty) and its
/// text.
pub open spec fn semester_of(e: ElementView) -> SemesterView {
    SemesterView { id: class_text(e.value), name: joined(e.text) }
}

/// The semesters that `options` stand for, in order.
pub fn semesters_from(options: &Vec<Element>) -> (r: Vec<Semester>)
    ensures
        r@.len() == options@.len(),
        forall|k: int| 0 <= k < r@.len() ==> #[trigger] r@[k]@ == semester_of(options@[k]@),
{
    let mut r: Vec<Semester> = Vec::new();
    let mut i: usize = 0;
    while i < options.len()
        invariant
            i <= options@.len(),
            r@.len() == i,
            forall|k: int| 0 <= k < i ==> #[trigger] r@[k]@ == semester_of(options@[k]@),
        decreases options@.len() - i,
    {
        let e = &options[i];
        let id = match &e.value {
            Some(v) => v.clone(),
            None => String::new(),
        };
        let name = string_of(&join_text(&e.text, false));
        r.push(Semester { id, name });
        i = i + 1;
    }
    r
}

/// The semesters that the semester choice of the overview page `markup` offers.
pub fn parse_semesters(markup: &str) -> (r: Result<Vec<Semester>, PageError>)
    ensures
        !valid_selector("select#semester option"@) <==> r is Err,
        r matches Ok(v) ==> ({
            let opts = selected(markup@, "select#semester option"@);
            v@.len() == opts.len() && forall|k: int| 0 <= k < v@.len() ==> #[trigger] v@[k]@ == semester_of(opts[k])
        }),
{
    match select(markup, "select#semester option") {
        Some(options) => Ok(semesters_from(&options)),
        None => Err(PageError::InvalidQuery),
    }
}

/// The link targets among `anchors`, in order; an anchor without one is passed over.
pub open spec fn links_spec(anchors: Seq<ElementView>) -> Seq<Seq<char>>
    decreases anchors.len(),
{
    if anchors.len() == 0 {
        Seq::empty()
    } else {
        match anchors.last().href {
            Some(h) => links_spec(anchors.drop_last()).push(h),
            None => links_spec(anchors.drop_last()),
        }
    }
}

/// The link targets of `anchors`, in order.
pub fn course_links_from(anchors: &Vec<Element>) -> (r: Vec<String>)
    ensures
        strings_view(r@) == links_spec(elements_view(anchors@)),
{
    let mut r: Vec<String> = Vec::new();
    let mut i: usize = 0;
    while i < anchors.len()
        invariant
            i <= anchors@.len(),
            strings_view(r@) == links_spec(elements_view(anchors@.subrange(0, i as int))),
        decreases anchors@.len() - i,
    {
        assert(elements_view(anchors@.subrange(0, i + 1)).drop_last() =~= elements_view(
            anchors@.subrange(0, i as int),
        ));
        assert(elements_view(anchors@.subrange(0, i + 1)).last() == anchors@[i as int]@);
        match &anchors[i].href {
            Some(h) => {
                r.push(h.clone());
                assert(strings_view(r@) =~= strings_view(r@.drop_last()).push(h@));
            },
            None => {},
        }
        i = i + 1;
    }
    assert(anchors@.subrange(0, anchors@.len() as int) =~= anchors@);
    r
}

/// The links to the course detail pages that a semester's result page `markup`
/// holds: those of the anchors inside its data cells.
pub fn parse_semester_details(markup: &str) -> (r: Result<Vec<String>, PageError>)
    ensures
        !valid_selector("td.tbdata a"@) <==> r is Err,
        r matches Ok(v) ==> strings_view(v@) == links_spec(selected(markup@, "td.tbdata a"@)),
{
    match select(markup, "td.tbdata a") {
        Some(anchors) => Ok(course_links_from(&anchors)),
        None => Err(PageError::InvalidQuery),
    }
}

} // verus!
