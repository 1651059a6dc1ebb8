//! The course result record.
use vstd::prelude::*;

verus! {

/// One course's extracted result: its code, its display name and whether an
/// official result has been entered.
#[derive(Debug, Clone)]
pub struct CourseResult {
    pub course_id: String,
    pub course_name: String,
    pub scored: bool,
}

/// The mathematical value of a [`CourseResult`].
pub struct ResultView {
    pub id: Seq<char>,
    pub name: Seq<char>,
    pub scored: bool,
}

impl View for CourseResult {
    type V = ResultView;

    open spec fn view(&self) -> ResultView {
        ResultView { id: self.course_id@, name: self.course_name@, scored: self.scored }
    }
}

/// The views of a sequence of results.
pub open spec fn results_view(v: Seq<CourseResult>) -> Seq<ResultView> {
    v.map_values(|r: CourseResult| r@)
}

impl CourseResult {
    pub fn new(course_id: String, course_name: String, scored: bool) -> (r: Self)
        ensures
            r.course_id@ == course_id@,
            r.course_name@ == course_name@,
            r.scored == scored,
    {
        CourseResult { course_id, course_name, scored }
    }

    /// A second result with the same fields.
    pub fn duplicate(&self) -> (r: Self)
        ensures
            r@ == self@,
    {
        CourseResult {
            course_id: self.course_id.clone(),
            course_name: self.course_name.clone(),
            scored: self.scored,
        }
    }

    /// Field-wise equality.
    pub fn same_as(&self, other: &CourseResult) -> (r: bool)
        ensures
            r == (self@ == other@),
    {
        self.course_id == other.course_id && self.course_name == other.course_name
            && self.scored == other.scored
    }
}

impl PartialEq for CourseResult {
    fn eq(&self, other: &CourseResult) -> (r: bool) {
        self.same_as(other)
    }
}

impl vstd::std_specs::cmp::PartialEqSpecImpl for CourseResult {
    open spec fn obeys_eq_spec() -> bool {
        true
    }

    open spec fn eq_spec(&self, other: &CourseResult) -> bool {
        self@ == other@
    }
}

impl Eq for CourseResult {}

} // verus!
