//! Text handling on character sequences: search, line breaks, comment spans
//! and case-insensitive comparison.
use vstd::prelude::*;

verus! {

/// The characters with the Unicode White_Space property, which `char::is_whitespace`
/// tells apart.
pub open spec fn is_white_space(c: char) -> bool {
    ('\u{9}' <= c <= '\u{d}') || c == ' ' || c == '\u{85}' || c == '\u{a0}' || c == '\u{1680}'
        || ('\u{2000}' <= c <= '\u{200a}') || c == '\u{2028}' || c == '\u{2029}' || c == '\u{202f}'
        || c == '\u{205f}' || c == '\u{3000}'
}

/// `s` without its leading white space.
pub open spec fn trim_start(s: Seq<char>) -> Seq<char>
    decreases s.len(),
{
    if s.len() > 0 && is_white_space(s[0]) {
        trim_start(s.drop_first())
    } else {
        s
    }
}

/// `s` without its trailing white space.
pub open spec fn trim_end(s: Seq<char>) -> Seq<char>
    decreases s.len(),
{
    if s.len() > 0 && is_white_space(s.last()) {
        trim_end(s.drop_last())
    } else {
        s
    }
}

/// `s` without its leading and trailing white space.
pub open spec fn trimmed(s: Seq<char>) -> Seq<char> {
    trim_end(trim_start(s))
}

/// Relies on `str::chars`: the characters of `s`, in order.
#[verifier::external_body]
pub(crate) fn chars_of(s: &str) -> (r: Vec<char>)
    ensures
        r@ == s@,
{
    s.chars().collect()
}

/// Relies on collecting characters into a `String`: the string of `v`, in order.
#[verifier::external_body]
pub(crate) fn string_of(v: &Vec<char>) -> (r: String)
    ensures
        r@ == v@,
{
    v.iter().collect()
}

/// Relies on `str::trim`: leading and trailing white space (as `char::is_whitespace`
/// tells it) removed.
#[verifier::external_body]
pub(crate) fn trim(s: &str) -> (r: String)
    ensures
        r@ == trimmed(s@),
{
    s.trim().to_string()
}

/// `p` occurs in `s` starting at position `i`.
pub open spec fn occurs_at(s: Seq<char>, p: Seq<char>, i: int) -> bool {
    0 <= i && i + p.len() <= s.len() && s.subrange(i, i + p.len()) == p
}

/// `p` occurs somewhere in `s`.
pub open spec fn has_infix(s: Seq<char>, p: Seq<char>) -> bool {
    exists|i: int| occurs_at(s, p, i)
}

/// Whether `p` occurs in `s` at `i`.
pub fn matches_at(s: &Vec<char>, p: &Vec<char>, i: usize) -> (r: bool)
    ensures
        r == occurs_at(s@, p@, i as int),
{
    if i > s.len() || p.len() > s.len() - i {
        return false;
    }
    let n = s.len();
    let mut k: usize = 0;
    while k < p.len()
        invariant
            n == s@.len(),
            i + p@.len() <= s@.len(),
            k <= p@.len(),
            forall|m: int| 0 <= m < k ==> s@[i + m] == p@[m],
        decreases p@.len() - k,
    {
        assert(i + k < s@.len());
        if s[i + k] != p[k] {
            assert(s@.subrange(i as int, i + p@.len())[k as int] != p@[k as int]);
            return false;
        }
        k = k + 1;
    }
    assert(s@.subrange(i as int, i + p@.len()) =~= p@);
    true
}

/// Whether `p` occurs anywhere in `s`.
pub fn contains(s: &Vec<char>, p: &Vec<char>) -> (r: bool)
    ensures
        r == has_infix(s@, p@),
{
    let mut i: usize = 0;
    while i < s.len()
        invariant
            i <= s@.len(),
            forall|k: int| 0 <= k < i ==> !occurs_at(s@, p@, k),
        decreases s@.len() - i,
    {
        if matches_at(s, p, i) {
            return true;
        }
        i = i + 1;
    }
    if matches_at(s, p, i) {
        return true;
    }
    assert forall|k: int| !occurs_at(s@, p@, k) by {
        if 0 <= k < i {
        }
    }
    false
}

/// Whether the text of `s` contains the text of `p`.
pub fn str_contains(s: &str, p: &str) -> (r: bool)
    ensures
        r == has_infix(s@, p@),
{
    contains(&chars_of(s), &chars_of(p))
}

/// Appends the characters of `more` to `out`.
pub fn push_all(out: &mut Vec<char>, more: &Vec<char>)
    ensures
        final(out)@ == old(out)@ + more@,
{
    let mut k: usize = 0;
    while k < more.len()
        invariant
            k <= more@.len(),
            out@ == old(out)@ + more@.subrange(0, k as int),
        decreases more@.len() - k,
    {
        out.push(more[k]);
        k = k + 1;
        assert(out@ =~= old(out)@ + more@.subrange(0, k as int));
    }
    assert(more@.subrange(0, more@.len() as int) =~= more@);
}

/// `s` with every line feed removed.
pub open spec fn without_newlines(s: Seq<char>) -> Seq<char>
    decreases s.len(),
{
    if s.len() == 0 {
        s
    } else if s.last() == '\n' {
        without_newlines(s.drop_last())
    } else {
        without_newlines(s.drop_last()).push(s.last())
    }
}

/// Removes every line feed from `s`.
pub fn remove_newlines(s: &Vec<char>) -> (r: Vec<char>)
    ensures
        r@ == without_newlines(s@),
{
    let mut r: Vec<char> = Vec::new();
    let mut i: usize = 0;
    while i < s.len()
        invariant
            i <= s@.len(),
            r@ == without_newlines(s@.subrange(0, i as int)),
        decreases s@.len() - i,
    {
        assert(s@.subrange(0, i + 1).drop_last() =~= s@.subrange(0, i as int));
        if s[i] != '\n' {
            r.push(s[i]);
        }
        i = i + 1;
    }
    assert(s@.subrange(0, s@.len() as int) =~= s@);
    r
}

/// `s` with every line feed turned into a space, so that it reads as one line.
pub open spec fn one_line(s: Seq<char>) -> Seq<char> {
    s.map_values(|c: char| if c == '\n' { ' ' } else { c })
}

/// Turns every line feed of `s` into a space.
pub fn join_lines(s: &Vec<char>) -> (r: Vec<char>)
    ensures
        r@ == one_line(s@),
{
    let mut r: Vec<char> = Vec::new();
    let mut i: usize = 0;
    while i < s.len()
        invariant
            i <= s@.len(),
            r@ == one_line(s@.subrange(0, i as int)),
        decreases s@.len() - i,
    {
        if s[i] == '\n' {
            r.push(' ');
        } else {
            r.push(s[i]);
        }
        i = i + 1;
        assert(r@ =~= one_line(s@.subrange(0, i as int)));
    }
    assert(s@.subrange(0, s@.len() as int) =~= s@);
    r
}

/// The opening delimiter of a markup comment.
pub open spec fn comment_open() -> Seq<char> {
    seq!['<', '!', '-', '-']
}

/// The closing delimiter of a markup comment.
pub open spec fn comment_close() -> Seq<char> {
    seq!['-', '-', '>']
}

/// `i` is the first position at which `p` occurs in `s`.
pub open spec fn first_at(s: Seq<char>, p: Seq<char>, i: int) -> bool {
    occurs_at(s, p, i) && forall|k: int| 0 <= k < i ==> !occurs_at(s, p, k)
}

/// `j` is the last position at which `p` occurs in `s`.
pub open spec fn last_at(s: Seq<char>, p: Seq<char>, j: int) -> bool {
    occurs_at(s, p, j) && forall|k: int| j < k ==> !occurs_at(s, p, k)
}

/// The comment span of `s`: from the first opening delimiter to the end of
/// the last closing delimiter that starts after it.
pub open spec fn comment_span(s: Seq<char>, i: int, j: int) -> bool {
    first_at(s, comment_open(), i) && last_at(s, comment_close(), j) && i + 4 <= j
}

/// `s` with its comment span cut out; `s` itself when it has none.
pub open spec fn without_comment(s: Seq<char>) -> Seq<char> {
    if exists|p: (int, int)| comment_span(s, p.0, p.1) {
        let (i, j) = choose|p: (int, int)| comment_span(s, p.0, p.1);
        s.subrange(0, i) + s.subrange(j + 3, s.len() as int)
    } else {
        s
    }
}

proof fn lemma_comment_span_unique(s: Seq<char>, i1: int, j1: int, i2: int, j2: int)
    requires
        comment_span(s, i1, j1),
        comment_span(s, i2, j2),
    ensures
        i1 == i2 && j1 == j2,
{
    if i1 < i2 {
        assert(!occurs_at(s, comment_open(), i1));
    }
    if i2 < i1 {
        assert(!occurs_at(s, comment_open(), i2));
    }
    if j1 < j2 {
        assert(!occurs_at(s, comment_close(), j2));
    }
    if j2 < j1 {
        assert(!occurs_at(s, comment_close(), j1));
    }
}

/// The first position at which `p` occurs in `s`, if any.
pub fn find_first(s: &Vec<char>, p: &Vec<char>) -> (r: Option<usize>)
    ensures
        r matches Some(i) ==> first_at(s@, p@, i as int),
        r is None ==> forall|k: int| !occurs_at(s@, p@, k),
{
    let mut i: usize = 0;
    while i < s.len()
        invariant
            i <= s@.len(),
            forall|k: int| 0 <= k < i ==> !occurs_at(s@, p@, k),
        decreases s@.len() - i,
    {
        if matches_at(s, p, i) {
            return Some(i);
        }
        i = i + 1;
    }
    if matches_at(s, p, i) {
        return Some(i);
    }
    assert forall|k: int| !occurs_at(s@, p@, k) by {
        if 0 <= k < i {
        }
    }
    None
}

/// The last position, not before `from`, at which `p` occurs in `s`, if any.
pub fn find_last_from(s: &Vec<char>, p: &Vec<char>, from: usize) -> (r: Option<usize>)
    ensures
        r matches Some(j) ==> from <= j && last_at(s@, p@, j as int),
        r is None ==> forall|k: int| from <= k ==> !occurs_at(s@, p@, k),
{
    let mut j: usize = s.len();
    if from <= j && matches_at(s, p, j) {
        return Some(j);
    }
    while j > from
        invariant
            j <= s@.len(),
            forall|k: int| j <= k && from <= k ==> !occurs_at(s@, p@, k),
        decreases j,
    {
        j = j - 1;
        if matches_at(s, p, j) {
            return Some(j);
        }
    }
    None
}

/// Cuts the comment span out of `s`: all between the first `<!--` and the last
/// `-->` after it, delimiters included.
pub fn strip_comment(s: &Vec<char>) -> (r: Vec<char>)
    ensures
        r@ == without_comment(s@),
{
    let open = chars_of("<!--");
    let close = chars_of("-->");
    proof {
        reveal_strlit("<!--");
        reveal_strlit("-->");
        assert(open@ =~= comment_open());
        assert(close@ =~= comment_close());
    }
    let n = s.len();
    let i = match find_first(s, &open) {
        Some(i) => i,
        None => {
            return s.clone();
        },
    };
    let j = match find_last_from(s, &close, i + 4) {
        Some(j) => j,
        None => {
            assert forall|p: (int, int)| !comment_span(s@, p.0, p.1) by {
                let (a, b) = p;
                if comment_span(s@, a, b) {
                    if a < i {
                    } else if i < a {
                        assert(!occurs_at(s@, comment_open(), i as int));
                    }
                }
            }
            return s.clone();
        },
    };
    proof {
        let w = (i as int, j as int);
        assert(comment_span(s@, w.0, w.1));
        let p = choose|p: (int, int)| comment_span(s@, p.0, p.1);
        lemma_comment_span_unique(s@, i as int, j as int, p.0, p.1);
    }
    let mut r: Vec<char> = Vec::new();
    let mut k: usize = 0;
    while k < i
        invariant
            i <= s@.len(),
            k <= i,
            r@ == s@.subrange(0, k as int),
        decreases i - k,
    {
        r.push(s[k]);
        k = k + 1;
        assert(r@ =~= s@.subrange(0, k as int));
    }
    let mut k: usize = j + 3;
    while k < s.len()
        invariant
            i <= j,
            j + 3 <= k <= s@.len(),
            r@ == s@.subrange(0, i as int) + s@.subrange(j + 3, k as int),
        decreases s@.len() - k,
    {
        r.push(s[k]);
        k = k + 1;
        assert(r@ =~= s@.subrange(0, i as int) + s@.subrange(j + 3, k as int));
    }
    r
}

/// Text on one line stays on one line when its comment span is cut out.
pub proof fn lemma_one_line_without_comment(s: Seq<char>)
    ensures
        forall|m: int| 0 <= m < without_comment(one_line(s)).len() ==> #[trigger] without_comment(one_line(s))[m] != '\n',
{
    let t = one_line(s);
    assert forall|m: int| 0 <= m < t.len() implies #[trigger] t[m] != '\n' by {}
    if exists|p: (int, int)| comment_span(t, p.0, p.1) {
        let (i, j) = choose|p: (int, int)| comment_span(t, p.0, p.1);
        let r = t.subrange(0, i) + t.subrange(j + 3, t.len() as int);
        assert forall|m: int| 0 <= m < r.len() implies #[trigger] r[m] != '\n' by {
            if m < i {
                assert(r[m] == t[m]);
            } else {
                assert(r[m] == t[m - i + j + 3]);
            }
        }
    }
}

/// Cutting out a comment span keeps the text before the span, which holds no
/// `<!--`, and the text after it, which holds no `-->`.
pub proof fn lemma_comment_cut_sides(s: Seq<char>, i: int, j: int)
    requires
        comment_span(s, i, j),
    ensures
        without_comment(s) == s.subrange(0, i) + s.subrange(j + 3, s.len() as int),
        !has_infix(s.subrange(0, i), comment_open()),
        !has_infix(s.subrange(j + 3, s.len() as int), comment_close()),
{
    let w = (i, j);
    assert(comment_span(s, w.0, w.1));
    let p = choose|p: (int, int)| comment_span(s, p.0, p.1);
    lemma_comment_span_unique(s, i, j, p.0, p.1);
    let before = s.subrange(0, i);
    let after = s.subrange(j + 3, s.len() as int);
    assert forall|k: int| !occurs_at(before, comment_open(), k) by {
        if occurs_at(before, comment_open(), k) {
            assert(s.subrange(k, k + 4) =~= before.subrange(k, k + 4));
            assert(occurs_at(s, comment_open(), k));
        }
    }
    assert forall|k: int| !occurs_at(after, comment_close(), k) by {
        if occurs_at(after, comment_close(), k) {
            assert(s.subrange(j + 3 + k, j + 3 + k + 3) =~= after.subrange(k, k + 3));
            assert(occurs_at(s, comment_close(), j + 3 + k));
        }
    }
}

/// `a` and `b` are the same character up to ASCII case.
pub open spec fn same_ignoring_case(a: char, b: char) -> bool {
    a == b || ('A' <= a <= 'Z' && (a as u32) + 32 == b as u32) || ('A' <= b <= 'Z' && (b as u32)
        + 32 == a as u32)
}

/// `s` and `t` are equal up to ASCII case.
pub open spec fn equal_ignoring_case(s: Seq<char>, t: Seq<char>) -> bool {
    s.len() == t.len() && forall|k: int| 0 <= k < s.len() ==> same_ignoring_case(s[k], t[k])
}

/// Whether `s` and `t` are equal up to ASCII case.
pub fn eq_ignoring_case(s: &str, t: &str) -> (r: bool)
    ensures
        r == equal_ignoring_case(s@, t@),
{
    let a = chars_of(s);
    let b = chars_of(t);
    if a.len() != b.len() {
        return false;
    }
    let mut k: usize = 0;
    while k < a.len()
        invariant
            a@ == s@,
            b@ == t@,
            a@.len() == b@.len(),
            forall|m: int| 0 <= m < k ==> same_ignoring_case(a@[m], b@[m]),
        decreases a@.len() - k,
    {
        let x = a[k];
        let y = b[k];
        let same = x == y || ('A' <= x && x <= 'Z' && (x as u32) + 32 == y as u32) || ('A' <= y
            && y <= 'Z' && (y as u32) + 32 == x as u32);
        if !same {
            return false;
        }
        k = k + 1;
    }
    true
}

} // verus!
