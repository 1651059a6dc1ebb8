//! Decisions around the portal session: reading the session arguments from the
//! login answer, telling good answers from bad ones, and the text that reports
//! a newly graded course.
use vstd::prelude::*;
use crate::record::CourseResult;
use crate::text::{chars_of, matches_at, push_all, string_of};

verus! {

/// The length of the fixed part of the login answer's refresh header that
/// comes before the session arguments.
pub const REFRESH_PREFIX_LEN: usize = 84;

/// `s` with every occurrence of `p` removed, scanning from the left.
pub open spec fn without_all(s: Seq<char>, p: Seq<char>) -> Seq<char>
    decreases s.len(),
{
    if p.len() == 0 || s.len() < p.len() {
        s
    } else if s.subrange(0, p.len() as int) == p {
        without_all(s.subrange(p.len() as int, s.len() as int), p)
    } else {
        seq![s[0]] + without_all(s.drop_first(), p)
    }
}

/// Removes every occurrence of `p` from `s`, scanning from the left.
pub fn remove_all(s: &str, p: &str) -> (r: String)
    ensures
        r@ == without_all(s@, p@),
{
    let t = chars_of(s);
    let q = chars_of(p);
    let n = t.len();
    if q.len() == 0 {
        return string_of(&t);
    }
    let mut out: Vec<char> = Vec::new();
    let mut pos: usize = 0;
    assert(t@.subrange(0, n as int) =~= t@);
    while pos < n && n - pos >= q.len()
        invariant
            n == t@.len(),
            t@ == s@,
            q@ == p@,
            q@.len() > 0,
            pos <= n,
            without_all(s@, p@) == out@ + without_all(t@.subrange(pos as int, n as int), p@),
        decreases n - pos,
    {
        let ghost rest = t@.subrange(pos as int, n as int);
        if matches_at(&t, &q, pos) {
            assert(rest.subrange(0, q@.len() as int) =~= q@);
            assert(rest.subrange(q@.len() as int, rest.len() as int) =~= t@.subrange(pos + q@.len(), n as int));
            pos = pos + q.len();
        } else {
            assert(rest.subrange(0, q@.len() as int) != q@) by {
                if rest.subrange(0, q@.len() as int) == q@ {
                    assert(t@.subrange(pos as int, pos + q@.len()) =~= rest.subrange(0, q@.len() as int));
                }
            }
            assert(rest.drop_first() =~= t@.subrange(pos + 1, n as int));
            let ghost before = out@;
            out.push(t[pos]);
            assert(out@ + without_all(rest.drop_first(), p@) =~= before + (seq![rest[0]] + without_all(rest.drop_first(), p@)));
            pos = pos + 1;
        }
    }
    let mut k: usize = pos;
    let ghost mid = out@;
    assert(without_all(t@.subrange(pos as int, n as int), p@) == t@.subrange(pos as int, n as int));
    while k < n
        invariant
            pos <= k <= n,
            n == t@.len(),
            out@ == mid + t@.subrange(pos as int, k as int),
        decreases n - k,
    {
        out.push(t[k]);
        k = k + 1;
        assert(out@ =~= mid + t@.subrange(pos as int, k as int));
    }
    assert(out@ =~= without_all(s@, p@));
    string_of(&out)
}

/// The session arguments that the refresh header of a login answer carries:
/// what follows its fixed prefix, with every `-N000000000000000` removed.
/// `None` when the header is shorter than the prefix.
pub fn auth_arguments(refresh: &str) -> (r: Option<String>)
    ensures
        refresh@.len() < REFRESH_PREFIX_LEN ==> r is None,
        refresh@.len() >= REFRESH_PREFIX_LEN ==> (r matches Some(a) && a@ == without_all(
            refresh@.subrange(REFRESH_PREFIX_LEN as int, refresh@.len() as int),
            "-N000000000000000"@,
        )),
{
    let t = chars_of(refresh);
    if t.len() < REFRESH_PREFIX_LEN {
        return None;
    }
    let mut tail: Vec<char> = Vec::new();
    let mut k: usize = REFRESH_PREFIX_LEN;
    while k < t.len()
        invariant
            REFRESH_PREFIX_LEN <= k <= t@.len(),
            tail@ == t@.subrange(REFRESH_PREFIX_LEN as int, k as int),
        decreases t@.len() - k,
    {
        tail.push(t[k]);
        k = k + 1;
        assert(tail@ =~= t@.subrange(REFRESH_PREFIX_LEN as int, k as int));
    }
    let tail = string_of(&tail);
    Some(remove_all(tail.as_str(), "-N000000000000000"))
}

/// A login answer is taken as success when its status is a success and its
/// body is short (at most 500 bytes): a failed login answers with a full page.
pub fn login_accepted(status_ok: bool, body_len: usize) -> (r: bool)
    ensures
        r == (status_ok && body_len <= 500),
{
    status_ok && body_len <= 500
}

/// A fetched page is taken as good when its status is a success and its body
/// is a full page (at least 500 bytes).
pub fn page_accepted(status_ok: bool, body_len: usize) -> (r: bool)
    ensures
        r == (status_ok && body_len >= 500),
{
    status_ok && body_len >= 500
}

/// The message that reports a newly graded course.
pub open spec fn notification_spec(name: Seq<char>, id: Seq<char>) -> Seq<char> {
    "Neue Ergebnise in Dualis eingetragen: "@ + name + " ("@ + id + ")"@
}

/// The message that reports that `result` was newly graded.
pub fn notification_text(result: &CourseResult) -> (r: String)
    ensures
        r@ == notification_spec(result.course_name@, result.course_id@),
{
    let mut out: Vec<char> = Vec::new();
    push_all(&mut out, &chars_of("Neue Ergebnise in Dualis eingetragen: "));
    push_all(&mut out, &chars_of(result.course_name.as_str()));
    push_all(&mut out, &chars_of(" ("));
    push_all(&mut out, &chars_of(result.course_id.as_str()));
    push_all(&mut out, &chars_of(")"));
    string_of(&out)
}

} // verus!
