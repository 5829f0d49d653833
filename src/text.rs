//! Trimming of board names.
use vstd::prelude::*;

verus! {

/// Whether `char::is_whitespace` holds of `c` (the Unicode White_Space
/// property).
pub uninterp spec fn white_space(c: char) -> bool;

/// What `str::trim` returns for `s`.
pub uninterp spec fn trim_of(s: Seq<char>) -> Seq<char>;

/// Is `t` what is left of `s` once its leading and trailing white space is
/// removed: the part between its first and last character that is not white
/// space, or nothing if there is none.
pub open spec fn trimmed_from(t: Seq<char>, s: Seq<char>) -> bool {
    exists|lo: int, hi: int|
        {
            &&& 0 <= lo <= hi <= s.len()
            &&& t == s.subrange(lo, hi)
            &&& forall|i: int| 0 <= i < lo ==> white_space(#[trigger] s[i])
            &&& forall|i: int| hi <= i < s.len() ==> white_space(#[trigger] s[i])
            &&& t.len() > 0 ==> !white_space(t[0]) && !white_space(t.last())
        }
}

/// Relies on `str::trim`: the result is `s` without its leading and trailing
/// white space (`char::is_whitespace`).
#[verifier::external_body]
fn trim_str(s: &str) -> (r: &str)
    ensures
        r@ == trim_of(s@),
        trimmed_from(r@, s@),
        r@.len() > 0 ==> !white_space(r@[0]) && !white_space(r@.last()),
{
    s.trim()
}

/// Is every character of `s` white space (true of the empty sequence).
pub open spec fn blank(s: Seq<char>) -> bool {
    forall|i: int| 0 <= i < s.len() ==> white_space(#[trigger] s[i])
}

/// `s` without leading and trailing white space; the result is empty
/// exactly when `s` is blank.
pub fn trim(s: &str) -> (r: String)
    ensures
        r@ == trim_of(s@),
        r@.len() == 0 <==> blank(s@),
{
    let t = trim_str(s);
    let ghost s_v = s@;
    let ghost t_v = t@;
    assert(t_v.len() == 0 <==> blank(s_v)) by {
        let (lo, hi) = choose|lo: int, hi: int|
            {
                &&& 0 <= lo <= hi <= s_v.len()
                &&& t_v == s_v.subrange(lo, hi)
                &&& forall|i: int| 0 <= i < lo ==> white_space(#[trigger] s_v[i])
                &&& forall|i: int| hi <= i < s_v.len() ==> white_space(#[trigger] s_v[i])
                &&& t_v.len() > 0 ==> !white_space(t_v[0]) && !white_space(t_v.last())
            };
        if t_v.len() == 0 {
            assert forall|i: int| 0 <= i < s_v.len() implies white_space(#[trigger] s_v[i]) by {
                assert(lo == hi);
            }
        } else {
            assert(t_v[0] == s_v[lo]);
        }
    }
    t.to_owned()
}

} // verus!
