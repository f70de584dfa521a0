//! Verified text helpers: equality, blankness and substring search over
//! the character sequences of `str` values, plus the one case-folding
//! operation the username policy needs.

use vstd::prelude::*;
use vstd::string::StrSliceExecFns;

verus! {

/// Whether `c` has the Unicode `White_Space` property, written out as the
/// fixed list of code points that carry it.
pub open spec fn is_ws_char(c: char) -> bool {
    let u = c as u32;
    u == 0x09 || u == 0x0A || u == 0x0B || u == 0x0C || u == 0x0D || u == 0x20 || u == 0x85
        || u == 0xA0 || u == 0x1680 || (0x2000 <= u && u <= 0x200A) || u == 0x2028 || u == 0x2029
        || u == 0x202F || u == 0x205F || u == 0x3000
}

/// Whether `s` is empty or consists of whitespace alone, i.e. whether it
/// would trim to the empty string.
pub open spec fn is_blank(s: Seq<char>) -> bool {
    forall|i: int| 0 <= i < s.len() ==> is_ws_char(#[trigger] s[i])
}

/// Whether `pat` occurs in `text` as a contiguous substring.
pub open spec fn contains_seq(text: Seq<char>, pat: Seq<char>) -> bool {
    exists|k: int|
        0 <= k && k + pat.len() <= text.len() && #[trigger] text.subrange(k, k + pat.len()) == pat
}

/// The lowercase form of a character sequence.
pub uninterp spec fn lower_of(s: Seq<char>) -> Seq<char>;

/// Relies on `str::to_lowercase`: the result depends on the characters alone.
#[verifier::external_body]
pub(crate) fn to_lowercase_str(s: &str) -> (r: String)
    ensures
        r@ == lower_of(s@),
{
    s.to_lowercase()
}

/// Decides whether `c` is whitespace.
pub fn is_whitespace_char(c: char) -> (r: bool)
    ensures
        r == is_ws_char(c),
{
    let u = c as u32;
    u == 0x09 || u == 0x0A || u == 0x0B || u == 0x0C || u == 0x0D || u == 0x20 || u == 0x85
        || u == 0xA0 || u == 0x1680 || (0x2000 <= u && u <= 0x200A) || u == 0x2028 || u == 0x2029
        || u == 0x202F || u == 0x205F || u == 0x3000
}

/// Decides whether `s` trims to the empty string.
pub fn is_blank_str(s: &str) -> (r: bool)
    ensures
        r == is_blank(s@),
{
    let n = s.unicode_len();
    let mut i: usize = 0;
    while i < n
        invariant
            n == s@.len(),
            i <= n,
            forall|j: int| 0 <= j < i ==> is_ws_char(#[trigger] s@[j]),
        decreases n - i,
    {
        if !is_whitespace_char(s.get_char(i)) {
            return false;
        }
        i = i + 1;
    }
    true
}

/// Decides whether two strings hold the same characters.
pub fn str_eq(a: &str, b: &str) -> (r: bool)
    ensures
        r == (a@ == b@),
{
    let n = a.unicode_len();
    if n != b.unicode_len() {
        return false;
    }
    let mut i: usize = 0;
    while i < n
        invariant
            n == a@.len(),
            n == b@.len(),
            i <= n,
            forall|j: int| 0 <= j < i ==> a@[j] == b@[j],
        decreases n - i,
    {
        if a.get_char(i) != b.get_char(i) {
            return false;
        }
        i = i + 1;
    }
    proof {
        assert(a@ =~= b@);
    }
    true
}

/// Decides whether `pat` occurs in `text` as a contiguous substring.
pub fn str_contains(text: &str, pat: &str) -> (r: bool)
    ensures
        r == contains_seq(text@, pat@),
{
    let tn = text.unicode_len();
    let pn = pat.unicode_len();
    if pn > tn {
        proof {
            assert(!contains_seq(text@, pat@));
        }
        return false;
    }
    if pn == 0 {
        proof {
            assert(text@.subrange(0, 0 + pat@.len() as int) =~= pat@);
            assert(contains_seq(text@, pat@));
        }
        return true;
    }
    let end = tn - pn + 1;
    let mut k: usize = 0;
    while k < end
        invariant
            tn == text@.len(),
            pn == pat@.len(),
            0 < pn <= tn,
            end == tn - pn + 1,
            k <= end,
            forall|k2: int|
                0 <= k2 < k ==> #[trigger] text@.subrange(k2, k2 + pat@.len() as int) != pat@,
        decreases end - k,
    {
        if match_at(text, pat, k) {
            return true;
        }
        k = k + 1;
    }
    proof {
        assert(!contains_seq(text@, pat@));
    }
    false
}

/// Decides whether `pat` occurs in `text` starting at character `k`.
fn match_at(text: &str, pat: &str, k: usize) -> (r: bool)
    requires
        k + pat@.len() <= text@.len(),
        text@.len() <= usize::MAX,
    ensures
        r == (text@.subrange(k as int, k + pat@.len() as int) == pat@),
{
    let pn = pat.unicode_len();
    let mut j: usize = 0;
    while j < pn
        invariant
            pn == pat@.len(),
            k + pn <= text@.len(),
            text@.len() <= usize::MAX,
            j <= pn,
            forall|j2: int| 0 <= j2 < j ==> text@[k + j2] == pat@[j2],
        decreases pn - j,
    {
        if text.get_char(k + j) != pat.get_char(j) {
            proof {
                let sub = text@.subrange(k as int, k + pat@.len() as int);
                assert(sub[j as int] != pat@[j as int]);
            }
            return false;
        }
        j = j + 1;
    }
    proof {
        assert(text@.subrange(k as int, k + pat@.len() as int) =~= pat@);
    }
    true
}

} // verus!
