//! Text helpers: whitespace trimming and string comparison over `char` views.

use vstd::prelude::*;
use vstd::string::*;

verus! {

/// Whether a character has the Unicode `White_Space` property.
pub uninterp spec fn is_white_space(c: char) -> bool;

/// Relies on `char::is_whitespace`: true exactly for characters with the
/// Unicode `White_Space` property, a function of the character alone.
#[verifier::external_body]
fn char_is_white_space(c: char) -> (r: bool)
    ensures
        r == is_white_space(c),
{
    c.is_whitespace()
}

/// Index of the first character of `s` that is not white space (`s.len()` if none).
pub open spec fn first_kept(s: Seq<char>) -> nat
    decreases s.len(),
{
    if s.len() == 0 {
        0
    } else if is_white_space(s[0]) {
        1 + first_kept(s.drop_first())
    } else {
        0
    }
}

/// One past the last character of `s` that is not white space (0 if none).
pub open spec fn last_kept(s: Seq<char>) -> nat
    decreases s.len(),
{
    if s.len() == 0 {
        0
    } else if is_white_space(s.last()) {
        last_kept(s.drop_last())
    } else {
        s.len()
    }
}

/// `s` with leading and trailing white space removed.
pub open spec fn trimmed(s: Seq<char>) -> Seq<char> {
    if last_kept(s) == 0 {
        Seq::empty()
    } else {
        s.subrange(first_kept(s) as int, last_kept(s) as int)
    }
}

proof fn lemma_first_kept(s: Seq<char>, i: int)
    requires
        0 <= i <= s.len(),
        forall|k: int| 0 <= k < i ==> is_white_space(#[trigger] s[k]),
    ensures
        i < s.len() && !is_white_space(s[i]) ==> first_kept(s) == i,
        i == s.len() ==> first_kept(s) == s.len(),
    decreases i,
{
    if i > 0 {
        let t = s.drop_first();
        assert forall|k: int| 0 <= k < i - 1 implies is_white_space(#[trigger] t[k]) by {
            assert(t[k] == s[k + 1]);
        }
        lemma_first_kept(t, i - 1);
        if i < s.len() {
            assert(t[i - 1] == s[i]);
        }
    }
}

proof fn lemma_last_kept(s: Seq<char>, j: int)
    requires
        0 <= j <= s.len(),
        forall|k: int| j <= k < s.len() ==> is_white_space(#[trigger] s[k]),
    ensures
        j > 0 && !is_white_space(s[j - 1]) ==> last_kept(s) == j,
        j == 0 ==> last_kept(s) == 0,
    decreases s.len() - j,
{
    if j < s.len() {
        let t = s.drop_last();
        assert forall|k: int| j <= k < t.len() implies is_white_space(#[trigger] t[k]) by {
            assert(t[k] == s[k]);
        }
        lemma_last_kept(t, j);
        if j > 0 {
            assert(t[j - 1] == s[j - 1]);
        }
    } else if s.len() > 0 && j > 0 {
        assert(s.last() == s[j - 1]);
    }
}

/// Trimming a text padded on both sides with white space gives the text back,
/// when the text is not empty and neither starts nor ends with white space.
pub proof fn lemma_trim_padded(pre: Seq<char>, x: Seq<char>, post: Seq<char>)
    requires
        forall|k: int| 0 <= k < pre.len() ==> is_white_space(#[trigger] pre[k]),
        forall|k: int| 0 <= k < post.len() ==> is_white_space(#[trigger] post[k]),
        x.len() > 0,
        !is_white_space(x[0]),
        !is_white_space(x.last()),
    ensures
        trimmed(pre + x + post) == x,
{
    let s = pre + x + post;
    let i = pre.len() as int;
    let j = i + x.len();
    assert forall|k: int| 0 <= k < i implies is_white_space(#[trigger] s[k]) by {
        assert(s[k] == pre[k]);
    }
    assert forall|k: int| j <= k < s.len() implies is_white_space(#[trigger] s[k]) by {
        assert(s[k] == post[k - j]);
    }
    assert(s[i] == x[0]);
    assert(s[j - 1] == x.last());
    lemma_first_kept(s, i);
    lemma_last_kept(s, j);
    assert(s.subrange(i, j) =~= x);
}

/// Removes leading and trailing white space, as `str::trim` does.
pub fn trim(s: &str) -> (r: String)
    ensures
        r@ == trimmed(s@),
{
    let n = s.unicode_len();
    let mut i: usize = 0;
    while i < n && char_is_white_space(s.get_char(i))
        invariant
            n == s@.len(),
            0 <= i <= n,
            forall|k: int| 0 <= k < i ==> is_white_space(#[trigger] s@[k]),
        decreases n - i,
    {
        i = i + 1;
    }
    if i == n {
        proof {
            lemma_last_kept(s@, 0);
        }
        return String::new();
    }
    let mut j: usize = n;
    while j > i && char_is_white_space(s.get_char(j - 1))
        invariant
            n == s@.len(),
            i < n,
            !is_white_space(s@[i as int]),
            i < j <= n,
            forall|k: int| j <= k < n ==> is_white_space(#[trigger] s@[k]),
        decreases j,
    {
        j = j - 1;
    }
    proof {
        lemma_first_kept(s@, i as int);
        if j == i + 1 {
            assert(!is_white_space(s@[j - 1]));
        }
        lemma_last_kept(s@, j as int);
    }
    s.substring_char(i, j).to_owned()
}

/// Whether two strings hold the same characters.
pub fn str_equal(a: &str, b: &str) -> (r: bool)
    ensures
        r == (a@ == b@),
{
    let n = a.unicode_len();
    if n != b.unicode_len() {
        return false;
    }
    let mut i: usize = 0;
    while i < n
        invariant
            n == a@.len(),
            n == b@.len(),
            0 <= i <= n,
            forall|k: int| 0 <= k < i ==> a@[k] == b@[k],
        decreases n - i,
    {
        if a.get_char(i) != b.get_char(i) {
            return false;
        }
        i = i + 1;
    }
    assert(a@ =~= b@);
    true
}

} // verus!
