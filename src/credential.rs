use vstd::prelude::*;

verus! {

/// `t` stands in `s` starting at position `i`.
pub open spec fn text_at(s: Seq<char>, t: Seq<char>, i: int) -> bool {
    0 <= i && i + t.len() <= s.len() && s.subrange(i, i + t.len()) == t
}

/// `t` stands somewhere in `s`.
pub open spec fn contains_text(s: Seq<char>, t: Seq<char>) -> bool {
    exists|i: int| text_at(s, t, i)
}

/// Whether `t` occurs in `s`.
pub fn text_contains(s: &str, t: &str) -> (r: bool)
    ensures
        r == contains_text(s@, t@),
{
    let n = s.unicode_len();
    let m = t.unicode_len();
    if m > n {
        assert forall|i: int| !text_at(s@, t@, i) by {}
        return false;
    }
    let mut i: usize = 0;
    while i <= n - m
        invariant
            n == s@.len(),
            m == t@.len(),
            m <= n,
            i <= n - m + 1,
            forall|k: int| 0 <= k < i ==> !text_at(s@, t@, k),
        decreases n - m + 1 - i,
    {
        let mut j: usize = 0;
        while j < m && s.get_char(i + j) == t.get_char(j)
            invariant
                n == s@.len(),
                m == t@.len(),
                i + m <= n,
                j <= m,
                forall|k: int| 0 <= k < j ==> s@[i + k] == t@[k],
            decreases m - j,
        {
            j = j + 1;
        }
        if j == m {
            assert(s@.subrange(i as int, i + m) =~= t@);
            assert(text_at(s@, t@, i as int));
            return true;
        }
        assert(s@.subrange(i as int, i + m)[j as int] != t@[j as int]);
        i = i + 1;
    }
    assert forall|k: int| !text_at(s@, t@, k) by {
        if 0 <= k && k + m <= n {
            assert(k < i);
        }
    }
    false
}

/// What a usage request says of a credential: valid if it succeeded
/// (`None`), invalid if it failed with an authorization error (its
/// message holds "401"), and any other failure is passed on.
pub fn key_validity(usage_error: Option<String>) -> (r: Result<bool, String>)
    ensures
        r == (match usage_error {
            None => Ok(true),
            Some(e) => if contains_text(e@, "401"@) {
                Ok(false)
            } else {
                Err(e)
            },
        }),
{
    match usage_error {
        None => Ok(true),
        Some(e) => if text_contains(e.as_str(), "401") {
            Ok(false)
        } else {
            Err(e)
        },
    }
}

} // verus!
