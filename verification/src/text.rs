//! Verified character-level string operations: substring search, prefix and
//! suffix tests, lexicographic comparison, and basename extraction.
//!
//! Specifications are stated over `Seq<char>`, the view of `&str`.

use vstd::prelude::*;
use vstd::string::StrSliceExecFns;

verus! {

/// `n` occurs in `h` at character offset `i`.
pub open spec fn occurs_at(h: Seq<char>, n: Seq<char>, i: int) -> bool {
    0 <= i && i + n.len() <= h.len() && h.subrange(i, i + n.len() as int) == n
}

/// `n` occurs somewhere in `h`.
pub open spec fn has_sub(h: Seq<char>, n: Seq<char>) -> bool {
    exists|i: int| occurs_at(h, n, i)
}

/// Offset of the first occurrence of `n` in `h` at or after `i`, if any.
pub open spec fn spec_find_from(h: Seq<char>, n: Seq<char>, i: int) -> Option<int>
    decreases h.len() + 1 - i,
{
    if i + n.len() > h.len() {
        None
    } else if occurs_at(h, n, i) {
        Some(i)
    } else {
        spec_find_from(h, n, i + 1)
    }
}

/// Offset of the first occurrence of `n` in `h`, if any.
pub open spec fn spec_find(h: Seq<char>, n: Seq<char>) -> Option<int> {
    spec_find_from(h, n, 0)
}

/// What `spec_find_from` returns: the least occurrence at or after `i`.
pub proof fn lemma_find_from_characterizes(h: Seq<char>, n: Seq<char>, i: int)
    requires
        0 <= i,
    ensures
        match spec_find_from(h, n, i) {
            Some(j) => occurs_at(h, n, j) && i <= j && forall|k: int|
                i <= k < j ==> !occurs_at(h, n, k),
            None => forall|k: int| i <= k ==> !occurs_at(h, n, k),
        },
    decreases h.len() + 1 - i,
{
    if i + n.len() > h.len() {
        assert forall|k: int| i <= k implies !occurs_at(h, n, k) by {
            if occurs_at(h, n, k) {
                assert(k + n.len() <= h.len());
            }
        }
    } else if occurs_at(h, n, i) {
    } else {
        lemma_find_from_characterizes(h, n, i + 1);
    }
}

/// `has_sub` holds exactly when `spec_find` succeeds.
pub proof fn lemma_find_iff_has_sub(h: Seq<char>, n: Seq<char>)
    ensures
        has_sub(h, n) <==> spec_find(h, n) is Some,
{
    lemma_find_from_characterizes(h, n, 0);
    if has_sub(h, n) {
        let i = choose|i: int| occurs_at(h, n, i);
        if spec_find(h, n) is None {
            assert(!occurs_at(h, n, i));
        }
    }
}

/// Does `n` occur in `h` at offset `i`?
pub fn contains_at(h: &str, n: &str, i: usize) -> (r: bool)
    ensures
        r == occurs_at(h@, n@, i as int),
{
    let h_len = h.unicode_len();
    let n_len = n.unicode_len();
    if i > h_len || n_len > h_len - i {
        return false;
    }
    let mut j: usize = 0;
    while j < n_len
        invariant
            i + n_len <= h_len,
            h_len == h@.len(),
            n_len == n@.len(),
            j <= n_len,
            forall|k: int| 0 <= k < j ==> h@[i + k] == n@[k],
        decreases n_len - j,
    {
        if h.get_char(i + j) != n.get_char(j) {
            assert(!occurs_at(h@, n@, i as int)) by {
                if occurs_at(h@, n@, i as int) {
                    assert(h@.subrange(i as int, i + n@.len() as int)[j as int] == n@[j as int]);
                }
            }
            return false;
        }
        j += 1;
    }
    assert(h@.subrange(i as int, i + n@.len() as int) =~= n@);
    true
}

/// First occurrence of `n` in `h`, as a character offset.
pub fn str_find(h: &str, n: &str) -> (r: Option<usize>)
    ensures
        match r {
            Some(u) => spec_find(h@, n@) == Some(u as int),
            None => spec_find(h@, n@) is None,
        },
{
    let h_len = h.unicode_len();
    let n_len = n.unicode_len();
    if n_len > h_len {
        return None;
    }
    let bound = h_len - n_len;
    let mut i: usize = 0;
    loop
        invariant
            n_len <= h_len,
            h_len == h@.len(),
            n_len == n@.len(),
            bound == h_len - n_len,
            i <= bound,
            spec_find(h@, n@) == spec_find_from(h@, n@, i as int),
        decreases bound - i,
    {
        if contains_at(h, n, i) {
            return Some(i);
        }
        proof {
            assert(spec_find_from(h@, n@, i as int) == spec_find_from(h@, n@, i + 1));
        }
        if i == bound {
            proof {
                assert(spec_find_from(h@, n@, i + 1) is None);
            }
            return None;
        }
        i += 1;
    }
}

/// Does `n` occur anywhere in `h`?
pub fn str_has_sub(h: &str, n: &str) -> (r: bool)
    ensures
        r == has_sub(h@, n@),
{
    proof {
        lemma_find_iff_has_sub(h@, n@);
    }
    str_find(h, n).is_some()
}

/// Is `p` a prefix of `h`?
pub fn str_starts_with(h: &str, p: &str) -> (r: bool)
    ensures
        r == p@.is_prefix_of(h@),
{
    let r = contains_at(h, p, 0);
    proof {
        if r {
            assert(p@.is_prefix_of(h@));
        } else if p@.is_prefix_of(h@) {
            assert(h@.subrange(0, p@.len() as int) == p@);
        }
    }
    r
}

/// Is `s` a suffix of `h`?
pub fn str_ends_with(h: &str, s: &str) -> (r: bool)
    ensures
        r == s@.is_suffix_of(h@),
{
    let h_len = h.unicode_len();
    let s_len = s.unicode_len();
    if s_len > h_len {
        return false;
    }
    let r = contains_at(h, s, h_len - s_len);
    proof {
        if r {
            assert(s@.is_suffix_of(h@));
        } else if s@.is_suffix_of(h@) {
            assert(h@.subrange(h@.len() - s@.len(), h@.len() as int) == s@);
        }
    }
    r
}

/// Do two string slices hold the same characters?
pub fn str_eq(a: &str, b: &str) -> (r: bool)
    ensures
        r == (a@ == b@),
{
    let a_len = a.unicode_len();
    let b_len = b.unicode_len();
    if a_len != b_len {
        return false;
    }
    let r = contains_at(a, b, 0);
    proof {
        if r {
            assert(a@.subrange(0, b@.len() as int) =~= a@);
        } else if a@ == b@ {
            assert(a@.subrange(0, b@.len() as int) =~= b@);
        }
    }
    r
}

/// `a` is at or before `b` in character-wise lexicographic order.
pub open spec fn lex_le(a: Seq<char>, b: Seq<char>) -> bool
    decreases a.len(),
{
    if a.len() == 0 {
        true
    } else if b.len() == 0 {
        false
    } else if (a[0] as u32) < (b[0] as u32) {
        true
    } else if (a[0] as u32) > (b[0] as u32) {
        false
    } else {
        lex_le(a.drop_first(), b.drop_first())
    }
}

/// Lexicographic order is total.
pub proof fn lemma_lex_le_total(a: Seq<char>, b: Seq<char>)
    ensures
        lex_le(a, b) || lex_le(b, a),
    decreases a.len(),
{
    if a.len() != 0 && b.len() != 0 && (a[0] as u32) == (b[0] as u32) {
        lemma_lex_le_total(a.drop_first(), b.drop_first());
    }
}

/// Lexicographic order is transitive.
pub proof fn lemma_lex_le_trans(a: Seq<char>, b: Seq<char>, c: Seq<char>)
    requires
        lex_le(a, b),
        lex_le(b, c),
    ensures
        lex_le(a, c),
    decreases a.len(),
{
    if a.len() != 0 && b.len() != 0 && c.len() != 0 && (a[0] as u32) == (b[0] as u32) && (b[0]
        as u32) == (c[0] as u32) {
        lemma_lex_le_trans(a.drop_first(), b.drop_first(), c.drop_first());
    }
}

/// Compare two strings in character-wise lexicographic order.
pub fn str_lex_le(a: &str, b: &str) -> (r: bool)
    ensures
        r == lex_le(a@, b@),
{
    let a_len = a.unicode_len();
    let b_len = b.unicode_len();
    let mut i: usize = 0;
    proof {
        assert(a@.skip(0) =~= a@);
        assert(b@.skip(0) =~= b@);
    }
    loop
        invariant
            a_len == a@.len(),
            b_len == b@.len(),
            i <= a_len,
            i <= b_len,
            lex_le(a@, b@) == lex_le(a@.skip(i as int), b@.skip(i as int)),
        decreases a_len - i,
    {
        if i == a_len {
            return true;
        }
        if i == b_len {
            return false;
        }
        let ca = a.get_char(i);
        let cb = b.get_char(i);
        proof {
            let sa = a@.skip(i as int);
            let sb = b@.skip(i as int);
            assert(sa[0] == a@[i as int] && sb[0] == b@[i as int]);
            assert(sa.drop_first() =~= a@.skip(i as int + 1));
            assert(sb.drop_first() =~= b@.skip(i as int + 1));
        }
        if (ca as u32) < (cb as u32) {
            return true;
        }
        if (ca as u32) > (cb as u32) {
            return false;
        }
        i += 1;
    }
}

/// Filtering past a pushed element.
pub proof fn lemma_filter_push<A>(s: Seq<A>, pred: spec_fn(A) -> bool, x: A)
    ensures
        s.push(x).filter(pred) == if pred(x) {
            s.filter(pred).push(x)
        } else {
            s.filter(pred)
        },
{
    reveal_with_fuel(Seq::<_>::filter, 2);
    assert(s.push(x).drop_last() =~= s);
    assert(s.push(x).last() == x);
}

/// A path separator: the crate treats both slash styles as separators.
pub open spec fn is_sep(c: char) -> bool {
    c == '/' || c == '\\'
}

/// Index of the last path separator in `s`, or `-1` if there is none.
pub open spec fn last_sep(s: Seq<char>) -> int
    decreases s.len(),
{
    if s.len() == 0 {
        -1
    } else if is_sep(s[s.len() - 1]) {
        s.len() - 1
    } else {
        last_sep(s.drop_last())
    }
}

/// The basename of a path: the characters after the last separator.
pub open spec fn spec_basename(s: Seq<char>) -> Seq<char> {
    s.subrange(last_sep(s) + 1, s.len() as int)
}

/// The greatest separator index (or `-1` with none at all) is `last_sep`.
pub proof fn lemma_last_sep_unique(s: Seq<char>, k: int)
    requires
        -1 <= k < s.len(),
        k >= 0 ==> is_sep(s[k]),
        forall|j: int| k < j < s.len() ==> !is_sep(s[j]),
    ensures
        last_sep(s) == k,
    decreases s.len(),
{
    if s.len() == 0 {
    } else if is_sep(s[s.len() - 1]) {
        if k < s.len() - 1 {
            assert(!is_sep(s[s.len() - 1]));
        }
    } else {
        assert(k < s.len() - 1);
        lemma_last_sep_unique(s.drop_last(), k);
    }
}

/// The basename of `path`: the characters after the last separator.
pub fn basename(path: &str) -> (r: &str)
    ensures
        r@ == spec_basename(path@),
{
    let len = path.unicode_len();
    let mut i: usize = len;
    while i > 0
        invariant
            len == path@.len(),
            i <= len,
            forall|j: int| i <= j < len ==> !is_sep(path@[j]),
        decreases i,
    {
        let c = path.get_char(i - 1);
        if c == '/' || c == '\\' {
            proof {
                lemma_last_sep_unique(path@, i - 1);
            }
            return path.substring_char(i, len);
        }
        i -= 1;
    }
    proof {
        lemma_last_sep_unique(path@, -1);
        assert(path@.subrange(0, path@.len() as int) =~= path@);
    }
    path
}

} // verus!
