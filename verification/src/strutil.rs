//! Verified character-level string helpers: equality, search, substring
//! containment, splitting and joining.  Everything here works on the
//! character sequences behind `&str` and `String`.

use vstd::prelude::*;
use vstd::string::StrSliceExecFns;
use vstd::string::StringExecFns;

verus! {

/// `prefix` is a leading subsequence of `s`.
pub open spec fn spec_starts_with(s: Seq<char>, prefix: Seq<char>) -> bool {
    prefix.len() <= s.len() && s.subrange(0, prefix.len() as int) == prefix
}

/// `suffix` is a trailing subsequence of `s`.
pub open spec fn spec_ends_with(s: Seq<char>, suffix: Seq<char>) -> bool {
    suffix.len() <= s.len() && s.subrange(s.len() - suffix.len(), s.len() as int) == suffix
}

/// `sub` occurs in `s` at position `i`.
pub open spec fn spec_contains_at(s: Seq<char>, sub: Seq<char>, i: int) -> bool {
    0 <= i && i + sub.len() <= s.len() && s.subrange(i, i + sub.len()) == sub
}

/// `sub` occurs somewhere in `s`.
pub open spec fn spec_contains(s: Seq<char>, sub: Seq<char>) -> bool {
    exists|i: int| spec_contains_at(s, sub, i)
}

/// `s` with every occurrence of `from` replaced by `to`.
pub open spec fn spec_replace(s: Seq<char>, from: char, to: char) -> Seq<char> {
    s.map_values(|c: char| if c == from { to } else { c })
}

/// Relies on `String::push` from std: appends exactly the one character.
#[verifier::external_body]
pub fn push_char(s: &mut String, c: char)
    ensures
        final(s)@ == old(s)@.push(c),
{
    s.push(c);
}

/// Character-wise string equality: true exactly when the two views match.
pub fn str_eq(a: &str, b: &str) -> (r: bool)
    ensures
        r == (a@ == b@),
{
    let alen = a.unicode_len();
    let blen = b.unicode_len();
    if alen != blen {
        return false;
    }
    let mut i: usize = 0;
    while i < alen
        invariant
            alen == a@.len(),
            alen == b@.len(),
            i <= alen,
            forall|j: int| 0 <= j < i ==> a@[j] == b@[j],
        decreases alen - i,
    {
        if a.get_char(i) != b.get_char(i) {
            return false;
        }
        i = i + 1;
    }
    proof {
        assert(a@ =~= b@);
    }
    true
}

pub fn str_starts_with(s: &str, prefix: &str) -> (r: bool)
    ensures
        r == spec_starts_with(s@, prefix@),
{
    let n = prefix.unicode_len();
    let m = s.unicode_len();
    if n > m {
        return false;
    }
    let mut i: usize = 0;
    while i < n
        invariant
            n == prefix@.len(),
            m == s@.len(),
            n <= m,
            i <= n,
            forall|j: int| 0 <= j < i ==> s@[j] == prefix@[j],
        decreases n - i,
    {
        if s.get_char(i) != prefix.get_char(i) {
            proof {
                assert(s@.subrange(0, n as int)[i as int] == s@[i as int]);
            }
            return false;
        }
        i = i + 1;
    }
    proof {
        assert(s@.subrange(0, n as int) =~= prefix@);
    }
    true
}

pub fn str_ends_with(s: &str, suffix: &str) -> (r: bool)
    ensures
        r == spec_ends_with(s@, suffix@),
{
    let n = suffix.unicode_len();
    let m = s.unicode_len();
    if n > m {
        return false;
    }
    let off = m - n;
    let mut i: usize = 0;
    while i < n
        invariant
            n == suffix@.len(),
            m == s@.len(),
            off == m - n,
            i <= n,
            forall|j: int| 0 <= j < i ==> s@[off + j] == suffix@[j],
        decreases n - i,
    {
        if s.get_char(off + i) != suffix.get_char(i) {
            proof {
                assert(s@.subrange(off as int, m as int)[i as int] == s@[off + i]);
            }
            return false;
        }
        i = i + 1;
    }
    proof {
        assert(s@.subrange(off as int, m as int) =~= suffix@);
    }
    true
}

/// The position of the first occurrence of `c` in `s`, if any.
pub open spec fn spec_find(s: Seq<char>, c: char) -> Option<int>
    decreases s.len(),
{
    if s.len() == 0 {
        None
    } else if s[0] == c {
        Some(0)
    } else {
        match spec_find(s.drop_first(), c) {
            Some(i) => Some(i + 1),
            None => None,
        }
    }
}

/// A position holding `c` with no earlier occurrence is what `spec_find`
/// returns.
pub proof fn lemma_find_found(s: Seq<char>, c: char, i: int)
    requires
        0 <= i < s.len(),
        s[i] == c,
        forall|j: int| 0 <= j < i ==> s[j] != c,
    ensures
        spec_find(s, c) == Some(i),
    decreases i,
{
    if i > 0 {
        lemma_find_found(s.drop_first(), c, i - 1);
    }
}

/// Without any occurrence of `c`, `spec_find` returns nothing.
pub proof fn lemma_find_none(s: Seq<char>, c: char)
    requires
        forall|j: int| 0 <= j < s.len() ==> s[j] != c,
    ensures
        spec_find(s, c) is None,
    decreases s.len(),
{
    if s.len() > 0 {
        lemma_find_none(s.drop_first(), c);
    }
}

/// The first position of `c` in `s`, if any.
pub fn find_char(s: &str, c: char) -> (r: Option<usize>)
    ensures
        match r {
            Some(i) => i < s@.len() && s@[i as int] == c && forall|j: int|
                0 <= j < i ==> s@[j] != c,
            None => forall|j: int| 0 <= j < s@.len() ==> s@[j] != c,
        },
{
    let n = s.unicode_len();
    let mut i: usize = 0;
    while i < n
        invariant
            n == s@.len(),
            i <= n,
            forall|j: int| 0 <= j < i ==> s@[j] != c,
        decreases n - i,
    {
        if s.get_char(i) == c {
            return Some(i);
        }
        i = i + 1;
    }
    None
}

/// Whether `sub` occurs anywhere in `s` (character-wise search).
pub fn str_contains(s: &str, sub: &str) -> (r: bool)
    ensures
        r == spec_contains(s@, sub@),
{
    let n = sub.unicode_len();
    let m = s.unicode_len();
    if n > m {
        proof {
            assert(forall|i: int| !spec_contains_at(s@, sub@, i));
        }
        return false;
    }
    let last = m - n;
    let mut i: usize = 0;
    while i <= last
        invariant
            n == sub@.len(),
            m == s@.len(),
            n <= m,
            last == m - n,
            i <= last + 1,
            forall|k: int| 0 <= k < i ==> !spec_contains_at(s@, sub@, k),
        decreases last + 1 - i,
    {
        let mut j: usize = 0;
        let mut matches = true;
        while j < n
            invariant
                n == sub@.len(),
                m == s@.len(),
                i + n <= m,
                j <= n,
                matches <==> forall|q: int| 0 <= q < j ==> s@[i + q] == sub@[q],
            decreases n - j,
        {
            if s.get_char(i + j) != sub.get_char(j) {
                matches = false;
                proof {
                    assert(!(forall|q: int| 0 <= q < j + 1 ==> s@[i + q] == sub@[q]));
                }
                j = n;
            } else {
                j = j + 1;
            }
        }
        if matches {
            proof {
                assert(s@.subrange(i as int, i + n) =~= sub@);
                assert(spec_contains_at(s@, sub@, i as int));
            }
            return true;
        }
        proof {
            let ii = i as int;
            assert(!spec_contains_at(s@, sub@, ii)) by {
                if spec_contains_at(s@, sub@, ii) {
                    let q = choose|q: int| 0 <= q < n && s@[ii + q] != sub@[q];
                    assert(s@.subrange(ii, ii + n)[q] == s@[ii + q]);
                }
            }
        }
        i = i + 1;
    }
    proof {
        assert forall|k: int| !spec_contains_at(s@, sub@, k) by {
            if 0 <= k < i {
            } else if spec_contains_at(s@, sub@, k) {
                assert(0 <= k && k + n <= m);
            }
        }
    }
    false
}

/// Whether `sub` occurs in `s` at exactly position `i`.
pub fn matches_at(s: &str, sub: &str, i: usize) -> (r: bool)
    ensures
        r == spec_contains_at(s@, sub@, i as int),
{
    let n = sub.unicode_len();
    let m = s.unicode_len();
    if i > m || n > m - i {
        return false;
    }
    let mut j: usize = 0;
    while j < n
        invariant
            n == sub@.len(),
            m == s@.len(),
            i + n <= m,
            j <= n,
            forall|q: int| 0 <= q < j ==> s@[i + q] == sub@[q],
        decreases n - j,
    {
        if s.get_char(i + j) != sub.get_char(j) {
            proof {
                assert(!spec_contains_at(s@, sub@, i as int)) by {
                    if spec_contains_at(s@, sub@, i as int) {
                        assert(s@.subrange(i as int, i + n)[j as int] == s@[i + j]);
                    }
                }
            }
            return false;
        }
        j = j + 1;
    }
    proof {
        assert(s@.subrange(i as int, i + n) =~= sub@);
    }
    true
}

/// The first position at or after `from` where `sub` occurs in `s`.
pub open spec fn spec_find_from(s: Seq<char>, sub: Seq<char>, from: int) -> Option<int>
    recommends
        from >= 0,
    decreases s.len() + 1 - from,
{
    if from < 0 || from + sub.len() > s.len() {
        None
    } else if spec_contains_at(s, sub, from) {
        Some(from)
    } else {
        spec_find_from(s, sub, from + 1)
    }
}

/// The last position at or before `from` where `sub` occurs in `s`.
pub open spec fn spec_rfind_from(s: Seq<char>, sub: Seq<char>, from: int) -> Option<int>
    decreases from + 1,
{
    if from < 0 {
        None
    } else if from + sub.len() <= s.len() && spec_contains_at(s, sub, from) {
        Some(from)
    } else {
        spec_rfind_from(s, sub, from - 1)
    }
}

/// Finds the first occurrence of `sub` in `s` at or after `from`.
pub fn find_sub_from(s: &str, sub: &str, from: usize) -> (r: Option<usize>)
    ensures
        match r {
            Some(i) => spec_find_from(s@, sub@, from as int) == Some(i as int),
            None => spec_find_from(s@, sub@, from as int) is None,
        },
{
    let n = sub.unicode_len();
    let m = s.unicode_len();
    if from > m || n > m - from {
        return None;
    }
    if n == 0 {
        proof {
            assert(s@.subrange(from as int, from as int) =~= sub@);
        }
        return Some(from);
    }
    let mut i: usize = from;
    while i <= m - n
        invariant
            n == sub@.len(),
            m == s@.len(),
            1 <= n <= m,
            from <= i,
            i <= m - n + 1,
            spec_find_from(s@, sub@, from as int) == spec_find_from(s@, sub@, i as int),
        decreases m - i,
    {
        if matches_at(s, sub, i) {
            return Some(i);
        }
        i = i + 1;
    }
    None
}

/// Finds the last occurrence of `sub` in `s`.
pub fn rfind_sub(s: &str, sub: &str) -> (r: Option<usize>)
    ensures
        match r {
            Some(i) => spec_rfind_from(s@, sub@, s@.len() - sub@.len()) == Some(i as int),
            None => spec_rfind_from(s@, sub@, s@.len() - sub@.len()) is None,
        },
{
    let n = sub.unicode_len();
    let m = s.unicode_len();
    if n > m {
        return None;
    }
    let mut i: usize = m - n;
    loop
        invariant
            n == sub@.len(),
            m == s@.len(),
            n <= m,
            0 <= i <= m - n,
            spec_rfind_from(s@, sub@, m as int - n as int) == spec_rfind_from(s@, sub@, i as int),
        decreases i,
    {
        if matches_at(s, sub, i) {
            return Some(i);
        }
        if i == 0 {
            proof {
                assert(spec_rfind_from(s@, sub@, -1) is None);
            }
            return None;
        }
        i = i - 1;
    }
}

/// A found position is an occurrence at or after the start of the search.
pub proof fn lemma_find_from_found(s: Seq<char>, sub: Seq<char>, from: int, i: int)
    requires
        spec_find_from(s, sub, from) == Some(i),
    ensures
        from <= i,
        spec_contains_at(s, sub, i),
    decreases s.len() + 1 - from,
{
    if !(from < 0 || from + sub.len() > s.len()) && !spec_contains_at(s, sub, from) {
        lemma_find_from_found(s, sub, from + 1, i);
    }
}

/// A found position is an occurrence at or before the start of the search.
pub proof fn lemma_rfind_from_found(s: Seq<char>, sub: Seq<char>, from: int, i: int)
    requires
        spec_rfind_from(s, sub, from) == Some(i),
    ensures
        i <= from,
        spec_contains_at(s, sub, i),
    decreases from + 1,
{
    if from >= 0 && !(from + sub.len() <= s.len() && spec_contains_at(s, sub, from)) {
        lemma_rfind_from_found(s, sub, from - 1, i);
    }
}

/// `s` with every occurrence of `from` replaced by `to`.
pub fn replace_char(s: &str, from: char, to: char) -> (r: String)
    ensures
        r@ == spec_replace(s@, from, to),
{
    let n = s.unicode_len();
    let mut r = String::new();
    let mut i: usize = 0;
    while i < n
        invariant
            n == s@.len(),
            i <= n,
            r@ == spec_replace(s@.take(i as int), from, to),
        decreases n - i,
    {
        let c = s.get_char(i);
        let out = if c == from {
            to
        } else {
            c
        };
        push_char(&mut r, out);
        proof {
            assert(spec_replace(s@.take(i + 1), from, to) =~= spec_replace(
                s@.take(i as int),
                from,
                to,
            ).push(if s@[i as int] == from { to } else { s@[i as int] }));
        }
        i = i + 1;
    }
    proof {
        assert(s@.take(n as int) =~= s@);
    }
    r
}

/// `s` cut at every occurrence of `sep`; the separators themselves are
/// dropped.  Always at least one piece: the empty string splits into one
/// empty piece.
pub open spec fn spec_split(s: Seq<char>, sep: char) -> Seq<Seq<char>>
    decreases s.len(),
{
    if s.len() == 0 {
        seq![Seq::<char>::empty()]
    } else if s[0] == sep {
        seq![Seq::<char>::empty()] + spec_split(s.drop_first(), sep)
    } else {
        let rest = spec_split(s.drop_first(), sep);
        seq![seq![s[0]] + rest[0]] + rest.drop_first()
    }
}

pub proof fn lemma_split_len(s: Seq<char>, sep: char)
    ensures
        spec_split(s, sep).len() >= 1,
    decreases s.len(),
{
    if s.len() != 0 {
        lemma_split_len(s.drop_first(), sep);
    }
}

/// A string without the separator splits into itself alone.
pub proof fn lemma_split_no_sep(s: Seq<char>, sep: char)
    requires
        forall|j: int| 0 <= j < s.len() ==> s[j] != sep,
    ensures
        spec_split(s, sep) =~= seq![s],
    decreases s.len(),
{
    if s.len() == 0 {
        assert(spec_split(s, sep) == seq![Seq::<char>::empty()]);
        assert(s =~= Seq::<char>::empty());
    } else {
        lemma_split_no_sep(s.drop_first(), sep);
        let rest = spec_split(s.drop_first(), sep);
        assert(rest[0] == s.drop_first());
        assert(seq![s[0]] + s.drop_first() =~= s);
        assert(rest.drop_first() =~= Seq::<Seq<char>>::empty());
    }
}

/// Splitting at the first separator: the part before it becomes the first
/// piece and the rest splits on its own.
pub proof fn lemma_split_first_sep(s: Seq<char>, sep: char, i: int)
    requires
        0 <= i < s.len(),
        s[i] == sep,
        forall|j: int| 0 <= j < i ==> s[j] != sep,
    ensures
        spec_split(s, sep) =~= seq![s.take(i)] + spec_split(s.skip(i + 1), sep),
    decreases i,
{
    if i == 0 {
        assert(s.take(0) =~= Seq::<char>::empty());
        assert(s.skip(1) =~= s.drop_first());
    } else {
        let d = s.drop_first();
        assert(d[i - 1] == sep);
        assert(forall|j: int| 0 <= j < i - 1 ==> d[j] == s[j + 1] && d[j] != sep);
        lemma_split_first_sep(d, sep, i - 1);
        lemma_split_len(d.skip(i), sep);
        let rest = spec_split(d, sep);
        assert(rest[0] == d.take(i - 1));
        assert(seq![s[0]] + d.take(i - 1) =~= s.take(i));
        assert(rest.drop_first() =~= spec_split(d.skip(i), sep));
        assert(d.skip(i) =~= s.skip(i + 1));
    }
}

/// Splits `s` at every `sep`, dropping the separators.
pub fn split_char(s: &str, sep: char) -> (r: Vec<String>)
    ensures
        r@.map_values(|p: String| p@) == spec_split(s@, sep),
    decreases s@.len(),
{
    match find_char(s, sep) {
        None => {
            proof {
                lemma_split_no_sep(s@, sep);
            }
            let mut v: Vec<String> = Vec::new();
            v.push(s.to_owned());
            proof {
                assert(v@.map_values(|p: String| p@) =~= seq![s@]);
            }
            v
        },
        Some(i) => {
            let n = s.unicode_len();
            let head = s.substring_char(0, i).to_owned();
            let tail = s.substring_char(i + 1, n);
            let mut rest = split_char(tail, sep);
            rest.insert(0, head);
            proof {
                lemma_split_first_sep(s@, sep, i as int);
                assert(head@ =~= s@.take(i as int));
                assert(tail@ =~= s@.skip(i + 1));
                assert(rest@.map_values(|p: String| p@) =~= seq![s@.take(i as int)] + spec_split(
                    s@.skip(i + 1),
                    sep,
                ));
            }
            rest
        },
    }
}

/// The pieces glued back together with `sep` between consecutive pieces.
pub open spec fn spec_join(parts: Seq<Seq<char>>, sep: char) -> Seq<char>
    decreases parts.len(),
{
    if parts.len() == 0 {
        Seq::empty()
    } else if parts.len() == 1 {
        parts[0]
    } else {
        spec_join(parts.drop_last(), sep) + seq![sep] + parts.last()
    }
}

/// Joins the pieces with `sep` between consecutive pieces.
pub fn join_char(parts: &Vec<String>, sep: char) -> (r: String)
    ensures
        r@ == spec_join(parts@.map_values(|p: String| p@), sep),
{
    let ghost views = parts@.map_values(|p: String| p@);
    if parts.len() == 0 {
        let r = String::new();
        proof {
            assert(r@ =~= spec_join(views, sep));
        }
        return r;
    }
    let mut r: String = parts[0].clone();
    let mut k: usize = 1;
    while k < parts.len()
        invariant
            1 <= k <= parts@.len(),
            views == parts@.map_values(|p: String| p@),
            views.len() == parts@.len(),
            r@ == spec_join(views.take(k as int), sep),
        decreases parts@.len() - k,
    {
        push_char(&mut r, sep);
        let piece = &parts[k];
        r.append(piece.as_str());
        proof {
            let t = views.take(k + 1);
            assert(t.drop_last() =~= views.take(k as int));
            assert(t.last() == views[k as int]);
        }
        k = k + 1;
    }
    proof {
        assert(views.take(k as int) =~= views);
    }
    r
}

} // verus!
