//! The tile locator's pure core: which file names qualify as map records,
//! the common base path of a collection of record paths, and deterministic
//! orderings for the discovered files.  Directory traversal itself is a
//! collaborator outside this crate; it hands path strings in.

use crate::strutil::join_char;
use crate::strutil::spec_ends_with;
use crate::strutil::spec_join;
use crate::strutil::spec_split;
use crate::strutil::spec_starts_with;
use crate::strutil::split_char;
use crate::strutil::str_ends_with;
use crate::strutil::str_eq;
use crate::strutil::str_starts_with;
use std::collections::VecDeque;
use vstd::multiset::Multiset;
use vstd::prelude::*;
use vstd::seq_lib::lemma_multiset_commutative;

verus! {

/// A file qualifies as a map record when its name starts with the fixed
/// prefix and carries the persisted format's extension.
pub fn is_map_file_name(name: &str) -> (r: bool)
    ensures
        r == (spec_starts_with(name@, "map_"@) && spec_ends_with(name@, ".dat"@)),
{
    str_starts_with(name, "map_") && str_ends_with(name, ".dat")
}

/// The components of the directory holding `path`: the path split at every
/// separator, with the trailing file name dropped.
pub open spec fn spec_parent_components(path: Seq<char>) -> Seq<Seq<char>> {
    spec_split(path, '/').drop_last()
}

/// The longest common leading run of two component sequences.
pub open spec fn spec_common_prefix(a: Seq<Seq<char>>, b: Seq<Seq<char>>) -> Seq<Seq<char>>
    decreases a.len(),
{
    if a.len() == 0 || b.len() == 0 || a[0] != b[0] {
        Seq::empty()
    } else {
        seq![a[0]] + spec_common_prefix(a.drop_first(), b.drop_first())
    }
}

/// The shared leading components over all the paths' parent directories.
pub open spec fn spec_base_fold(paths: Seq<Seq<char>>) -> Seq<Seq<char>>
    recommends
        paths.len() >= 1,
    decreases paths.len(),
{
    if paths.len() <= 1 {
        spec_parent_components(paths[0])
    } else {
        spec_common_prefix(spec_base_fold(paths.drop_last()), spec_parent_components(paths.last()))
    }
}

/// The longest shared leading sequence of path components across all given
/// paths, the trailing file names never counting; nothing for no paths.
pub open spec fn spec_common_base(paths: Seq<Seq<char>>) -> Option<Seq<char>> {
    if paths.len() == 0 {
        None
    } else {
        Some(spec_join(spec_base_fold(paths), '/'))
    }
}

/// A leading run of equal components up to the first difference (or the end
/// of either side) is exactly the common prefix.
proof fn lemma_common_prefix_take(a: Seq<Seq<char>>, b: Seq<Seq<char>>, k: int)
    requires
        0 <= k <= a.len(),
        k <= b.len(),
        forall|j: int| 0 <= j < k ==> a[j] == b[j],
        k == a.len() || k == b.len() || a[k] != b[k],
    ensures
        spec_common_prefix(a, b) == a.take(k),
    decreases k,
{
    if k == 0 {
        assert(a.take(0) =~= Seq::<Seq<char>>::empty());
    } else {
        let a1 = a.drop_first();
        let b1 = b.drop_first();
        assert(forall|j: int| 0 <= j < k - 1 ==> a1[j] == b1[j]);
        lemma_common_prefix_take(a1, b1, k - 1);
        assert(seq![a[0]] + a1.take(k - 1) =~= a.take(k));
    }
}

/// The longest common leading run of two component lists.
fn common_prefix(a: &Vec<String>, b: &Vec<String>) -> (r: Vec<String>)
    ensures
        r@.map_values(|p: String| p@) == spec_common_prefix(
            a@.map_values(|p: String| p@),
            b@.map_values(|p: String| p@),
        ),
{
    let ghost av = a@.map_values(|p: String| p@);
    let ghost bv = b@.map_values(|p: String| p@);
    let mut k: usize = 0;
    while k < a.len() && k < b.len() && str_eq(a[k].as_str(), b[k].as_str())
        invariant
            av == a@.map_values(|p: String| p@),
            bv == b@.map_values(|p: String| p@),
            k <= av.len(),
            k <= bv.len(),
            av.len() == a@.len(),
            bv.len() == b@.len(),
            forall|j: int| 0 <= j < k ==> av[j] == bv[j],
        decreases av.len() - k,
    {
        proof {
            assert(av[k as int] == a@[k as int]@ && bv[k as int] == b@[k as int]@);
        }
        k = k + 1;
    }
    proof {
        lemma_common_prefix_take(av, bv, k as int);
    }
    let mut out: Vec<String> = Vec::new();
    let mut j: usize = 0;
    while j < k
        invariant
            j <= k,
            k <= a@.len(),
            out@.len() == j,
            forall|q: int| 0 <= q < j ==> out@[q]@ == a@[q]@,
        decreases k - j,
    {
        out.push(a[j].clone());
        j = j + 1;
    }
    proof {
        assert(out@.map_values(|p: String| p@) =~= av.take(k as int));
    }
    out
}

/// A collection of discovered record paths, in traversal (or sorted) order.
#[derive(Debug)]
pub struct ReadMap {
    pub map_files: VecDeque<String>,
}

impl ReadMap {
    pub fn from_paths(map_files: VecDeque<String>) -> (r: ReadMap)
        ensures
            r.map_files@ == map_files@,
    {
        ReadMap { map_files }
    }

    pub fn file_count(&self) -> (r: usize)
        ensures
            r == self.map_files@.len(),
    {
        self.map_files.len()
    }

    pub fn is_empty(&self) -> (r: bool)
        ensures
            r == (self.map_files@.len() == 0),
    {
        self.map_files.len() == 0
    }

    /// Hands out the next path in order, consuming it.
    pub fn pop_front(&mut self) -> (r: Option<String>)
        ensures
            old(self).map_files@.len() == 0 ==> r is None && final(self).map_files@
                == old(self).map_files@,
            old(self).map_files@.len() > 0 ==> (r matches Some(p) && p == old(
                self,
            ).map_files@.first() && final(self).map_files@ == old(self).map_files@.drop_first()),
    {
        self.map_files.pop_front()
    }

    /// Attempts to find a common base path for all map records: the longest
    /// shared leading run of directory components.  The trailing file names
    /// never count, so a single path yields its parent directory; no paths
    /// yield nothing.
    pub fn common_base_path(&self) -> (r: Option<String>)
        ensures
            match r {
                Some(s) => spec_common_base(self.map_files@.map_values(|p: String| p@)) == Some(
                    s@,
                ),
                None => self.map_files@.len() == 0,
            },
    {
        let ghost views = self.map_files@.map_values(|p: String| p@);
        let n = self.map_files.len();
        if n == 0 {
            return None;
        }
        let mut comps = split_char(self.map_files[0].as_str(), '/');
        proof {
            crate::strutil::lemma_split_len(views[0], '/');
        }
        comps.pop();
        proof {
            assert(comps@.map_values(|p: String| p@) =~= spec_parent_components(views[0]));
            assert(views.take(1).drop_last() =~= Seq::<Seq<char>>::empty());
            assert(views.take(1)[0] == views[0]);
        }
        let mut k: usize = 1;
        while k < n
            invariant
                1 <= k <= n,
                n == self.map_files@.len(),
                views == self.map_files@.map_values(|p: String| p@),
                comps@.map_values(|p: String| p@) == spec_base_fold(views.take(k as int)),
            decreases n - k,
        {
            let mut pc = split_char(self.map_files[k].as_str(), '/');
            proof {
                crate::strutil::lemma_split_len(views[k as int], '/');
            }
            pc.pop();
            proof {
                assert(pc@.map_values(|p: String| p@) =~= spec_parent_components(
                    views[k as int],
                ));
            }
            let next = common_prefix(&comps, &pc);
            comps = next;
            proof {
                let t = views.take(k + 1);
                assert(t.drop_last() =~= views.take(k as int));
                assert(t.last() == views[k as int]);
                assert(t.len() == k + 1 >= 2);
            }
            k = k + 1;
        }
        proof {
            assert(views.take(n as int) =~= views);
        }
        Some(join_char(&comps, '/'))
    }
}

/// How discovered record files can be ordered before decoding.
#[derive(Clone, Copy, Debug, PartialEq, Eq, Structural)]
pub enum SortingOrder {
    /// Files are organized by name with numbers in the natural order.
    Name,
    /// Files are organized from oldest to newest modification time.
    Time,
}

/// Where two paths fall in the natural (digit-run aware) path order: a
/// negative rank puts the first path first, a positive one puts it second.
/// Named, not written out, because the digit-run grouping it performs is a
/// property of the outside crate.
pub uninterp spec fn natural_order(a: Seq<char>, b: Seq<char>) -> i8;

/// Relies on natord's `compare`: the comparison reads the two strings
/// alone, and every step weighs the two sides symmetrically (character
/// against character, digit run against digit run), so swapping the
/// arguments reverses the result.
#[verifier::external_body]
fn natural_compare(a: &str, b: &str) -> (r: i8)
    ensures
        r == natural_order(a@, b@),
        -1 <= r <= 1,
        natural_order(b@, a@) == -r,
{
    match natord::compare(a, b) {
        std::cmp::Ordering::Less => -1,
        std::cmp::Ordering::Equal => 0,
        std::cmp::Ordering::Greater => 1,
    }
}

/// Each path ranks no later than its successor in the natural order.
pub open spec fn spec_sorted_by_name(s: Seq<String>) -> bool {
    forall|i: int|
        0 <= i && i + 1 < s.len() ==> #[trigger] natural_order(s[i]@, s[i + 1]@) <= 0
}

/// Each entry's timestamp is no later than its successor's.
pub open spec fn spec_sorted_by_time(s: Seq<(String, u64)>) -> bool {
    forall|i: int| 0 <= i && i + 1 < s.len() ==> (#[trigger] s[i]).1 <= s[i + 1].1
}

/// Inserting an element anywhere adds exactly it to the sequence's
/// multiset.
proof fn lemma_insert_to_multiset<A>(s: Seq<A>, j: int, x: A)
    requires
        0 <= j <= s.len(),
    ensures
        s.insert(j, x).to_multiset() =~= s.to_multiset().insert(x),
{
    broadcast use vstd::seq_lib::group_to_multiset_ensures;
    broadcast use vstd::multiset::group_multiset_axioms;

    lemma_multiset_commutative(s.take(j), seq![x] + s.skip(j));
    lemma_multiset_commutative(seq![x], s.skip(j));
    lemma_multiset_commutative(s.take(j), s.skip(j));
    assert(s.insert(j, x) =~= s.take(j) + (seq![x] + s.skip(j)));
    assert(s.take(j) + s.skip(j) =~= s);
    assert(seq![x] =~= Seq::<A>::empty().push(x));
    assert(seq![x].to_multiset() =~= Multiset::<A>::empty().insert(x));
}

/// Sorts the paths ascending by the natural path order: the result holds
/// the same paths, and consecutive paths are in order.
pub fn sort_paths_by_name(paths: &mut Vec<String>)
    ensures
        final(paths)@.to_multiset() == old(paths)@.to_multiset(),
        final(paths)@.len() == old(paths)@.len(),
        spec_sorted_by_name(final(paths)@),
{
    broadcast use vstd::seq_lib::group_to_multiset_ensures;
    broadcast use vstd::multiset::group_multiset_axioms;

    if paths.len() <= 1 {
        return ;
    }
    let ghost orig = paths@;
    let mut i: usize = 1;
    while i < paths.len()
        invariant
            1 <= i <= paths@.len(),
            paths@.len() == orig.len(),
            paths@.to_multiset() == orig.to_multiset(),
            spec_sorted_by_name(paths@.take(i as int)),
        decreases paths@.len() - i,
    {
        let ghost before = paths@;
        let x = paths.remove(i);
        let ghost s1 = paths@;
        let ghost xv = x;
        proof {
            before.to_multiset_ensures();
            assert(s1.take(i as int) =~= before.take(i as int));
            assert(s1 =~= before.remove(i as int));
            assert(before.remove(i as int).to_multiset() =~= before.to_multiset().remove(
                before[i as int],
            ));
            assert(before.contains(before[i as int]));
            assert(before.to_multiset().count(xv) > 0);
        }
        let mut j: usize = 0;
        let mut found = false;
        while !found && j < i
            invariant
                j <= i,
                i < before.len(),
                s1.len() == before.len() - 1,
                paths@ == s1,
                xv == x,
                forall|q: int| 0 <= q < j ==> natural_order(#[trigger] s1[q]@, xv@) <= 0,
                found ==> j < i && natural_order(xv@, s1[j as int]@) < 0,
            decreases i - j + (if found {
                0int
            } else {
                1int
            }),
        {
            let c = natural_compare(paths[j].as_str(), x.as_str());
            if c > 0 {
                found = true;
            } else {
                j = j + 1;
            }
        }
        paths.insert(j, x);
        proof {
            lemma_insert_to_multiset(s1, j as int, xv);
            assert(paths@.to_multiset() =~= before.to_multiset());
            assert(paths@ =~= s1.take(j as int) + seq![xv] + s1.skip(j as int));
            let p_new = paths@.take(i + 1);
            let p_old = before.take(i as int);
            assert forall|q: int| 0 <= q && q + 1 < p_new.len() implies #[trigger] natural_order(
                p_new[q]@,
                p_new[q + 1]@,
            ) <= 0 by {
                assert(p_new[q] == paths@[q] && p_new[q + 1] == paths@[q + 1]);
                if q + 1 < j {
                    assert(paths@[q] == s1[q] && paths@[q + 1] == s1[q + 1]);
                    assert(s1[q] == p_old[q] && s1[q + 1] == p_old[q + 1]);
                    assert(natural_order(p_old[q]@, p_old[q + 1]@) <= 0);
                } else if q + 1 == j {
                    assert(paths@[q] == s1[q] && paths@[q + 1] == xv);
                    assert(natural_order(s1[q]@, xv@) <= 0);
                } else if q == j {
                    assert(paths@[q] == xv && paths@[q + 1] == s1[q]);
                    assert(natural_order(xv@, s1[q]@) < 0);
                } else {
                    let qq = q - 1;
                    assert(paths@[q] == s1[qq] && paths@[q + 1] == s1[qq + 1]);
                    assert(s1[qq] == p_old[qq] && s1[qq + 1] == p_old[qq + 1]);
                    assert(natural_order(p_old[qq]@, p_old[qq + 1]@) <= 0);
                }
            }
        }
        i = i + 1;
    }
    proof {
        assert(paths@.take(i as int) =~= paths@);
    }
}

/// Sorts path/timestamp pairs ascending by timestamp: the result holds the
/// same pairs, and consecutive timestamps never decrease.
pub fn sort_paths_by_time(entries: &mut Vec<(String, u64)>)
    ensures
        final(entries)@.to_multiset() == old(entries)@.to_multiset(),
        final(entries)@.len() == old(entries)@.len(),
        spec_sorted_by_time(final(entries)@),
{
    broadcast use vstd::seq_lib::group_to_multiset_ensures;
    broadcast use vstd::multiset::group_multiset_axioms;

    if entries.len() <= 1 {
        return ;
    }
    let ghost orig = entries@;
    let mut i: usize = 1;
    while i < entries.len()
        invariant
            1 <= i <= entries@.len(),
            entries@.len() == orig.len(),
            entries@.to_multiset() == orig.to_multiset(),
            spec_sorted_by_time(entries@.take(i as int)),
        decreases entries@.len() - i,
    {
        let ghost before = entries@;
        let x = entries.remove(i);
        let ghost s1 = entries@;
        let ghost xv = x;
        proof {
            before.to_multiset_ensures();
            assert(s1.take(i as int) =~= before.take(i as int));
            assert(s1 =~= before.remove(i as int));
            assert(before.remove(i as int).to_multiset() =~= before.to_multiset().remove(
                before[i as int],
            ));
            assert(before.contains(before[i as int]));
            assert(before.to_multiset().count(xv) > 0);
        }
        let mut j: usize = 0;
        let mut found = false;
        while !found && j < i
            invariant
                j <= i,
                i < before.len(),
                s1.len() == before.len() - 1,
                entries@ == s1,
                xv == x,
                forall|q: int| 0 <= q < j ==> (#[trigger] s1[q]).1 <= xv.1,
                found ==> j < i && xv.1 < s1[j as int].1,
            decreases i - j + (if found {
                0int
            } else {
                1int
            }),
        {
            if entries[j].1 > x.1 {
                found = true;
            } else {
                j = j + 1;
            }
        }
        entries.insert(j, x);
        proof {
            lemma_insert_to_multiset(s1, j as int, xv);
            assert(entries@.to_multiset() =~= before.to_multiset());
            assert(entries@ =~= s1.take(j as int) + seq![xv] + s1.skip(j as int));
            let p_new = entries@.take(i + 1);
            let p_old = before.take(i as int);
            assert forall|q: int| 0 <= q && q + 1 < p_new.len() implies (#[trigger] p_new[q]).1
                <= p_new[q + 1].1 by {
                assert(p_new[q] == entries@[q] && p_new[q + 1] == entries@[q + 1]);
                if q + 1 < j {
                    assert(entries@[q] == s1[q] && entries@[q + 1] == s1[q + 1]);
                    assert(s1[q] == p_old[q] && s1[q + 1] == p_old[q + 1]);
                    assert(p_old[q].1 <= p_old[q + 1].1);
                } else if q + 1 == j {
                    assert(entries@[q] == s1[q] && entries@[q + 1] == xv);
                } else if q == j {
                    assert(entries@[q] == xv && entries@[q + 1] == s1[q]);
                } else {
                    let qq = q - 1;
                    assert(entries@[q] == s1[qq] && entries@[q + 1] == s1[qq + 1]);
                    assert(s1[qq] == p_old[qq] && s1[qq + 1] == p_old[qq + 1]);
                    assert(p_old[qq].1 <= p_old[qq + 1].1);
                }
            }
        }
        i = i + 1;
    }
    proof {
        assert(entries@.take(i as int) =~= entries@);
    }
}

} // verus!
