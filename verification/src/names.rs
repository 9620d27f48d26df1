//! Package names and sorted, duplicate-free lists of them.
//!
//! Names are ordered by the bytes of their UTF-8 encoding, the order in which
//! `str` compares. A package set is a list that is strictly ascending in that
//! order, so membership can be decided by binary search.

use vstd::prelude::*;
use vstd::utf8::*;

verus! {

/// Lexicographic "comes before" on byte strings.
pub open spec fn bytes_before(a: Seq<u8>, b: Seq<u8>) -> bool
    decreases a.len(),
{
    if b.len() == 0 {
        false
    } else if a.len() == 0 {
        true
    } else if a[0] != b[0] {
        a[0] < b[0]
    } else {
        bytes_before(a.drop_first(), b.drop_first())
    }
}

/// The order on names: byte-wise on the UTF-8 encoding.
pub open spec fn name_before(a: Seq<char>, b: Seq<char>) -> bool {
    bytes_before(encode_utf8(a), encode_utf8(b))
}

/// How one name stands to another.
#[derive(Clone, Copy, Debug, PartialEq, Eq, Structural)]
pub enum Rank {
    Before,
    Same,
    After,
}

/// `bytes_before` unfolded at a common prefix of length `k`.
proof fn lemma_bytes_before_skip(a: Seq<u8>, b: Seq<u8>, k: int)
    requires
        0 <= k <= a.len(),
        k <= b.len(),
        forall|i: int| 0 <= i < k ==> a[i] == b[i],
    ensures
        bytes_before(a, b) == bytes_before(a.skip(k), b.skip(k)),
    decreases k,
{
    if k == 0 {
        assert(a.skip(0) =~= a);
        assert(b.skip(0) =~= b);
    } else {
        assert(a.drop_first().skip(k - 1) =~= a.skip(k));
        assert(b.drop_first().skip(k - 1) =~= b.skip(k));
        lemma_bytes_before_skip(a.drop_first(), b.drop_first(), k - 1);
    }
}

/// Compares two byte strings lexicographically.
pub fn compare_bytes(a: &[u8], b: &[u8]) -> (r: Rank)
    ensures
        r == Rank::Before <==> bytes_before(a@, b@),
        r == Rank::Same <==> a@ == b@,
        r == Rank::After <==> bytes_before(b@, a@),
{
    let mut i: usize = 0;
    while i < a.len() && i < b.len()
        invariant
            i <= a.len(),
            i <= b.len(),
            forall|j: int| 0 <= j < i ==> a@[j] == b@[j],
        decreases a.len() - i,
    {
        if a[i] != b[i] {
            proof {
                lemma_bytes_before_skip(a@, b@, i as int);
                lemma_bytes_before_skip(b@, a@, i as int);
            }
            if a[i] < b[i] {
                return Rank::Before;
            } else {
                return Rank::After;
            }
        }
        i += 1;
    }
    proof {
        lemma_bytes_before_skip(a@, b@, i as int);
        lemma_bytes_before_skip(b@, a@, i as int);
        if a.len() == b.len() {
            assert(a@ =~= b@);
        }
    }
    if a.len() < b.len() {
        Rank::Before
    } else if a.len() == b.len() {
        Rank::Same
    } else {
        Rank::After
    }
}


/// No byte string comes before itself.
pub proof fn lemma_bytes_before_irreflexive(a: Seq<u8>)
    ensures
        !bytes_before(a, a),
    decreases a.len(),
{
    if a.len() > 0 {
        lemma_bytes_before_irreflexive(a.drop_first());
    }
}

/// The byte order is transitive.
pub proof fn lemma_bytes_before_transitive(a: Seq<u8>, b: Seq<u8>, c: Seq<u8>)
    requires
        bytes_before(a, b),
        bytes_before(b, c),
    ensures
        bytes_before(a, c),
    decreases a.len(),
{
    if a.len() > 0 && a[0] == b[0] && b[0] == c[0] {
        lemma_bytes_before_transitive(a.drop_first(), b.drop_first(), c.drop_first());
    }
}

/// Two different byte strings are ordered one way or the other.
pub proof fn lemma_bytes_before_total(a: Seq<u8>, b: Seq<u8>)
    ensures
        a == b || bytes_before(a, b) || bytes_before(b, a),
    decreases a.len(),
{
    if a.len() == 0 || b.len() == 0 {
        if a.len() == 0 && b.len() == 0 {
            assert(a =~= b);
        }
    } else if a[0] == b[0] {
        lemma_bytes_before_total(a.drop_first(), b.drop_first());
        if a.drop_first() == b.drop_first() {
            assert forall|i: int| 0 <= i < a.len() implies a[i] == b[i] by {
                if i > 0 {
                    assert(a[i] == a.drop_first()[i - 1]);
                    assert(b[i] == b.drop_first()[i - 1]);
                }
            }
            assert(a.len() == a.drop_first().len() + 1);
            assert(b.len() == b.drop_first().len() + 1);
            assert(a =~= b);
        }
    }
}

/// No name comes before itself.
pub proof fn lemma_name_before_irreflexive(a: Seq<char>)
    ensures
        !name_before(a, a),
{
    lemma_bytes_before_irreflexive(encode_utf8(a));
}

/// The name order is transitive.
pub proof fn lemma_name_before_transitive(a: Seq<char>, b: Seq<char>, c: Seq<char>)
    requires
        name_before(a, b),
        name_before(b, c),
    ensures
        name_before(a, c),
{
    lemma_bytes_before_transitive(encode_utf8(a), encode_utf8(b), encode_utf8(c));
}

/// Two different names are ordered one way or the other: the order is total.
pub proof fn lemma_name_before_total(a: Seq<char>, b: Seq<char>)
    ensures
        a == b || name_before(a, b) || name_before(b, a),
{
    lemma_bytes_before_total(encode_utf8(a), encode_utf8(b));
    if encode_utf8(a) == encode_utf8(b) {
        encode_utf8_decode_utf8(a);
        encode_utf8_decode_utf8(b);
    }
}

/// Of two names at most one comes before the other.
pub proof fn lemma_name_before_asymmetric(a: Seq<char>, b: Seq<char>)
    requires
        name_before(a, b),
    ensures
        !name_before(b, a),
        a != b,
{
    lemma_name_before_irreflexive(a);
    if name_before(b, a) {
        lemma_name_before_transitive(a, b, a);
    }
}

/// Compares two names in the name order.
pub fn compare_names(a: &str, b: &str) -> (r: Rank)
    ensures
        r == Rank::Before <==> name_before(a@, b@),
        r == Rank::Same <==> a@ == b@,
        r == Rank::After <==> name_before(b@, a@),
{
    proof {
        if encode_utf8(a@) == encode_utf8(b@) {
            encode_utf8_decode_utf8(a@);
            encode_utf8_decode_utf8(b@);
        }
    }
    compare_bytes(a.as_bytes(), b.as_bytes())
}

/// A list in ascending order, repetitions allowed.
pub open spec fn is_sorted(s: Seq<Seq<char>>) -> bool {
    forall|i: int, j: int| 0 <= i < j < s.len() ==> !name_before(#[trigger] s[j], #[trigger] s[i])
}

/// A package set: a list in strictly ascending order, so without repetitions.
pub open spec fn is_package_set(s: Seq<Seq<char>>) -> bool {
    forall|i: int, j: int| 0 <= i < j < s.len() ==> name_before(#[trigger] s[i], #[trigger] s[j])
}

/// A package set is in particular sorted.
pub proof fn lemma_package_set_is_sorted(s: Seq<Seq<char>>)
    requires
        is_package_set(s),
    ensures
        is_sorted(s),
{
    assert forall|i: int, j: int| 0 <= i < j < s.len() implies !name_before(
        #[trigger] s[j],
        #[trigger] s[i],
    ) by {
        lemma_name_before_asymmetric(s[i], s[j]);
    }
}

/// Looks a name up in a sorted list by binary search.
///
/// `Ok(i)` gives a position that holds the name. `Err(i)` says that the list
/// does not hold it, and gives the position at which it would keep the list
/// sorted: everything to the left comes before the name, everything from there
/// on after it.
pub fn find_name(list: &[String], name: &str) -> (r: Result<usize, usize>)
    requires
        is_sorted(list.deep_view()),
    ensures
        r is Ok <==> list.deep_view().contains(name@),
        match r {
            Ok(i) => i < list.len() && list.deep_view()[i as int] == name@,
            Err(i) => {
                &&& i <= list.len()
                &&& forall|j: int| 0 <= j < i ==> name_before(#[trigger] list.deep_view()[j], name@)
                &&& forall|j: int|
                    i <= j < list.len() ==> name_before(name@, #[trigger] list.deep_view()[j])
            },
        },
{
    let ghost names = list.deep_view();
    let mut lo: usize = 0;
    let mut hi: usize = list.len();
    while lo < hi
        invariant
            names == list.deep_view(),
            is_sorted(names),
            lo <= hi <= list.len(),
            forall|j: int| 0 <= j < lo ==> name_before(#[trigger] names[j], name@),
            forall|j: int| hi <= j < names.len() ==> name_before(name@, #[trigger] names[j]),
        decreases hi - lo,
    {
        let mid = lo + (hi - lo) / 2;
        assert(names[mid as int] == list@[mid as int]@);
        match compare_names(list[mid].as_str(), name) {
            Rank::Same => {
                return Ok(mid);
            },
            Rank::Before => {
                proof {
                    assert forall|j: int| 0 <= j < mid + 1 implies name_before(
                        #[trigger] names[j],
                        name@,
                    ) by {
                        if j < mid {
                            lemma_name_before_total(names[j], names[mid as int]);
                            if names[j] != names[mid as int] {
                                lemma_name_before_transitive(names[j], names[mid as int], name@);
                            }
                        }
                    }
                }
                lo = mid + 1;
            },
            Rank::After => {
                proof {
                    assert forall|j: int| mid <= j < names.len() implies name_before(
                        name@,
                        #[trigger] names[j],
                    ) by {
                        if j > mid {
                            lemma_name_before_total(names[mid as int], names[j]);
                            if names[j] != names[mid as int] {
                                lemma_name_before_transitive(name@, names[mid as int], names[j]);
                            }
                        }
                    }
                }
                hi = mid;
            },
        }
    }
    proof {
        if names.contains(name@) {
            let k = choose|k: int| 0 <= k < names.len() && names[k] == name@;
            lemma_name_before_irreflexive(name@);
        }
    }
    Err(lo)
}


/// A package set with the name `x` put in at position `pos` is a package set
/// again, if `pos` is where `x` belongs.
proof fn lemma_insert_keeps_package_set(s: Seq<Seq<char>>, pos: int, x: Seq<char>)
    requires
        is_package_set(s),
        0 <= pos <= s.len(),
        forall|j: int| 0 <= j < pos ==> name_before(#[trigger] s[j], x),
        forall|j: int| pos <= j < s.len() ==> name_before(x, #[trigger] s[j]),
    ensures
        is_package_set(s.insert(pos, x)),
        s.insert(pos, x).to_set() == s.to_set().insert(x),
{
    let t = s.insert(pos, x);
    assert forall|i: int, j: int| 0 <= i < j < t.len() implies name_before(
        #[trigger] t[i],
        #[trigger] t[j],
    ) by {
        let a = if i < pos { i } else { i - 1 };
        let b = if j < pos { j } else { j - 1 };
        if i != pos && j != pos {
            assert(t[i] == s[a]);
            assert(t[j] == s[b]);
        } else if i == pos {
            assert(t[j] == s[b]);
        } else {
            assert(t[i] == s[a]);
        }
    }
    assert forall|y: Seq<char>| t.to_set().contains(y) <==> s.to_set().insert(x).contains(y) by {
        if t.contains(y) {
            let k = choose|k: int| 0 <= k < t.len() && t[k] == y;
            if k < pos {
                assert(s[k] == y);
            } else if k > pos {
                assert(s[k - 1] == y);
            }
        }
        if s.contains(y) {
            let k = choose|k: int| 0 <= k < s.len() && s[k] == y;
            if k < pos {
                assert(t[k] == y);
            } else {
                assert(t[k + 1] == y);
            }
        }
        if y == x {
            assert(t[pos] == y);
        }
    }
    assert(t.to_set() =~= s.to_set().insert(x));
}

/// The names that a list holds again: each place of the list at which a
/// name stands that stood at an earlier place, in the order of these places.
pub open spec fn repeated_names(s: Seq<Seq<char>>) -> Seq<Seq<char>>
    decreases s.len(),
{
    if s.len() == 0 {
        Seq::empty()
    } else {
        let before = repeated_names(s.drop_last());
        if s.drop_last().contains(s.last()) {
            before.push(s.last())
        } else {
            before
        }
    }
}

/// Sorts a list of names and removes what occurs twice, and gives back the
/// names that were removed, so that they can be reported.
///
/// Afterwards the list is the package set of the names that it held before.
/// Each name is put in its place by binary search, so a list that is sorted
/// already is only walked through.
pub fn cleanup_reporting_duplicates(l: &mut Vec<String>) -> (repeated: Vec<String>)
    ensures
        is_package_set(final(l).deep_view()),
        final(l).deep_view().to_set() == old(l).deep_view().to_set(),
        final(l).deep_view() == package_set_of(old(l).deep_view().to_set()),
        repeated.deep_view() == repeated_names(old(l).deep_view()),
{
    let mut out: Vec<String> = Vec::new();
    let mut repeated: Vec<String> = Vec::new();
    let mut i: usize = 0;
    assert(l.deep_view().take(0).to_set() =~= out.deep_view().to_set());
    assert(repeated.deep_view() =~= repeated_names(l.deep_view().take(0)));
    while i < l.len()
        invariant
            *l == *old(l),
            i <= l.len(),
            is_package_set(out.deep_view()),
            out.deep_view().to_set() == l.deep_view().take(i as int).to_set(),
            repeated.deep_view() == repeated_names(l.deep_view().take(i as int)),
        decreases l.len() - i,
    {
        let ghost before = out.deep_view();
        let ghost seen = l.deep_view().take(i as int);
        let ghost again = repeated.deep_view();
        let ghost name = l.deep_view()[i as int];
        proof {
            lemma_package_set_is_sorted(before);
            assert(l.deep_view().take(i + 1) =~= seen.push(name));
            assert(seen.push(name).drop_last() =~= seen);
            seen.lemma_push_to_set_commute(name);
            assert(before.contains(name) == before.to_set().contains(name));
            assert(seen.contains(name) == seen.to_set().contains(name));
        }
        match find_name(out.as_slice(), l[i].as_str()) {
            Ok(_) => {
                repeated.push(l[i].clone());
                assert(repeated.deep_view() =~= again.push(name));
                assert(before.to_set().insert(name) =~= before.to_set());
            },
            Err(pos) => {
                out.insert(pos, l[i].clone());
                proof {
                    assert(out.deep_view() =~= before.insert(pos as int, name));
                    lemma_insert_keeps_package_set(before, pos as int, name);
                }
            },
        }
        i += 1;
    }
    assert(l.deep_view().take(i as int) =~= l.deep_view());
    proof {
        lemma_package_set_of(out.deep_view());
    }
    *l = out;
    repeated
}

/// Sorts a list of names and removes what occurs twice.
///
/// Afterwards the list is the package set of the names that it held before.
pub fn cleanup_package_list(l: &mut Vec<String>)
    ensures
        is_package_set(final(l).deep_view()),
        final(l).deep_view().to_set() == old(l).deep_view().to_set(),
        final(l).deep_view() == package_set_of(old(l).deep_view().to_set()),
{
    let _ = cleanup_reporting_duplicates(l);
}

/// Two package sets that hold the same names are the same list.
pub proof fn lemma_package_set_unique(a: Seq<Seq<char>>, b: Seq<Seq<char>>)
    requires
        is_package_set(a),
        is_package_set(b),
        a.to_set() == b.to_set(),
    ensures
        a == b,
    decreases a.len(),
{
    if a.len() == 0 {
        if b.len() > 0 {
            assert(b.contains(b[0]));
            assert(b.to_set().contains(b[0]));
            assert(a.contains(b[0]));
        }
        assert(a =~= b);
    } else {
        let x = a.last();
        assert(a.contains(x));
        assert(a.to_set().contains(x));
        assert(b.contains(x));
        let y = b.last();
        assert(b.contains(y));
        assert(b.to_set().contains(y));
        assert(a.contains(y));
        let kx = choose|k: int| 0 <= k < b.len() && b[k] == x;
        let ky = choose|k: int| 0 <= k < a.len() && a[k] == y;
        if x != y {
            // x would come before y in b, and y before x in a
            lemma_name_before_asymmetric(b[kx], b[b.len() - 1]);
            assert(name_before(a[ky], a[a.len() - 1]));
        }
        let a0 = a.drop_last();
        let b0 = b.drop_last();
        assert forall|z: Seq<char>| a0.to_set().contains(z) <==> b0.to_set().contains(z) by {
            if a0.contains(z) {
                let k = choose|k: int| 0 <= k < a0.len() && a0[k] == z;
                assert(a[k] == z);
                lemma_name_before_asymmetric(a[k], a[a.len() - 1]);
                assert(a.contains(z));
                assert(a.to_set().contains(z));
                assert(b.contains(z));
                let m = choose|m: int| 0 <= m < b.len() && b[m] == z;
                assert(b0[m] == z);
            }
            if b0.contains(z) {
                let k = choose|k: int| 0 <= k < b0.len() && b0[k] == z;
                assert(b[k] == z);
                lemma_name_before_asymmetric(b[k], b[b.len() - 1]);
                assert(b.contains(z));
                assert(b.to_set().contains(z));
                assert(a.contains(z));
                let m = choose|m: int| 0 <= m < a.len() && a[m] == z;
                assert(a0[m] == z);
            }
        }
        assert(a0.to_set() =~= b0.to_set());
        lemma_package_set_unique(a0, b0);
        assert(a =~= a0.push(x));
        assert(b =~= b0.push(y));
    }
}


/// Joins two lists into one, cloning every element.
pub fn concat<T: Clone>(l1: &[T], l2: &[T]) -> (r: Vec<T>)
    ensures
        r@.len() == l1@.len() + l2@.len(),
        forall|i: int| 0 <= i < l1@.len() ==> cloned::<T>(l1@[i], #[trigger] r@[i]),
        forall|i: int| 0 <= i < l2@.len() ==> cloned::<T>(l2@[i], #[trigger] r@[l1@.len() + i]),
{
    let mut r: Vec<T> = Vec::new();
    r.extend_from_slice(l1);
    r.extend_from_slice(l2);
    r
}

/// For names a clone is the name itself: what `concat` returns for two lists
/// of names is the first list followed by the second.
pub proof fn lemma_concat_names(l1: Seq<String>, l2: Seq<String>, r: Seq<String>)
    requires
        r.len() == l1.len() + l2.len(),
        forall|i: int| 0 <= i < l1.len() ==> cloned::<String>(l1[i], #[trigger] r[i]),
        forall|i: int| 0 <= i < l2.len() ==> cloned::<String>(l2[i], #[trigger] r[l1.len() + i]),
    ensures
        r == l1 + l2,
{
    assert forall|i: int| 0 <= i < l1.len() implies r[i] == l1[i] by {
        assert(cloned::<String>(l1[i], r[i]));
    }
    assert forall|i: int| 0 <= i < l2.len() implies r[l1.len() + i] == l2[i] by {
        assert(cloned::<String>(l2[i], r[l1.len() + i]));
    }
    assert(r =~= l1 + l2);
}

/// The test "does not occur in `b`".
pub open spec fn absent_from(b: Seq<Seq<char>>) -> spec_fn(Seq<char>) -> bool {
    |n: Seq<char>| !b.contains(n)
}

/// The test "occurs in `b`".
pub open spec fn present_in(b: Seq<Seq<char>>) -> spec_fn(Seq<char>) -> bool {
    |n: Seq<char>| b.contains(n)
}

/// The names of `a` that `b` does not hold, in the order and number in which
/// `a` holds them.
pub open spec fn only_in_first(a: Seq<Seq<char>>, b: Seq<Seq<char>>) -> Seq<Seq<char>> {
    a.filter(absent_from(b))
}

/// The names of `a` that `b` holds too, in the order and number in which `a`
/// holds them.
pub open spec fn in_both(a: Seq<Seq<char>>, b: Seq<Seq<char>>) -> Seq<Seq<char>> {
    a.filter(present_in(b))
}

/// What a filter keeps of a list: the names of the list that pass the test.
pub proof fn lemma_filter_members(s: Seq<Seq<char>>, p: spec_fn(Seq<char>) -> bool)
    ensures
        forall|x: Seq<char>| #[trigger] s.filter(p).contains(x) <==> s.contains(x) && p(x),
    decreases s.len(),
{
    reveal(Seq::filter);
    if s.len() > 0 {
        let init = s.drop_last();
        let last = s.last();
        lemma_filter_members(init, p);
        assert forall|x: Seq<char>| #[trigger] s.filter(p).contains(x) <==> s.contains(x) && p(
            x,
        ) by {
            let f = s.filter(p);
            let g = init.filter(p);
            if f.contains(x) {
                let k = choose|k: int| 0 <= k < f.len() && f[k] == x;
                if p(last) && k == f.len() - 1 {
                    assert(s[s.len() - 1] == x);
                } else {
                    assert(g[k] == x);
                    assert(g.contains(x));
                    let m = choose|m: int| 0 <= m < init.len() && init[m] == x;
                    assert(s[m] == x);
                }
            }
            if s.contains(x) && p(x) {
                let k = choose|k: int| 0 <= k < s.len() && s[k] == x;
                if k == s.len() - 1 {
                    assert(f[f.len() - 1] == x);
                } else {
                    assert(init[k] == x);
                    assert(g.contains(x));
                    let m = choose|m: int| 0 <= m < g.len() && g[m] == x;
                    assert(f[m] == x);
                }
            }
        }
    }
}

/// What a filter keeps of a package set is a package set.
pub proof fn lemma_filter_keeps_package_set(s: Seq<Seq<char>>, p: spec_fn(Seq<char>) -> bool)
    requires
        is_package_set(s),
    ensures
        is_package_set(s.filter(p)),
    decreases s.len(),
{
    reveal(Seq::filter);
    if s.len() > 0 {
        let init = s.drop_last();
        let last = s.last();
        let f = s.filter(p);
        let g = init.filter(p);
        assert(is_package_set(init)) by {
            assert forall|i: int, j: int| 0 <= i < j < init.len() implies name_before(
                #[trigger] init[i],
                #[trigger] init[j],
            ) by {
                assert(init[i] == s[i] && init[j] == s[j]);
            }
        }
        lemma_filter_keeps_package_set(init, p);
        lemma_filter_members(init, p);
        assert forall|i: int, j: int| 0 <= i < j < f.len() implies name_before(
            #[trigger] f[i],
            #[trigger] f[j],
        ) by {
            if p(last) && j == f.len() - 1 {
                assert(g[i] == f[i]);
                assert(g.contains(f[i]));
                assert(init.contains(f[i]));
                let m = choose|m: int| 0 <= m < init.len() && init[m] == f[i];
                assert(s[m] == f[i]);
                assert(name_before(s[m], s[s.len() - 1]));
            } else {
                assert(g[i] == f[i] && g[j] == f[j]);
            }
        }
    }
}

/// As sets, `only_in_first` is the difference and `in_both` the intersection.
pub proof fn lemma_list_operations_as_sets(a: Seq<Seq<char>>, b: Seq<Seq<char>>)
    ensures
        only_in_first(a, b).to_set() == a.to_set().difference(b.to_set()),
        in_both(a, b).to_set() == a.to_set().intersect(b.to_set()),
        is_package_set(a) ==> is_package_set(only_in_first(a, b)) && is_package_set(in_both(a, b)),
{
    lemma_filter_members(a, absent_from(b));
    lemma_filter_members(a, present_in(b));
    assert(only_in_first(a, b).to_set() =~= a.to_set().difference(b.to_set()));
    assert(in_both(a, b).to_set() =~= a.to_set().intersect(b.to_set()));
    if is_package_set(a) {
        lemma_filter_keeps_package_set(a, absent_from(b));
        lemma_filter_keeps_package_set(a, present_in(b));
    }
}

/// The names of the first list that the second, a sorted list, does not hold.
pub fn compare_lists_only_in_first(l1: &[String], l2: &[String]) -> (r: Vec<String>)
    requires
        is_sorted(l2.deep_view()),
    ensures
        r.deep_view() == only_in_first(l1.deep_view(), l2.deep_view()),
{
    let ghost a = l1.deep_view();
    let ghost b = l2.deep_view();
    let mut r: Vec<String> = Vec::new();
    let mut i: usize = 0;
    proof {
        reveal(Seq::filter);
        assert(a.take(0).filter(absent_from(b)) =~= r.deep_view());
    }
    while i < l1.len()
        invariant
            a == l1.deep_view(),
            b == l2.deep_view(),
            is_sorted(b),
            i <= l1.len(),
            r.deep_view() == only_in_first(a.take(i as int), b),
        decreases l1.len() - i,
    {
        let ghost kept = r.deep_view();
        proof {
            assert(a.take(i + 1) =~= a.take(i as int).push(a[i as int]));
            a.take(i as int).lemma_filter_push(a[i as int], absent_from(b));
        }
        if find_name(l2, l1[i].as_str()).is_err() {
            r.push(l1[i].clone());
            assert(r.deep_view() =~= kept.push(a[i as int]));
        }
        i += 1;
    }
    assert(a.take(i as int) =~= a);
    r
}

/// The names of the first list that the second, a sorted list, holds too.
pub fn compare_lists_in_both(l1: &[String], l2: &[String]) -> (r: Vec<String>)
    requires
        is_sorted(l2.deep_view()),
    ensures
        r.deep_view() == in_both(l1.deep_view(), l2.deep_view()),
{
    let ghost a = l1.deep_view();
    let ghost b = l2.deep_view();
    let mut r: Vec<String> = Vec::new();
    let mut i: usize = 0;
    proof {
        reveal(Seq::filter);
        assert(a.take(0).filter(present_in(b)) =~= r.deep_view());
    }
    while i < l1.len()
        invariant
            a == l1.deep_view(),
            b == l2.deep_view(),
            is_sorted(b),
            i <= l1.len(),
            r.deep_view() == in_both(a.take(i as int), b),
        decreases l1.len() - i,
    {
        let ghost kept = r.deep_view();
        proof {
            assert(a.take(i + 1) =~= a.take(i as int).push(a[i as int]));
            a.take(i as int).lemma_filter_push(a[i as int], present_in(b));
        }
        if find_name(l2, l1[i].as_str()).is_ok() {
            r.push(l1[i].clone());
            assert(r.deep_view() =~= kept.push(a[i as int]));
        }
        i += 1;
    }
    assert(a.take(i as int) =~= a);
    r
}


/// The package set of the given names: the list that holds exactly these
/// names, in ascending order. `lemma_package_set_of` shows that it is the one
/// such list wherever there is one.
pub open spec fn package_set_of(names: Set<Seq<char>>) -> Seq<Seq<char>> {
    choose|s: Seq<Seq<char>>| is_package_set(s) && s.to_set() == names
}

/// A package set is the package set of its names.
pub proof fn lemma_package_set_of(s: Seq<Seq<char>>)
    requires
        is_package_set(s),
    ensures
        package_set_of(s.to_set()) == s,
{
    let t = package_set_of(s.to_set());
    assert(is_package_set(t) && t.to_set() == s.to_set());
    lemma_package_set_unique(t, s);
}

/// A copy of a list of names.
pub fn clone_names(list: &[String]) -> (r: Vec<String>)
    ensures
        r@ == list@,
        r.deep_view() == list.deep_view(),
{
    let mut r: Vec<String> = Vec::new();
    r.extend_from_slice(list);
    assert forall|i: int| 0 <= i < list@.len() implies r@[i] == list@[i] by {
        assert(cloned::<String>(list@[i], r@[i]));
    }
    assert(r@ =~= list@);
    assert(r.deep_view() =~= list.deep_view());
    r
}

/// Two tests that agree on every name keep the same names of a list.
pub proof fn lemma_filter_same_test(
    s: Seq<Seq<char>>,
    p: spec_fn(Seq<char>) -> bool,
    q: spec_fn(Seq<char>) -> bool,
)
    requires
        forall|x: Seq<char>| #[trigger] p(x) == q(x),
    ensures
        s.filter(p) == s.filter(q),
    decreases s.len(),
{
    reveal(Seq::filter);
    if s.len() > 0 {
        lemma_filter_same_test(s.drop_last(), p, q);
    }
}

/// `only_in_first` and `in_both` ask of the second list only which names it
/// holds.
pub proof fn lemma_second_list_as_set(a: Seq<Seq<char>>, b: Seq<Seq<char>>, c: Seq<Seq<char>>)
    requires
        b.to_set() == c.to_set(),
    ensures
        only_in_first(a, b) == only_in_first(a, c),
        in_both(a, b) == in_both(a, c),
{
    assert forall|x: Seq<char>| #[trigger] absent_from(b)(x) == absent_from(c)(x) by {
        assert(b.to_set().contains(x) == b.contains(x));
        assert(c.to_set().contains(x) == c.contains(x));
        assert(absent_from(b)(x) == !b.contains(x));
        assert(absent_from(c)(x) == !c.contains(x));
    }
    assert forall|x: Seq<char>| #[trigger] present_in(b)(x) == present_in(c)(x) by {
        assert(b.to_set().contains(x) == b.contains(x));
        assert(c.to_set().contains(x) == c.contains(x));
        assert(present_in(b)(x) == b.contains(x));
        assert(present_in(c)(x) == c.contains(x));
    }
    lemma_filter_same_test(a, absent_from(b), absent_from(c));
    lemma_filter_same_test(a, present_in(b), present_in(c));
}

/// A sorted list of package names without repetitions.
#[derive(Debug)]
pub struct PackageSet {
    names: Vec<String>,
}

impl View for PackageSet {
    type V = Seq<Seq<char>>;

    /// The names of the set, in ascending order.
    closed spec fn view(&self) -> Seq<Seq<char>> {
        self.names.deep_view()
    }
}

impl PackageSet {
    #[verifier::type_invariant]
    spec fn ascending(self) -> bool {
        is_package_set(self.names.deep_view())
    }

    /// The set without names.
    pub fn new() -> (r: Self)
        ensures
            r@ == Seq::<Seq<char>>::empty(),
    {
        let names: Vec<String> = Vec::new();
        assert(names.deep_view() =~= Seq::<Seq<char>>::empty());
        PackageSet { names }
    }

    /// The set of the names of a list, whatever its order and however often
    /// it holds a name.
    pub fn from_list(list: Vec<String>) -> (r: Self)
        ensures
            r@ == package_set_of(list.deep_view().to_set()),
            is_package_set(r@),
            r@.to_set() == list.deep_view().to_set(),
    {
        let mut names = list;
        cleanup_package_list(&mut names);
        PackageSet { names }
    }

    /// The names in ascending order.
    pub fn as_slice(&self) -> (r: &[String])
        ensures
            r.deep_view() == self@,
            is_package_set(self@),
    {
        proof {
            use_type_invariant(self);
        }
        self.names.as_slice()
    }

    /// The names in ascending order, as a list of their own.
    pub fn to_vec(&self) -> (r: Vec<String>)
        ensures
            r.deep_view() == self@,
            is_package_set(self@),
    {
        proof {
            use_type_invariant(self);
        }
        let r = self.names.clone();
        assert(r.deep_view() =~= self.names.deep_view()) by {
            assert forall|i: int| 0 <= i < r@.len() implies r@[i] == self.names@[i] by {
                assert(cloned::<String>(self.names@[i], r@[i]));
            }
        }
        r
    }

    /// The number of names.
    pub fn len(&self) -> (r: usize)
        ensures
            r == self@.len(),
    {
        self.names.len()
    }

    /// Tells whether the set holds no name.
    pub fn is_empty(&self) -> (r: bool)
        ensures
            r == (self@.len() == 0),
    {
        self.names.len() == 0
    }

    /// Tells whether the set holds the name.
    pub fn contains(&self, name: &str) -> (r: bool)
        ensures
            r == self@.contains(name@),
    {
        proof {
            use_type_invariant(self);
            lemma_package_set_is_sorted(self@);
        }
        find_name(self.names.as_slice(), name).is_ok()
    }

    /// The names of this set that the other does not hold.
    pub fn difference(&self, other: &PackageSet) -> (r: PackageSet)
        ensures
            r@ == only_in_first(self@, other@),
    {
        proof {
            use_type_invariant(self);
            use_type_invariant(other);
            lemma_package_set_is_sorted(other@);
            lemma_list_operations_as_sets(self@, other@);
        }
        PackageSet { names: compare_lists_only_in_first(self.names.as_slice(), other.names.as_slice()) }
    }

    /// The names of this set that the other holds too.
    pub fn intersection(&self, other: &PackageSet) -> (r: PackageSet)
        ensures
            r@ == in_both(self@, other@),
    {
        proof {
            use_type_invariant(self);
            use_type_invariant(other);
            lemma_package_set_is_sorted(other@);
            lemma_list_operations_as_sets(self@, other@);
        }
        PackageSet { names: compare_lists_in_both(self.names.as_slice(), other.names.as_slice()) }
    }
}

} // verus!
