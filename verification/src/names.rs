//! Canonical package-name lists and the diff engine.
//!
//! A package list is abstracted as a sequence of character sequences
//! (`Seq<Seq<char>>`, the deep view of a `Vec<String>`). Its canonical form
//! is strictly sorted: ascending lexicographic order with duplicates
//! collapsed. The diff engine keeps exactly the desired names that are not
//! installed, in their original order.

use vstd::prelude::*;
use vstd::string::StringExecFns;
use crate::order::{lex_lt, str_lt, lemma_lex_trichotomy, lemma_lex_transitive};

verus! {

broadcast use vstd::seq_lib::group_seq_properties;

/// The list is in canonical form: strictly ascending, hence duplicate-free.
pub open spec fn sorted_names(v: Seq<Seq<char>>) -> bool {
    forall|i: int, j: int| 0 <= i < j < v.len() ==> lex_lt(#[trigger] v[i], #[trigger] v[j])
}

/// Both lists carry exactly the same set of names.
pub open spec fn same_names(a: Seq<Seq<char>>, b: Seq<Seq<char>>) -> bool {
    forall|x: Seq<char>|
        #![trigger a.contains(x)]
        #![trigger b.contains(x)]
        a.contains(x) == b.contains(x)
}

/// No name occurs twice in the list.
pub open spec fn distinct_names(v: Seq<Seq<char>>) -> bool {
    forall|m: int, n: int| 0 <= m < n < v.len() ==> v[m] != v[n]
}

/// Every name of `a` also occurs in `b`.
pub open spec fn names_subset(a: Seq<Seq<char>>, b: Seq<Seq<char>>) -> bool {
    forall|x: Seq<char>|
        #![trigger a.contains(x)]
        #![trigger b.contains(x)]
        a.contains(x) ==> b.contains(x)
}

/// A canonical list has no duplicates.
pub proof fn lemma_sorted_names_distinct(v: Seq<Seq<char>>)
    requires
        sorted_names(v),
    ensures
        distinct_names(v),
{
    assert forall|m: int, n: int| 0 <= m < n < v.len() implies v[m] != v[n] by {
        lemma_lex_trichotomy(v[m], v[n]);
    }
}

/// The names of `d` that do not occur in `i`, in the order of `d`.
pub open spec fn diff_names(d: Seq<Seq<char>>, i: Seq<Seq<char>>) -> Seq<Seq<char>>
    decreases d.len(),
{
    if d.len() == 0 {
        Seq::empty()
    } else if i.contains(d[0]) {
        diff_names(d.drop_first(), i)
    } else {
        seq![d[0]] + diff_names(d.drop_first(), i)
    }
}

/// A name is in a list exactly when it is its head or occurs in its tail.
pub proof fn lemma_contains_head_or_tail(d: Seq<Seq<char>>, x: Seq<char>)
    requires
        d.len() > 0,
    ensures
        d.contains(x) <==> (x == d[0] || d.drop_first().contains(x)),
{
    if d.contains(x) {
        let k = choose|k: int| 0 <= k < d.len() && d[k] == x;
        if k > 0 {
            assert(d.drop_first()[k - 1] == x);
        }
    }
    if d.drop_first().contains(x) {
        let k = choose|k: int| 0 <= k < d.drop_first().len() && d.drop_first()[k] == x;
        assert(d[k + 1] == x);
    }
}

/// Membership in the diff: exactly the desired names that are not installed.
pub proof fn lemma_diff_names_membership(d: Seq<Seq<char>>, i: Seq<Seq<char>>, x: Seq<char>)
    ensures
        diff_names(d, i).contains(x) <==> (d.contains(x) && !i.contains(x)),
    decreases d.len(),
{
    if d.len() == 0 {
    } else {
        lemma_diff_names_membership(d.drop_first(), i, x);
        lemma_contains_head_or_tail(d, x);
    }
}

/// The missing set is always a subset of the desired list.
pub proof fn lemma_diff_names_subset(d: Seq<Seq<char>>, i: Seq<Seq<char>>)
    ensures
        names_subset(diff_names(d, i), d),
{
    assert forall|x: Seq<char>| diff_names(d, i).contains(x) implies d.contains(x) by {
        lemma_diff_names_membership(d, i, x);
    }
}

/// The diff never grows beyond the desired list.
pub proof fn lemma_diff_names_len(d: Seq<Seq<char>>, i: Seq<Seq<char>>)
    ensures
        diff_names(d, i).len() <= d.len(),
    decreases d.len(),
{
    if d.len() > 0 {
        lemma_diff_names_len(d.drop_first(), i);
    }
}

/// Inserting a name anywhere yields the same name set as appending it.
proof fn lemma_insert_contains(v: Seq<Seq<char>>, j: int, s: Seq<char>, x: Seq<char>)
    requires
        0 <= j <= v.len(),
    ensures
        v.insert(j, s).contains(x) <==> (v.contains(x) || x == s),
{
    v.insert_ensures(j, s);
    let w = v.insert(j, s);
    if v.contains(x) {
        let k = choose|k: int| 0 <= k < v.len() && v[k] == x;
        if k < j {
            assert(w[k] == x);
        } else {
            assert(w[k + 1] == x);
        }
    }
    if x == s {
        assert(w[j] == x);
    }
    if w.contains(x) {
        let k = choose|k: int| 0 <= k < w.len() && w[k] == x;
        if k < j {
            assert(v[k] == x);
        } else if k > j {
            assert(v[k - 1] == x);
        }
    }
}

/// Inserts a name into a canonical list, keeping it canonical; the name set
/// grows by exactly the new name.
pub fn insert_name(r: &mut Vec<String>, s: String)
    requires
        sorted_names(old(r).deep_view()),
    ensures
        sorted_names(final(r).deep_view()),
        same_names(final(r).deep_view(), old(r).deep_view().push(s@)),
{
    let ghost orig = old(r).deep_view();
    let mut j: usize = 0;
    while j < r.len() && str_lt(r[j].as_str(), s.as_str())
        invariant
            j <= r.len(),
            orig == r.deep_view(),
            forall|m: int| 0 <= m < j ==> lex_lt(orig[m], s@),
        decreases r.len() - j,
    {
        j = j + 1;
    }
    if j < r.len() && r[j] == s {
        proof {
            assert(orig[j as int] == s@);
            assert(orig.contains(s@));
            assert forall|x: Seq<char>| orig.push(s@).contains(x) implies orig.contains(x) by {}
        }
        return;
    }
    proof {
        if j < r.len() {
            lemma_lex_trichotomy(orig[j as int], s@);
            assert(lex_lt(s@, orig[j as int]));
        }
    }
    let ghost old_vec = r@;
    r.insert(j, s);
    proof {
        old_vec.insert_ensures(j as int, s);
        orig.insert_ensures(j as int, s@);
        let fdv = r.deep_view();
        let idv = orig.insert(j as int, s@);
        assert(fdv =~= idv) by {
            assert forall|m: int| 0 <= m < fdv.len() implies fdv[m] == idv[m] by {
                if m < j {
                    assert(r@[m] == old_vec[m]);
                } else if m == j {
                    assert(r@[m]@ == s@);
                } else {
                    assert(r@[m] == old_vec[m - 1]);
                    assert(idv[m] == orig[m - 1]);
                }
            }
        }
        assert(sorted_names(fdv)) by {
            assert forall|m: int, n: int| 0 <= m < n < idv.len() implies lex_lt(idv[m], idv[n]) by {
                if n < j {
                    assert(lex_lt(orig[m], orig[n]));
                } else if n == j {
                    assert(lex_lt(orig[m], s@));
                } else if m < j {
                    if n > j {
                        assert(lex_lt(orig[m], orig[n - 1]));
                    }
                } else if m == j {
                    assert(lex_lt(s@, orig[j as int]));
                    if n - 1 > j {
                        lemma_lex_transitive(s@, orig[j as int], orig[n - 1]);
                    }
                } else {
                    assert(lex_lt(orig[m - 1], orig[n - 1]));
                }
            }
        }
        assert forall|x: Seq<char>|
            fdv.contains(x) == orig.push(s@).contains(x) by {
            lemma_insert_contains(orig, j as int, s@, x);
        }
    }
}

/// Brings a list of names into canonical form: sorted ascending, duplicates
/// removed, carrying exactly the names of the input.
pub fn normalize_names(list: &Vec<String>) -> (r: Vec<String>)
    ensures
        sorted_names(r.deep_view()),
        same_names(r.deep_view(), list.deep_view()),
{
    let ghost ldv = list.deep_view();
    let mut r: Vec<String> = Vec::new();
    let mut k: usize = 0;
    proof {
        assert(r.deep_view() =~= Seq::<Seq<char>>::empty());
    }
    while k < list.len()
        invariant
            k <= list.len(),
            ldv == list.deep_view(),
            sorted_names(r.deep_view()),
            same_names(r.deep_view(), ldv.take(k as int)),
        decreases list.len() - k,
    {
        let ghost prev = r.deep_view();
        insert_name(&mut r, list[k].clone());
        proof {
            assert(ldv.take(k as int).push(ldv[k as int]) =~= ldv.take(k as int + 1));
            assert forall|x: Seq<char>|
                r.deep_view().contains(x) == ldv.take(k as int + 1).contains(x) by {
                assert(r.deep_view().contains(x) == prev.push(ldv[k as int]).contains(x));
                assert(prev.push(ldv[k as int]).contains(x) == (ldv[k as int] == x
                    || prev.contains(x)));
            }
        }
        k = k + 1;
    }
    proof {
        assert(ldv.take(ldv.len() as int) =~= ldv);
    }
    r
}

/// The diff is empty exactly when every desired name is installed.
pub proof fn lemma_diff_names_empty_iff(d: Seq<Seq<char>>, i: Seq<Seq<char>>)
    ensures
        diff_names(d, i).len() == 0 <==> names_subset(d, i),
{
    let out = diff_names(d, i);
    if out.len() == 0 {
        assert forall|x: Seq<char>| d.contains(x) implies i.contains(x) by {
            lemma_diff_names_membership(d, i, x);
            if !i.contains(x) {
                assert(out.contains(x));
            }
        }
    }
    if names_subset(d, i) && out.len() > 0 {
        assert(out.contains(out[0]));
        lemma_diff_names_membership(d, i, out[0]);
    }
}

/// Nothing is missing from an empty desired list.
pub proof fn lemma_diff_names_empty_desired(i: Seq<Seq<char>>)
    ensures
        diff_names(Seq::<Seq<char>>::empty(), i) == Seq::<Seq<char>>::empty(),
{
}

/// When no desired name is installed, everything desired is missing.
pub proof fn lemma_diff_names_disjoint(d: Seq<Seq<char>>, i: Seq<Seq<char>>)
    requires
        forall|x: Seq<char>| #[trigger] d.contains(x) ==> !i.contains(x),
    ensures
        diff_names(d, i) == d,
    decreases d.len(),
{
    if d.len() > 0 {
        assert(d.contains(d[0]));
        assert forall|x: Seq<char>| #[trigger] d.drop_first().contains(x)
            implies !i.contains(x) by {
            lemma_contains_head_or_tail(d, x);
        }
        lemma_diff_names_disjoint(d.drop_first(), i);
        assert(seq![d[0]] + d.drop_first() =~= d);
    }
}

/// Against an empty installed snapshot the whole desired list is missing.
pub proof fn lemma_diff_names_empty_installed(d: Seq<Seq<char>>)
    ensures
        diff_names(d, Seq::<Seq<char>>::empty()) == d,
{
    lemma_diff_names_disjoint(d, Seq::<Seq<char>>::empty());
}

/// When some desired name is installed, the diff of a duplicate-free desired
/// list is strictly shorter than the list.
pub proof fn lemma_diff_names_shorter(d: Seq<Seq<char>>, i: Seq<Seq<char>>, y: Seq<char>)
    requires
        distinct_names(d),
        d.contains(y),
        i.contains(y),
    ensures
        diff_names(d, i).len() < d.len(),
    decreases d.len(),
{
    lemma_diff_names_len(d.drop_first(), i);
    if i.contains(d[0]) {
    } else {
        assert(y != d[0]);
        lemma_contains_head_or_tail(d, y);
        assert forall|m: int, n: int| 0 <= m < n < d.drop_first().len()
            implies d.drop_first()[m] != d.drop_first()[n] by {
            assert(d.drop_first()[m] == d[m + 1]);
            assert(d.drop_first()[n] == d[n + 1]);
        }
        lemma_diff_names_shorter(d.drop_first(), i, y);
    }
}

/// The diff of a canonical desired list is itself canonical.
pub proof fn lemma_diff_names_sorted(d: Seq<Seq<char>>, i: Seq<Seq<char>>)
    requires
        sorted_names(d),
    ensures
        sorted_names(diff_names(d, i)),
    decreases d.len(),
{
    if d.len() > 0 {
        let tail = d.drop_first();
        assert forall|m: int, n: int| 0 <= m < n < tail.len()
            implies lex_lt(tail[m], tail[n]) by {
            assert(tail[m] == d[m + 1]);
            assert(tail[n] == d[n + 1]);
        }
        lemma_diff_names_sorted(tail, i);
        if !i.contains(d[0]) {
            let out = diff_names(d, i);
            let rest = diff_names(tail, i);
            assert forall|m: int, n: int| 0 <= m < n < out.len()
                implies lex_lt(out[m], out[n]) by {
                if m == 0 {
                    assert(out[n] == rest[n - 1]);
                    assert(rest.contains(rest[n - 1]));
                    lemma_diff_names_membership(tail, i, rest[n - 1]);
                    let k = choose|k: int| 0 <= k < tail.len() && tail[k] == rest[n - 1];
                    assert(tail[k] == d[k + 1]);
                    assert(lex_lt(d[0], d[k + 1]));
                } else {
                    assert(out[m] == rest[m - 1]);
                    assert(out[n] == rest[n - 1]);
                }
            }
        }
    }
}

/// The diff depends on the installed snapshot only through its name set.
pub proof fn lemma_diff_names_same_installed(
    d: Seq<Seq<char>>,
    i1: Seq<Seq<char>>,
    i2: Seq<Seq<char>>,
)
    requires
        same_names(i1, i2),
    ensures
        diff_names(d, i1) == diff_names(d, i2),
    decreases d.len(),
{
    if d.len() > 0 {
        assert(i1.contains(d[0]) == i2.contains(d[0]));
        lemma_diff_names_same_installed(d.drop_first(), i1, i2);
    }
}

/// A name set has exactly one canonical list: normalization is idempotent,
/// and any two canonical lists carrying the same names are equal.
pub proof fn lemma_canonical_names_unique(a: Seq<Seq<char>>, b: Seq<Seq<char>>)
    requires
        sorted_names(a),
        sorted_names(b),
        same_names(a, b),
    ensures
        a == b,
    decreases a.len(),
{
    if a.len() == 0 {
        if b.len() > 0 {
            assert(b.contains(b[0]));
            assert(a.contains(b[0]));
        }
        assert(a =~= b);
    } else {
        assert(a.contains(a[0]));
        assert(b.contains(a[0]));
        assert(b.len() > 0);
        assert(a.contains(b[0]));
        let ki = choose|k: int| 0 <= k < b.len() && b[k] == a[0];
        let kj = choose|k: int| 0 <= k < a.len() && a[k] == b[0];
        if ki > 0 && kj > 0 {
            assert(lex_lt(b[0], b[ki]));
            assert(lex_lt(a[0], a[kj]));
            lemma_lex_trichotomy(a[0], b[0]);
        }
        assert(a[0] == b[0]);
        let ta = a.drop_first();
        let tb = b.drop_first();
        assert forall|m: int, n: int| 0 <= m < n < ta.len() implies lex_lt(ta[m], ta[n]) by {
            assert(ta[m] == a[m + 1]);
            assert(ta[n] == a[n + 1]);
        }
        assert forall|m: int, n: int| 0 <= m < n < tb.len() implies lex_lt(tb[m], tb[n]) by {
            assert(tb[m] == b[m + 1]);
            assert(tb[n] == b[n + 1]);
        }
        assert forall|x: Seq<char>| ta.contains(x) == tb.contains(x) by {
            lemma_contains_head_or_tail(a, x);
            lemma_contains_head_or_tail(b, x);
            if ta.contains(x) {
                let m = choose|m: int| 0 <= m < ta.len() && ta[m] == x;
                assert(ta[m] == a[m + 1]);
                assert(lex_lt(a[0], x));
                lemma_lex_trichotomy(a[0], x);
                assert(b.contains(x));
            }
            if tb.contains(x) {
                let m = choose|m: int| 0 <= m < tb.len() && tb[m] == x;
                assert(tb[m] == b[m + 1]);
                assert(lex_lt(b[0], x));
                lemma_lex_trichotomy(b[0], x);
                assert(a.contains(x));
            }
        }
        lemma_canonical_names_unique(ta, tb);
        assert(a =~= b) by {
            assert forall|m: int| 0 <= m < a.len() implies a[m] == b[m] by {
                if m >= 1 {
                    assert(ta[m - 1] == a[m]);
                    assert(tb[m - 1] == b[m]);
                }
            }
        }
    }
}

/// Clones a list of names; the copy carries the same names in the same
/// order.
pub fn clone_names(v: &Vec<String>) -> (r: Vec<String>)
    ensures
        r@ == v@,
        r.deep_view() == v.deep_view(),
{
    let r = v.clone();
    proof {
        assert(r@ =~= v@);
        assert(r.deep_view() =~= v.deep_view());
    }
    r
}

/// Decides whether a list carries a given name.
pub fn contains_name(v: &Vec<String>, x: &String) -> (r: bool)
    ensures
        r == v.deep_view().contains(x@),
{
    let mut k: usize = 0;
    while k < v.len()
        invariant
            k <= v.len(),
            forall|m: int| 0 <= m < k ==> v.deep_view()[m] != x@,
        decreases v.len() - k,
    {
        if v[k] == *x {
            assert(v.deep_view()[k as int] == x@);
            return true;
        }
        k = k + 1;
    }
    false
}

/// Computes the missing names: the desired names not present in `installed`,
/// in the order of `desired`.
pub fn missing_names(desired: &Vec<String>, installed: &Vec<String>) -> (r: Vec<String>)
    ensures
        r.deep_view() == diff_names(desired.deep_view(), installed.deep_view()),
{
    let ghost ddv = desired.deep_view();
    let ghost idv = installed.deep_view();
    let mut out: Vec<String> = Vec::new();
    let mut k: usize = 0;
    proof {
        assert(ddv.skip(0) =~= ddv);
        assert(out.deep_view() =~= Seq::<Seq<char>>::empty());
    }
    while k < desired.len()
        invariant
            k <= desired.len(),
            ddv == desired.deep_view(),
            idv == installed.deep_view(),
            diff_names(ddv, idv) =~= out.deep_view() + diff_names(ddv.skip(k as int), idv),
        decreases desired.len() - k,
    {
        let ghost prev = out.deep_view();
        proof {
            assert(ddv.skip(k as int)[0] == ddv[k as int]);
            assert(ddv.skip(k as int).drop_first() =~= ddv.skip(k as int + 1));
        }
        if !contains_name(installed, &desired[k]) {
            out.push(desired[k].clone());
            proof {
                assert(out.deep_view() =~= prev.push(ddv[k as int]));
                assert(prev + (seq![ddv[k as int]] + diff_names(ddv.skip(k as int + 1), idv))
                    =~= out.deep_view() + diff_names(ddv.skip(k as int + 1), idv));
            }
        }
        k = k + 1;
    }
    proof {
        assert(ddv.skip(ddv.len() as int) =~= Seq::<Seq<char>>::empty());
        assert(out.deep_view() + diff_names(ddv.skip(ddv.len() as int), idv) =~= out.deep_view());
    }
    out
}

/// The names joined by single newlines, with no trailing newline.
pub open spec fn join_names(v: Seq<Seq<char>>) -> Seq<char>
    decreases v.len(),
{
    if v.len() == 0 {
        Seq::empty()
    } else if v.len() == 1 {
        v[0]
    } else {
        v[0] + seq!['\n'] + join_names(v.drop_first())
    }
}

/// Renders a list of names as newline-separated text.
pub fn join_lines(v: &Vec<String>) -> (r: String)
    ensures
        r@ == join_names(v.deep_view()),
{
    let ghost dv = v.deep_view();
    let mut out = String::new();
    proof {
        reveal_strlit("\n");
    }
    if v.len() == 0 {
        return out;
    }
    out.append(v[0].as_str());
    let mut k: usize = 1;
    while k < v.len()
        invariant
            1 <= k <= v.len(),
            dv == v.deep_view(),
            "\n"@ == seq!['\n'],
            join_names(dv) == if k < dv.len() {
                out@ + seq!['\n'] + join_names(dv.skip(k as int))
            } else {
                out@
            },
        decreases v.len() - k,
    {
        proof {
            assert(dv.skip(k as int)[0] == dv[k as int]);
            assert(dv.skip(k as int).drop_first() =~= dv.skip(k as int + 1));
        }
        out.append("\n");
        out.append(v[k].as_str());
        proof {
            if k + 1 < dv.len() {
                assert(out@ + seq!['\n'] + join_names(dv.skip(k as int + 1))
                    =~= join_names(dv));
            } else {
                assert(dv.skip(k as int).len() == 1);
                assert(out@ =~= join_names(dv));
            }
        }
        k = k + 1;
    }
    proof {
        if dv.len() == 1 {
            assert(out@ =~= join_names(dv));
        }
    }
    out
}

} // verus!
