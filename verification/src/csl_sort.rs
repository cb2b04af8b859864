//! Ordering of references by the keys of a CSL `<sort>`.

use vstd::prelude::*;
use std::cmp::Ordering;
use crate::attributes::opt_view;
use crate::csl::{Reference, Sort, SortKey};
use crate::text::{chars_of, decimal_of_i32, int_decimal};
use crate::unicode::{lowercase, to_lowercase};

verus! {

/// The value a sort key reads from a reference: the title, the family name
/// of the first author, or the year of issue.
pub open spec fn sort_value(r: Reference, key: SortKey) -> Option<Seq<char>> {
    match key.variable {
        Some(var) => if var@ == "title"@ {
            opt_view(r.title)
        } else if var@ == "author"@ {
            match r.author {
                Some(v) => if v@.len() > 0 {
                    opt_view(v@[0].family)
                } else {
                    None
                },
                None => None,
            }
        } else if var@ == "issued"@ {
            match r.issued {
                Some(d) => if d.date_parts@.len() > 0 && d.date_parts@[0]@.len() > 0 {
                    Some(int_decimal(d.date_parts@[0]@[0] as int))
                } else {
                    None
                },
                None => None,
            }
        } else {
            None
        },
        None => None,
    }
}

/// The length of the longest common prefix of `a` and `b`.
pub open spec fn common_prefix(a: Seq<char>, b: Seq<char>) -> int
    decreases a.len(),
{
    if a.len() == 0 || b.len() == 0 || a[0] != b[0] {
        0
    } else {
        1 + common_prefix(a.drop_first(), b.drop_first())
    }
}

/// Lexicographic order of character sequences, which is the order of their
/// UTF-8 encodings and so the order of `String`s.
pub open spec fn chars_order(a: Seq<char>, b: Seq<char>) -> Ordering {
    let k = common_prefix(a, b);
    if k < a.len() && k < b.len() {
        if a[k] < b[k] {
            Ordering::Less
        } else {
            Ordering::Greater
        }
    } else if k < a.len() {
        Ordering::Greater
    } else if k < b.len() {
        Ordering::Less
    } else {
        Ordering::Equal
    }
}

/// Whether two sort values tie: both absent, or both present and equal
/// ignoring case.
pub open spec fn values_equal(va: Option<Seq<char>>, vb: Option<Seq<char>>) -> bool {
    match (va, vb) {
        (Some(x), Some(y)) => lowercase(x) == lowercase(y),
        (None, None) => true,
        _ => false,
    }
}

/// How two sort values compare: case-insensitively when both are present,
/// and a present value after an absent one.
pub open spec fn values_order(va: Option<Seq<char>>, vb: Option<Seq<char>>) -> Ordering {
    match (va, vb) {
        (Some(x), Some(y)) => chars_order(lowercase(x), lowercase(y)),
        (Some(_), None) => Ordering::Greater,
        (None, Some(_)) => Ordering::Less,
        (None, None) => Ordering::Equal,
    }
}

pub open spec fn flipped(o: Ordering) -> Ordering {
    match o {
        Ordering::Less => Ordering::Greater,
        Ordering::Equal => Ordering::Equal,
        Ordering::Greater => Ordering::Less,
    }
}

pub open spec fn descending(key: SortKey) -> bool {
    match key.sort {
        Some(s) => s@ == "descending"@,
        None => false,
    }
}

/// The first key, from index `from` on, on which `a` and `b` do not tie.
pub open spec fn first_unequal_from(a: Reference, b: Reference, keys: Seq<SortKey>, from: int) -> Option<
    int,
>
    decreases keys.len() - from,
{
    if from < 0 || from >= keys.len() {
        None
    } else if !values_equal(sort_value(a, keys[from]), sort_value(b, keys[from])) {
        Some(from)
    } else {
        first_unequal_from(a, b, keys, from + 1)
    }
}

/// The order of `a` and `b` under `keys`: the first key on which they do
/// not tie decides, reversed when that key sorts descending.
pub open spec fn references_order(a: Reference, b: Reference, keys: Seq<SortKey>) -> Ordering {
    match first_unequal_from(a, b, keys, 0) {
        Some(k) => {
            let o = values_order(sort_value(a, keys[k]), sort_value(b, keys[k]));
            if descending(keys[k]) {
                flipped(o)
            } else {
                o
            }
        },
        None => Ordering::Equal,
    }
}

fn first_family(r: &Reference) -> (o: Option<Vec<char>>)
    ensures
        o matches Some(v) ==> r.author matches Some(a) && a@.len() > 0 && opt_view(a@[0].family)
            == Some(v@),
        o is None ==> !(r.author matches Some(a) && a@.len() > 0 && a@[0].family is Some),
{
    match &r.author {
        Some(authors) => {
            if authors.len() > 0 {
                match &authors[0].family {
                    Some(f) => Some(chars_of(f.as_str())),
                    None => None,
                }
            } else {
                None
            }
        },
        None => None,
    }
}

fn issued_year(r: &Reference) -> (o: Option<Vec<char>>)
    ensures
        o matches Some(v) ==> r.issued matches Some(d) && d.date_parts@.len() > 0
            && d.date_parts@[0]@.len() > 0 && v@ == int_decimal(d.date_parts@[0]@[0] as int),
        o is None ==> !(r.issued matches Some(d) && d.date_parts@.len() > 0
            && d.date_parts@[0]@.len() > 0),
{
    match &r.issued {
        Some(d) => {
            if d.date_parts.len() > 0 && d.date_parts[0].len() > 0 {
                Some(decimal_of_i32(d.date_parts[0][0]))
            } else {
                None
            }
        },
        None => None,
    }
}

fn sort_value_of(r: &Reference, key: &SortKey) -> (o: Option<Vec<char>>)
    ensures
        match o {
            Some(v) => sort_value(*r, *key) == Some(v@),
            None => sort_value(*r, *key) is None,
        },
{
    match &key.variable {
        Some(var) => {
            let v = chars_of(var.as_str());
            if crate::text::eq_str(v.as_slice(), "title") {
                match &r.title {
                    Some(t) => Some(chars_of(t.as_str())),
                    None => None,
                }
            } else if crate::text::eq_str(v.as_slice(), "author") {
                first_family(r)
            } else if crate::text::eq_str(v.as_slice(), "issued") {
                issued_year(r)
            } else {
                None
            }
        },
        None => None,
    }
}

/// The values that `key` sorts `a` and `b` by.
fn extract_sort_value(a: &Reference, b: &Reference, key: &SortKey) -> (r: (
    Option<Vec<char>>,
    Option<Vec<char>>,
))
    ensures
        match r.0 {
            Some(v) => sort_value(*a, *key) == Some(v@),
            None => sort_value(*a, *key) is None,
        },
        match r.1 {
            Some(v) => sort_value(*b, *key) == Some(v@),
            None => sort_value(*b, *key) is None,
        },
{
    (sort_value_of(a, key), sort_value_of(b, key))
}

fn lowered(v: &Vec<char>) -> (r: Vec<char>)
    ensures
        r@ == lowercase(v@),
{
    let s = crate::text::string_of(v.as_slice());
    let l = to_lowercase(s.as_str());
    chars_of(l.as_str())
}

/// The sort values of `a` and `b` under `key`, lower-cased, and whether
/// they tie.
fn lowered_values(a: &Reference, b: &Reference, key: &SortKey) -> (r: (
    Option<Vec<char>>,
    Option<Vec<char>>,
    bool,
))
    ensures
        match (r.0, sort_value(*a, *key)) {
            (Some(v), Some(x)) => v@ == lowercase(x),
            (None, None) => true,
            _ => false,
        },
        match (r.1, sort_value(*b, *key)) {
            (Some(v), Some(x)) => v@ == lowercase(x),
            (None, None) => true,
            _ => false,
        },
        r.2 == values_equal(sort_value(*a, *key), sort_value(*b, *key)),
{
    let (va, vb) = extract_sort_value(a, b, key);
    let la = match &va {
        Some(x) => Some(lowered(x)),
        None => None,
    };
    let lb = match &vb {
        Some(y) => Some(lowered(y)),
        None => None,
    };
    let tie = match (&la, &lb) {
        (Some(x), Some(y)) => crate::text::seq_eq(x.as_slice(), y.as_slice()),
        (None, None) => true,
        _ => false,
    };
    (la, lb, tie)
}

/// The first key on which `a` and `b` do not tie, with their lower-cased
/// values under it.
fn deciding_key(a: &Reference, b: &Reference, keys: &Vec<SortKey>) -> (r: Option<
    (usize, Option<Vec<char>>, Option<Vec<char>>),
>)
    ensures
        match r {
            Some((k, va, vb)) => {
                &&& first_unequal_from(*a, *b, keys@, 0) == Some(k as int)
                &&& k < keys@.len()
                &&& match (va, sort_value(*a, keys@[k as int])) {
                    (Some(v), Some(x)) => v@ == lowercase(x),
                    (None, None) => true,
                    _ => false,
                }
                &&& match (vb, sort_value(*b, keys@[k as int])) {
                    (Some(v), Some(x)) => v@ == lowercase(x),
                    (None, None) => true,
                    _ => false,
                }
            },
            None => first_unequal_from(*a, *b, keys@, 0) is None,
        },
{
    let n = keys.len();
    let mut i: usize = 0;
    while i < n
        invariant
            n == keys@.len(),
            i <= n,
            first_unequal_from(*a, *b, keys@, 0) == first_unequal_from(*a, *b, keys@, i as int),
        decreases n - i,
    {
        let (va, vb, tie) = lowered_values(a, b, &keys[i]);
        if !tie {
            return Some((i, va, vb));
        }
        i += 1;
    }
    None
}

fn common_prefix_of(a: &[char], b: &[char]) -> (k: usize)
    ensures
        k == common_prefix(a@, b@),
{
    let mut i: usize = 0;
    assert(a@.skip(0) =~= a@);
    assert(b@.skip(0) =~= b@);
    while i < a.len() && i < b.len() && a[i] == b[i]
        invariant
            i <= a@.len(),
            i <= b@.len(),
            common_prefix(a@, b@) == i + common_prefix(a@.skip(i as int), b@.skip(i as int)),
        decreases a@.len() - i,
    {
        assert(a@.skip(i as int).drop_first() =~= a@.skip(i + 1));
        assert(b@.skip(i as int).drop_first() =~= b@.skip(i + 1));
        i += 1;
    }
    if i < a.len() && i < b.len() {
        assert(a@.skip(i as int)[0] == a@[i as int]);
        assert(b@.skip(i as int)[0] == b@[i as int]);
    }
    i
}

proof fn lemma_common_prefix(a: Seq<char>, b: Seq<char>)
    ensures
        0 <= common_prefix(a, b) <= a.len(),
        common_prefix(a, b) <= b.len(),
        forall|j: int| 0 <= j < common_prefix(a, b) ==> a[j] == b[j],
        common_prefix(a, b) < a.len() && common_prefix(a, b) < b.len() ==> a[common_prefix(a, b)]
            != b[common_prefix(a, b)],
        common_prefix(a, b) == common_prefix(b, a),
    decreases a.len(),
{
    if !(a.len() == 0 || b.len() == 0 || a[0] != b[0]) {
        lemma_common_prefix(a.drop_first(), b.drop_first());
        let k = common_prefix(a, b);
        assert forall|j: int| 0 <= j < k implies a[j] == b[j] by {
            if j > 0 {
                assert(a.drop_first()[j - 1] == a[j]);
                assert(b.drop_first()[j - 1] == b[j]);
            }
        }
        assert(a.drop_first()[k - 1] == a[k] || k >= a.len());
    }
}

fn chars_order_of(a: &[char], b: &[char]) -> (o: Ordering)
    ensures
        o == chars_order(a@, b@),
{
    let k = common_prefix_of(a, b);
    proof {
        lemma_common_prefix(a@, b@);
    }
    if k < a.len() && k < b.len() {
        if a[k] < b[k] {
            Ordering::Less
        } else {
            Ordering::Greater
        }
    } else if k < a.len() {
        Ordering::Greater
    } else if k < b.len() {
        Ordering::Less
    } else {
        Ordering::Equal
    }
}

/// Compares two references by the keys of a CSL `<sort>`: the first key on
/// which they do not tie decides (case-insensitively, a missing value first),
/// reversed when that key sorts descending.
pub fn compare_references(a: &Reference, b: &Reference, sort: &Sort) -> (o: Ordering)
    ensures
        o == references_order(*a, *b, sort.keys@),
{
    match deciding_key(a, b, &sort.keys) {
        Some((k, va, vb)) => {
            let cmp_result = match (&va, &vb) {
                (Some(x), Some(y)) => chars_order_of(x.as_slice(), y.as_slice()),
                (Some(_), None) => Ordering::Greater,
                (None, Some(_)) => Ordering::Less,
                (None, None) => Ordering::Equal,
            };
            let down = match &sort.keys[k].sort {
                Some(s) => {
                    let sv = chars_of(s.as_str());
                    crate::text::eq_str(sv.as_slice(), "descending")
                },
                None => false,
            };
            if down {
                match cmp_result {
                    Ordering::Less => Ordering::Greater,
                    Ordering::Equal => Ordering::Equal,
                    Ordering::Greater => Ordering::Less,
                }
            } else {
                cmp_result
            }
        },
        None => Ordering::Equal,
    }
}

// ── Laws ─────────────────────────────────────────────────────────────────────

proof fn lemma_first_unequal_self(a: Reference, keys: Seq<SortKey>, from: int)
    ensures
        first_unequal_from(a, a, keys, from) is None,
    decreases keys.len() - from,
{
    if !(from < 0 || from >= keys.len()) {
        lemma_first_unequal_self(a, keys, from + 1);
    }
}

proof fn lemma_first_unequal_swap(a: Reference, b: Reference, keys: Seq<SortKey>, from: int)
    ensures
        first_unequal_from(a, b, keys, from) == first_unequal_from(b, a, keys, from),
    decreases keys.len() - from,
{
    if !(from < 0 || from >= keys.len()) {
        lemma_first_unequal_swap(a, b, keys, from + 1);
    }
}

proof fn lemma_chars_order_swap(x: Seq<char>, y: Seq<char>)
    ensures
        chars_order(y, x) == flipped(chars_order(x, y)),
{
    lemma_common_prefix(x, y);
    lemma_common_prefix(y, x);
}

/// Every reference sorts equal to itself.
pub proof fn law_compare_reflexive(a: Reference, sort: Sort)
    ensures
        references_order(a, a, sort.keys@) == Ordering::Equal,
{
    lemma_first_unequal_self(a, sort.keys@, 0);
}

/// Swapping the two references reverses their order.
pub proof fn law_compare_antisymmetric(a: Reference, b: Reference, sort: Sort)
    ensures
        references_order(b, a, sort.keys@) == flipped(references_order(a, b, sort.keys@)),
{
    lemma_first_unequal_swap(a, b, sort.keys@, 0);
    if let Some(k) = first_unequal_from(a, b, sort.keys@, 0) {
        let key = sort.keys@[k];
        if let (Some(x), Some(y)) = (sort_value(a, key), sort_value(b, key)) {
            lemma_chars_order_swap(lowercase(x), lowercase(y));
        }
    }
}

proof fn lemma_chars_order_equal(x: Seq<char>, y: Seq<char>)
    ensures
        (chars_order(x, y) == Ordering::Equal) <==> x == y,
{
    lemma_common_prefix(x, y);
    if chars_order(x, y) == Ordering::Equal {
        assert(x =~= y);
    }
    if x == y {
        let k = common_prefix(x, y);
        assert(!(k < x.len() && k < y.len()));
    }
}

proof fn lemma_chars_order_transitive(x: Seq<char>, y: Seq<char>, z: Seq<char>)
    requires
        chars_order(x, y) == Ordering::Less,
        chars_order(y, z) == Ordering::Less,
    ensures
        chars_order(x, z) == Ordering::Less,
{
    lemma_common_prefix(x, y);
    lemma_common_prefix(y, z);
    lemma_common_prefix(x, z);
    let j1 = common_prefix(x, y);
    let j2 = common_prefix(y, z);
    let j3 = common_prefix(x, z);
    let m = if j1 < j2 {
        j1
    } else {
        j2
    };
    assert forall|i: int| 0 <= i < m implies x[i] == z[i] by {
        assert(x[i] == y[i]);
        assert(y[i] == z[i]);
    }
    if j3 < m {
        assert(j3 < x.len() && j3 < z.len());
        assert(x[j3] == z[j3]);
    }
    assert(j3 >= m);
    if j1 < j2 {
        assert(y[j1] == z[j1]);
        if j3 > j1 {
            assert(x[j1] == z[j1]);
        }
    } else if j2 < j1 {
        assert(x[j2] == y[j2]);
        if j3 > j2 {
            assert(x[j2] == z[j2]);
        }
    } else {
        if j3 > j1 && j1 < x.len() {
            assert(x[j1] == z[j1]);
        }
    }
}

proof fn lemma_values_order_equal(va: Option<Seq<char>>, vb: Option<Seq<char>>)
    ensures
        (values_order(va, vb) == Ordering::Equal) <==> values_equal(va, vb),
{
    if let (Some(x), Some(y)) = (va, vb) {
        lemma_chars_order_equal(lowercase(x), lowercase(y));
    }
}

proof fn lemma_values_order_swap(va: Option<Seq<char>>, vb: Option<Seq<char>>)
    ensures
        values_order(vb, va) == flipped(values_order(va, vb)),
{
    if let (Some(x), Some(y)) = (va, vb) {
        lemma_chars_order_swap(lowercase(x), lowercase(y));
    }
}

proof fn lemma_values_order_transitive(va: Option<Seq<char>>, vb: Option<Seq<char>>, vc: Option<Seq<char>>)
    requires
        values_order(va, vb) == Ordering::Less,
        values_order(vb, vc) == Ordering::Less,
    ensures
        values_order(va, vc) == Ordering::Less,
{
    if let (Some(x), Some(y), Some(z)) = (va, vb, vc) {
        lemma_chars_order_transitive(lowercase(x), lowercase(y), lowercase(z));
    }
}

/// How two references compare on one key, its direction applied.
pub open spec fn key_order(a: Reference, b: Reference, key: SortKey) -> Ordering {
    let o = values_order(sort_value(a, key), sort_value(b, key));
    if descending(key) {
        flipped(o)
    } else {
        o
    }
}

/// The order of `a` and `b` decided by the keys from index `from` on.
pub open spec fn order_from(a: Reference, b: Reference, keys: Seq<SortKey>, from: int) -> Ordering {
    match first_unequal_from(a, b, keys, from) {
        Some(k) => key_order(a, b, keys[k]),
        None => Ordering::Equal,
    }
}

proof fn lemma_key_order_transitive(a: Reference, b: Reference, c: Reference, key: SortKey)
    requires
        key_order(a, b, key) == Ordering::Less,
        key_order(b, c, key) == Ordering::Less,
    ensures
        key_order(a, c, key) == Ordering::Less,
{
    let (va, vb, vc) = (sort_value(a, key), sort_value(b, key), sort_value(c, key));
    if descending(key) {
        lemma_values_order_swap(va, vb);
        lemma_values_order_swap(vb, vc);
        lemma_values_order_swap(va, vc);
        lemma_values_order_transitive(vc, vb, va);
    } else {
        lemma_values_order_transitive(va, vb, vc);
    }
}

proof fn lemma_order_from_transitive(a: Reference, b: Reference, c: Reference, keys: Seq<SortKey>, from: int)
    requires
        0 <= from,
        order_from(a, b, keys, from) != Ordering::Greater,
        order_from(b, c, keys, from) != Ordering::Greater,
    ensures
        order_from(a, c, keys, from) != Ordering::Greater,
        order_from(a, b, keys, from) == Ordering::Less || order_from(b, c, keys, from) == Ordering::Less
            ==> order_from(a, c, keys, from) == Ordering::Less,
    decreases keys.len() - from,
{
    if from < keys.len() {
        let key = keys[from];
        let (va, vb, vc) = (sort_value(a, key), sort_value(b, key), sort_value(c, key));
        lemma_values_order_equal(va, vb);
        lemma_values_order_equal(vb, vc);
        lemma_values_order_equal(va, vc);
        if values_equal(va, vb) && values_equal(vb, vc) {
            lemma_order_from_transitive(a, b, c, keys, from + 1);
        } else if !values_equal(va, vb) {
            assert(key_order(a, b, key) == Ordering::Less);
            if values_equal(vb, vc) {
                assert(values_order(va, vc) == values_order(va, vb));
                assert(key_order(a, c, key) == Ordering::Less);
            } else {
                assert(key_order(b, c, key) == Ordering::Less);
                lemma_key_order_transitive(a, b, c, key);
            }
        } else {
            assert(key_order(b, c, key) == Ordering::Less);
            assert(values_order(va, vc) == values_order(vb, vc));
            assert(key_order(a, c, key) == Ordering::Less);
        }
    }
}

/// The order is transitive: when `a` sorts no later than `b` and `b` no
/// later than `c`, then `a` sorts no later than `c`, and strictly earlier
/// when either step was strict.
pub proof fn law_compare_transitive(a: Reference, b: Reference, c: Reference, sort: Sort)
    requires
        references_order(a, b, sort.keys@) != Ordering::Greater,
        references_order(b, c, sort.keys@) != Ordering::Greater,
    ensures
        references_order(a, c, sort.keys@) != Ordering::Greater,
        references_order(a, b, sort.keys@) == Ordering::Less || references_order(b, c, sort.keys@)
            == Ordering::Less ==> references_order(a, c, sort.keys@) == Ordering::Less,
{
    lemma_order_from_transitive(a, b, c, sort.keys@, 0);
}

} // verus!
