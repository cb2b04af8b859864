//! Last-writer-wins merging of two synchronised reference libraries.
//!
//! References are merged by id: a local record stands unless a remote
//! record with the same id was modified later. Collections are merged by id
//! too, their reference ids united. The merged library lists both in id
//! order, which is the order the payload's integrity hash is taken over.

use vstd::prelude::*;
use crate::cite::{Collection, Reference};
use sha2::Digest;
use crate::text::{chars_of, lex_less, lex_less_of, lemma_lex_less_irreflexive, lemma_lex_less_total, lemma_lex_less_transitive, seq_eq};

verus! {

/// A cloud-synchronisation packet.
#[derive(Debug, Clone)]
pub struct SyncPayload {
    /// Identifier of the device that uploaded the packet.
    pub device_id: String,
    /// ISO 8601 time of the last successful synchronisation.
    pub last_synced_at: String,
    /// SHA-256 of the library state, for integrity checks.
    pub library_hash: String,
    pub references: Vec<Reference>,
    pub collections: Vec<Collection>,
}

/// The result of a merge: the device it is kept for and the merged library,
/// references and collections each in id order.
#[derive(Debug)]
pub struct MergedLibrary {
    pub device_id: String,
    pub references: Vec<Reference>,
    pub collections: Vec<Collection>,
}

// ── Specification: references ────────────────────────────────────────────────

/// The ids of `v` strictly increase.
pub open spec fn refs_sorted(v: Seq<Reference>) -> bool {
    forall|i: int, j: int| 0 <= i < j < v.len() ==> lex_less(#[trigger] v[i].id@, #[trigger] v[j].id@)
}

/// The first record of `v` with id `k`.
pub open spec fn ref_lookup(v: Seq<Reference>, k: Seq<char>) -> Option<Reference>
    decreases v.len(),
{
    if v.len() == 0 {
        None
    } else if v[0].id@ == k {
        Some(v[0])
    } else {
        ref_lookup(v.drop_first(), k)
    }
}

/// The last record of `v` with id `k`: a later record replaces an earlier one.
pub open spec fn last_with_id(v: Seq<Reference>, k: Seq<char>) -> Option<Reference>
    decreases v.len(),
{
    if v.len() == 0 {
        None
    } else if v.last().id@ == k {
        Some(v.last())
    } else {
        last_with_id(v.drop_last(), k)
    }
}

/// Last-writer-wins over the remote records with id `k`, in order: each
/// replaces the current record when there is none or when it was modified
/// strictly later.
pub open spec fn lww(cur: Option<Reference>, remote: Seq<Reference>, k: Seq<char>) -> Option<
    Reference,
>
    decreases remote.len(),
{
    if remote.len() == 0 {
        cur
    } else {
        let before = lww(cur, remote.drop_last(), k);
        let r = remote.last();
        if r.id@ != k {
            before
        } else {
            match before {
                Some(e) => if lex_less(e.date_modified@, r.date_modified@) {
                    Some(r)
                } else {
                    before
                },
                None => Some(r),
            }
        }
    }
}

/// The merged record with id `k`.
pub open spec fn merged_reference(local: Seq<Reference>, remote: Seq<Reference>, k: Seq<char>) -> Option<
    Reference,
> {
    lww(last_with_id(local, k), remote, k)
}

/// `v` with `x` put in id order, replacing a record with the same id.
pub open spec fn ref_upsert(v: Seq<Reference>, x: Reference) -> Seq<Reference>
    decreases v.len(),
{
    if v.len() == 0 {
        seq![x]
    } else if v[0].id@ == x.id@ {
        seq![x] + v.drop_first()
    } else if lex_less(x.id@, v[0].id@) {
        seq![x] + v
    } else {
        seq![v[0]] + ref_upsert(v.drop_first(), x)
    }
}

// ── Specification: collections ───────────────────────────────────────────────

pub open spec fn str_views(v: Seq<String>) -> Seq<Seq<char>> {
    v.map_values(|s: String| s@)
}

/// A collection as (id, name, reference ids).
pub open spec fn col_view(c: Collection) -> (Seq<char>, Seq<char>, Seq<Seq<char>>) {
    (c.id@, c.name@, str_views(c.ref_ids@))
}

pub open spec fn cols_sorted(v: Seq<Collection>) -> bool {
    forall|i: int, j: int| 0 <= i < j < v.len() ==> lex_less(#[trigger] v[i].id@, #[trigger] v[j].id@)
}

pub open spec fn col_lookup(v: Seq<Collection>, k: Seq<char>) -> Option<
    (Seq<char>, Seq<char>, Seq<Seq<char>>),
>
    decreases v.len(),
{
    if v.len() == 0 {
        None
    } else if v[0].id@ == k {
        Some(col_view(v[0]))
    } else {
        col_lookup(v.drop_first(), k)
    }
}

pub open spec fn last_col_with_id(v: Seq<Collection>, k: Seq<char>) -> Option<
    (Seq<char>, Seq<char>, Seq<Seq<char>>),
>
    decreases v.len(),
{
    if v.len() == 0 {
        None
    } else if v.last().id@ == k {
        Some(col_view(v.last()))
    } else {
        last_col_with_id(v.drop_last(), k)
    }
}

/// `v` with `s` put in order, unless it is there already.
pub open spec fn str_insert(v: Seq<Seq<char>>, s: Seq<char>) -> Seq<Seq<char>>
    decreases v.len(),
{
    if v.len() == 0 {
        seq![s]
    } else if v[0] == s {
        v
    } else if lex_less(s, v[0]) {
        seq![s] + v
    } else {
        seq![v[0]] + str_insert(v.drop_first(), s)
    }
}

pub open spec fn str_insert_all(v: Seq<Seq<char>>, xs: Seq<Seq<char>>) -> Seq<Seq<char>>
    decreases xs.len(),
{
    if xs.len() == 0 {
        v
    } else {
        str_insert(str_insert_all(v, xs.drop_last()), xs.last())
    }
}

/// The ids of `a` and of `b`, each once, in order.
pub open spec fn id_union(a: Seq<Seq<char>>, b: Seq<Seq<char>>) -> Seq<Seq<char>> {
    str_insert_all(str_insert_all(seq![], a), b)
}

/// The remote collections with id `k`, in order: the first one found is
/// taken as it is, each later one adds its reference ids.
pub open spec fn col_merge(
    cur: Option<(Seq<char>, Seq<char>, Seq<Seq<char>>)>,
    remote: Seq<Collection>,
    k: Seq<char>,
) -> Option<(Seq<char>, Seq<char>, Seq<Seq<char>>)>
    decreases remote.len(),
{
    if remote.len() == 0 {
        cur
    } else {
        let before = col_merge(cur, remote.drop_last(), k);
        let c = remote.last();
        if c.id@ != k {
            before
        } else {
            match before {
                Some(e) => Some((e.0, e.1, id_union(e.2, str_views(c.ref_ids@)))),
                None => Some(col_view(c)),
            }
        }
    }
}

/// The merged collection with id `k`.
pub open spec fn merged_collection(local: Seq<Collection>, remote: Seq<Collection>, k: Seq<char>) -> Option<
    (Seq<char>, Seq<char>, Seq<Seq<char>>),
> {
    col_merge(last_col_with_id(local, k), remote, k)
}

/// `v` with `x` put in id order, replacing a collection with the same id.
pub open spec fn col_upsert(v: Seq<Collection>, x: Collection) -> Seq<Collection>
    decreases v.len(),
{
    if v.len() == 0 {
        seq![x]
    } else if v[0].id@ == x.id@ {
        seq![x] + v.drop_first()
    } else if lex_less(x.id@, v[0].id@) {
        seq![x] + v
    } else {
        seq![v[0]] + col_upsert(v.drop_first(), x)
    }
}

// ── Lemmas ───────────────────────────────────────────────────────────────────

proof fn lemma_ref_upsert_lookup(v: Seq<Reference>, x: Reference, k: Seq<char>)
    ensures
        ref_lookup(ref_upsert(v, x), k) == if k == x.id@ {
            Some(x)
        } else {
            ref_lookup(v, k)
        },
    decreases v.len(),
{
    let u = ref_upsert(v, x);
    if v.len() == 0 {
        assert(u.drop_first() =~= Seq::<Reference>::empty());
    } else if v[0].id@ == x.id@ {
        assert(u.drop_first() =~= v.drop_first());
    } else if lex_less(x.id@, v[0].id@) {
        assert(u.drop_first() =~= v);
    } else {
        lemma_ref_upsert_lookup(v.drop_first(), x, k);
        assert(u.drop_first() =~= ref_upsert(v.drop_first(), x));
    }
}

proof fn lemma_ref_upsert_above(v: Seq<Reference>, x: Reference, b: Seq<char>)
    requires
        lex_less(b, x.id@),
        forall|j: int| 0 <= j < v.len() ==> lex_less(b, #[trigger] v[j].id@),
    ensures
        forall|i: int| 0 <= i < ref_upsert(v, x).len() ==> lex_less(b, #[trigger] ref_upsert(v, x)[i].id@),
        ref_upsert(v, x).len() <= v.len() + 1,
    decreases v.len(),
{
    let u = ref_upsert(v, x);
    if v.len() > 0 && v[0].id@ != x.id@ && !lex_less(x.id@, v[0].id@) {
        lemma_ref_upsert_above(v.drop_first(), x, b);
        assert forall|i: int| 0 <= i < u.len() implies lex_less(b, #[trigger] u[i].id@) by {
            if i > 0 {
                assert(u[i] == ref_upsert(v.drop_first(), x)[i - 1]);
            }
        }
    } else if v.len() > 0 && v[0].id@ == x.id@ {
        assert forall|i: int| 0 <= i < u.len() implies lex_less(b, #[trigger] u[i].id@) by {
            if i > 0 {
                assert(u[i] == v[i]);
            }
        }
    } else if v.len() > 0 {
        assert forall|i: int| 0 <= i < u.len() implies lex_less(b, #[trigger] u[i].id@) by {
            if i > 0 {
                assert(u[i] == v[i - 1]);
            }
        }
    }
}

proof fn lemma_ref_upsert_sorted(v: Seq<Reference>, x: Reference)
    requires
        refs_sorted(v),
    ensures
        refs_sorted(ref_upsert(v, x)),
    decreases v.len(),
{
    let u = ref_upsert(v, x);
    if v.len() == 0 {
    } else if v[0].id@ == x.id@ {
        assert forall|i: int, j: int| 0 <= i < j < u.len() implies lex_less(#[trigger] u[i].id@, #[trigger] u[j].id@) by {
            assert(u[j] == v[j]);
            if i > 0 {
                assert(u[i] == v[i]);
            }
        }
    } else if lex_less(x.id@, v[0].id@) {
        assert forall|i: int, j: int| 0 <= i < j < u.len() implies lex_less(#[trigger] u[i].id@, #[trigger] u[j].id@) by {
            assert(u[j] == v[j - 1]);
            if i > 0 {
                assert(u[i] == v[i - 1]);
            } else if j > 1 {
                lemma_lex_less_transitive(x.id@, v[0].id@, v[j - 1].id@);
            }
        }
    } else {
        let rest = v.drop_first();
        lemma_ref_upsert_sorted(rest, x);
        lemma_lex_less_total(v[0].id@, x.id@);
        lemma_ref_upsert_above(rest, x, v[0].id@);
        assert forall|i: int, j: int| 0 <= i < j < u.len() implies lex_less(#[trigger] u[i].id@, #[trigger] u[j].id@) by {
            assert(u[j] == ref_upsert(rest, x)[j - 1]);
            if i > 0 {
                assert(u[i] == ref_upsert(rest, x)[i - 1]);
            }
        }
    }
}

proof fn lemma_col_upsert_lookup(v: Seq<Collection>, x: Collection, k: Seq<char>)
    ensures
        col_lookup(col_upsert(v, x), k) == if k == x.id@ {
            Some(col_view(x))
        } else {
            col_lookup(v, k)
        },
    decreases v.len(),
{
    let u = col_upsert(v, x);
    if v.len() == 0 {
        assert(u.drop_first() =~= Seq::<Collection>::empty());
    } else if v[0].id@ == x.id@ {
        assert(u.drop_first() =~= v.drop_first());
    } else if lex_less(x.id@, v[0].id@) {
        assert(u.drop_first() =~= v);
    } else {
        lemma_col_upsert_lookup(v.drop_first(), x, k);
        assert(u.drop_first() =~= col_upsert(v.drop_first(), x));
    }
}

proof fn lemma_col_upsert_above(v: Seq<Collection>, x: Collection, b: Seq<char>)
    requires
        lex_less(b, x.id@),
        forall|j: int| 0 <= j < v.len() ==> lex_less(b, #[trigger] v[j].id@),
    ensures
        forall|i: int| 0 <= i < col_upsert(v, x).len() ==> lex_less(b, #[trigger] col_upsert(v, x)[i].id@),
    decreases v.len(),
{
    let u = col_upsert(v, x);
    if v.len() > 0 && v[0].id@ != x.id@ && !lex_less(x.id@, v[0].id@) {
        lemma_col_upsert_above(v.drop_first(), x, b);
        assert forall|i: int| 0 <= i < u.len() implies lex_less(b, #[trigger] u[i].id@) by {
            if i > 0 {
                assert(u[i] == col_upsert(v.drop_first(), x)[i - 1]);
            }
        }
    } else if v.len() > 0 && v[0].id@ == x.id@ {
        assert forall|i: int| 0 <= i < u.len() implies lex_less(b, #[trigger] u[i].id@) by {
            if i > 0 {
                assert(u[i] == v[i]);
            }
        }
    } else if v.len() > 0 {
        assert forall|i: int| 0 <= i < u.len() implies lex_less(b, #[trigger] u[i].id@) by {
            if i > 0 {
                assert(u[i] == v[i - 1]);
            }
        }
    }
}

proof fn lemma_col_upsert_sorted(v: Seq<Collection>, x: Collection)
    requires
        cols_sorted(v),
    ensures
        cols_sorted(col_upsert(v, x)),
    decreases v.len(),
{
    let u = col_upsert(v, x);
    if v.len() == 0 {
    } else if v[0].id@ == x.id@ {
        assert forall|i: int, j: int| 0 <= i < j < u.len() implies lex_less(#[trigger] u[i].id@, #[trigger] u[j].id@) by {
            assert(u[j] == v[j]);
            if i > 0 {
                assert(u[i] == v[i]);
            }
        }
    } else if lex_less(x.id@, v[0].id@) {
        assert forall|i: int, j: int| 0 <= i < j < u.len() implies lex_less(#[trigger] u[i].id@, #[trigger] u[j].id@) by {
            assert(u[j] == v[j - 1]);
            if i > 0 {
                assert(u[i] == v[i - 1]);
            } else if j > 1 {
                lemma_lex_less_transitive(x.id@, v[0].id@, v[j - 1].id@);
            }
        }
    } else {
        let rest = v.drop_first();
        lemma_col_upsert_sorted(rest, x);
        lemma_lex_less_total(v[0].id@, x.id@);
        lemma_col_upsert_above(rest, x, v[0].id@);
        assert forall|i: int, j: int| 0 <= i < j < u.len() implies lex_less(#[trigger] u[i].id@, #[trigger] u[j].id@) by {
            assert(u[j] == col_upsert(rest, x)[j - 1]);
            if i > 0 {
                assert(u[i] == col_upsert(rest, x)[i - 1]);
            }
        }
    }
}

// ── Executable merge ─────────────────────────────────────────────────────────

proof fn lemma_col_lookup_id(v: Seq<Collection>, k: Seq<char>)
    ensures
        col_lookup(v, k) matches Some(x) ==> x.0 == k,
    decreases v.len(),
{
    if v.len() > 0 && v[0].id@ != k {
        lemma_col_lookup_id(v.drop_first(), k);
    }
}

fn same_chars(a: &String, b: &String) -> (r: bool)
    ensures
        r == (a@ == b@),
{
    let av = chars_of(a.as_str());
    let bv = chars_of(b.as_str());
    seq_eq(av.as_slice(), bv.as_slice())
}

fn less_chars(a: &String, b: &String) -> (r: bool)
    ensures
        r == lex_less(a@, b@),
{
    let av = chars_of(a.as_str());
    let bv = chars_of(b.as_str());
    lex_less_of(av.as_slice(), bv.as_slice())
}

fn upsert_ref(v: &mut Vec<Reference>, x: Reference)
    ensures
        final(v)@ == ref_upsert(old(v)@, x),
{
    let n = v.len();
    let mut i: usize = 0;
    assert(v@.skip(0) =~= v@);
    assert(v@.take(0) + ref_upsert(v@.skip(0), x) =~= ref_upsert(v@, x));
    while i < n && !same_chars(&v[i].id, &x.id) && !less_chars(&x.id, &v[i].id)
        invariant
            n == v@.len(),
            i <= n,
            ref_upsert(v@, x) == v@.take(i as int) + ref_upsert(v@.skip(i as int), x),
        decreases n - i,
    {
        let ghost rest = v@.skip(i as int);
        assert(rest[0] == v@[i as int]);
        assert(rest.drop_first() =~= v@.skip(i + 1));
        assert(v@.take(i + 1) =~= v@.take(i as int).push(v@[i as int]));
        assert(v@.take(i as int) + ref_upsert(rest, x) =~= v@.take(i + 1) + ref_upsert(
            v@.skip(i + 1),
            x,
        ));
        i += 1;
    }
    let ghost before = v@;
    if i < n {
        let ghost rest = before.skip(i as int);
        assert(rest[0] == before[i as int]);
        if same_chars(&v[i].id, &x.id) {
            v.set(i, x);
            assert(rest.drop_first() =~= before.skip(i + 1));
            assert(v@ =~= before.take(i as int) + ref_upsert(rest, x));
        } else {
            v.insert(i, x);
            assert(v@ =~= before.take(i as int) + ref_upsert(rest, x));
        }
    } else {
        assert(before.skip(i as int) =~= Seq::<Reference>::empty());
        v.push(x);
        assert(v@ =~= before.take(i as int) + ref_upsert(before.skip(i as int), x));
    }
}

fn find_ref(v: &Vec<Reference>, id: &String) -> (r: Option<usize>)
    ensures
        match r {
            Some(i) => i < v@.len() && ref_lookup(v@, id@) == Some(v@[i as int]),
            None => ref_lookup(v@, id@) is None,
        },
{
    let n = v.len();
    let mut i: usize = 0;
    assert(v@.skip(0) =~= v@);
    while i < n
        invariant
            n == v@.len(),
            i <= n,
            ref_lookup(v@, id@) == ref_lookup(v@.skip(i as int), id@),
        decreases n - i,
    {
        assert(v@.skip(i as int)[0] == v@[i as int]);
        if same_chars(&v[i].id, id) {
            return Some(i);
        }
        assert(v@.skip(i as int).drop_first() =~= v@.skip(i + 1));
        i += 1;
    }
    None
}

fn upsert_col(v: &mut Vec<Collection>, x: Collection)
    ensures
        final(v)@ == col_upsert(old(v)@, x),
{
    let n = v.len();
    let mut i: usize = 0;
    assert(v@.skip(0) =~= v@);
    assert(v@.take(0) + col_upsert(v@.skip(0), x) =~= col_upsert(v@, x));
    while i < n && !same_chars(&v[i].id, &x.id) && !less_chars(&x.id, &v[i].id)
        invariant
            n == v@.len(),
            i <= n,
            col_upsert(v@, x) == v@.take(i as int) + col_upsert(v@.skip(i as int), x),
        decreases n - i,
    {
        let ghost rest = v@.skip(i as int);
        assert(rest[0] == v@[i as int]);
        assert(rest.drop_first() =~= v@.skip(i + 1));
        assert(v@.take(i + 1) =~= v@.take(i as int).push(v@[i as int]));
        assert(v@.take(i as int) + col_upsert(rest, x) =~= v@.take(i + 1) + col_upsert(
            v@.skip(i + 1),
            x,
        ));
        i += 1;
    }
    let ghost before = v@;
    if i < n {
        let ghost rest = before.skip(i as int);
        assert(rest[0] == before[i as int]);
        if same_chars(&v[i].id, &x.id) {
            v.set(i, x);
            assert(rest.drop_first() =~= before.skip(i + 1));
            assert(v@ =~= before.take(i as int) + col_upsert(rest, x));
        } else {
            v.insert(i, x);
            assert(v@ =~= before.take(i as int) + col_upsert(rest, x));
        }
    } else {
        assert(before.skip(i as int) =~= Seq::<Collection>::empty());
        v.push(x);
        assert(v@ =~= before.take(i as int) + col_upsert(before.skip(i as int), x));
    }
}

fn find_col(v: &Vec<Collection>, id: &String) -> (r: Option<usize>)
    ensures
        match r {
            Some(i) => i < v@.len() && col_lookup(v@, id@) == Some(col_view(v@[i as int])),
            None => col_lookup(v@, id@) is None,
        },
{
    let n = v.len();
    let mut i: usize = 0;
    assert(v@.skip(0) =~= v@);
    while i < n
        invariant
            n == v@.len(),
            i <= n,
            col_lookup(v@, id@) == col_lookup(v@.skip(i as int), id@),
        decreases n - i,
    {
        assert(v@.skip(i as int)[0] == v@[i as int]);
        if same_chars(&v[i].id, id) {
            return Some(i);
        }
        assert(v@.skip(i as int).drop_first() =~= v@.skip(i + 1));
        i += 1;
    }
    None
}

fn insert_id(v: &mut Vec<String>, s: String)
    ensures
        str_views(final(v)@) == str_insert(str_views(old(v)@), s@),
{
    let ghost w = str_views(v@);
    let n = v.len();
    let mut i: usize = 0;
    assert(w.skip(0) =~= w);
    assert(w.take(0) + str_insert(w.skip(0), s@) =~= str_insert(w, s@));
    while i < n && !same_chars(&v[i], &s) && !less_chars(&s, &v[i])
        invariant
            n == v@.len(),
            i <= n,
            w == str_views(v@),
            str_insert(w, s@) == w.take(i as int) + str_insert(w.skip(i as int), s@),
        decreases n - i,
    {
        let ghost rest = w.skip(i as int);
        assert(rest[0] == w[i as int]);
        assert(rest.drop_first() =~= w.skip(i + 1));
        assert(w.take(i + 1) =~= w.take(i as int).push(w[i as int]));
        assert(w.take(i as int) + str_insert(rest, s@) =~= w.take(i + 1) + str_insert(
            w.skip(i + 1),
            s@,
        ));
        i += 1;
    }
    if i < n {
        let ghost rest = w.skip(i as int);
        assert(rest[0] == w[i as int]);
        if same_chars(&v[i], &s) {
            assert(w.take(i as int) + rest =~= w);
        } else {
            v.insert(i, s);
            assert(str_views(v@) =~= w.take(i as int) + str_insert(rest, s@));
        }
    } else {
        assert(w.skip(i as int) =~= Seq::<Seq<char>>::empty());
        v.push(s);
        assert(str_views(v@) =~= w.take(i as int) + str_insert(w.skip(i as int), s@));
    }
}

fn insert_ids(v: &mut Vec<String>, xs: &Vec<String>)
    ensures
        str_views(final(v)@) == str_insert_all(str_views(old(v)@), str_views(xs@)),
{
    let ghost start = str_views(v@);
    let n = xs.len();
    for i in 0..n
        invariant
            n == xs@.len(),
            str_views(v@) == str_insert_all(start, str_views(xs@).take(i as int)),
    {
        assert(str_views(xs@).take(i + 1).drop_last() =~= str_views(xs@).take(i as int));
        assert(str_views(xs@).take(i + 1).last() == xs@[i as int]@);
        insert_id(v, xs[i].clone());
    }
    assert(str_views(xs@).take(n as int) =~= str_views(xs@));
}

/// Merges two libraries by last-writer-wins: a local reference stands unless
/// a remote one with the same id was modified strictly later; collections
/// with the same id keep the first one's id and name and unite their
/// reference ids in order. Both lists come out in id order.
pub fn merge_sync_payloads(local: SyncPayload, remote: SyncPayload) -> (r: MergedLibrary)
    ensures
        r.device_id == local.device_id,
        refs_sorted(r.references@),
        forall|k: Seq<char>|
            #[trigger] ref_lookup(r.references@, k) == merged_reference(
                local.references@,
                remote.references@,
                k,
            ),
        cols_sorted(r.collections@),
        forall|k: Seq<char>|
            #[trigger] col_lookup(r.collections@, k) == merged_collection(
                local.collections@,
                remote.collections@,
                k,
            ),
{
    let SyncPayload { device_id, references: local_refs, collections: local_cols, .. } = local;
    let SyncPayload { references: remote_refs, collections: remote_cols, .. } = remote;
    // References: the local records, a later one replacing an earlier one.
    let ghost lr = local_refs@;
    let mut refs: Vec<Reference> = Vec::new();
    let mut rest = local_refs;
    let mut i: usize = 0;
    let n = rest.len();
    while rest.len() > 0
        invariant
            n == lr.len(),
            i <= n,
            rest@ == lr.skip(i as int),
            refs_sorted(refs@),
            forall|k: Seq<char>| #[trigger] ref_lookup(refs@, k) == last_with_id(lr.take(i as int), k),
        decreases rest@.len(),
    {
        let x = rest.remove(0);
        assert(x == lr[i as int]);
        proof {
            lemma_ref_upsert_sorted(refs@, x);
            assert(lr.take(i + 1).drop_last() =~= lr.take(i as int));
            assert forall|k: Seq<char>| #[trigger] ref_lookup(ref_upsert(refs@, x), k) == last_with_id(lr.take(i + 1), k) by {
                lemma_ref_upsert_lookup(refs@, x, k);
            }
        }
        upsert_ref(&mut refs, x);
        assert(rest@ =~= lr.skip(i + 1));
        i += 1;
    }
    assert(lr.take(i as int) =~= lr);
    // Then the remote records, each replacing an older one.
    let ghost rr = remote_refs@;
    let mut rest = remote_refs;
    let mut i: usize = 0;
    let n = rest.len();
    while rest.len() > 0
        invariant
            n == rr.len(),
            i <= n,
            rest@ == rr.skip(i as int),
            refs_sorted(refs@),
            forall|k: Seq<char>|
                #[trigger] ref_lookup(refs@, k) == lww(last_with_id(lr, k), rr.take(i as int), k),
        decreases rest@.len(),
    {
        let x = rest.remove(0);
        assert(x == rr[i as int]);
        assert(rr.take(i + 1).drop_last() =~= rr.take(i as int));
        let replace = match find_ref(&refs, &x.id) {
            Some(j) => less_chars(&refs[j].date_modified, &x.date_modified),
            None => true,
        };
        if replace {
            proof {
                lemma_ref_upsert_sorted(refs@, x);
                assert forall|k: Seq<char>| #[trigger] ref_lookup(ref_upsert(refs@, x), k) == lww(last_with_id(lr, k), rr.take(i + 1), k) by {
                    lemma_ref_upsert_lookup(refs@, x, k);
                }
            }
            upsert_ref(&mut refs, x);
        } else {
            assert forall|k: Seq<char>| #[trigger] ref_lookup(refs@, k) == lww(last_with_id(lr, k), rr.take(i + 1), k) by {
                assert(ref_lookup(refs@, k) == lww(last_with_id(lr, k), rr.take(i as int), k));
            }
        }
        assert(rest@ =~= rr.skip(i + 1));
        i += 1;
    }
    assert(rr.take(i as int) =~= rr);
    // Collections: the local ones, a later one replacing an earlier one.
    let ghost lc = local_cols@;
    let mut cols: Vec<Collection> = Vec::new();
    let mut rest = local_cols;
    let mut i: usize = 0;
    let n = rest.len();
    while rest.len() > 0
        invariant
            n == lc.len(),
            i <= n,
            rest@ == lc.skip(i as int),
            cols_sorted(cols@),
            forall|k: Seq<char>| #[trigger] col_lookup(cols@, k) == last_col_with_id(lc.take(i as int), k),
        decreases rest@.len(),
    {
        let x = rest.remove(0);
        assert(x == lc[i as int]);
        proof {
            lemma_col_upsert_sorted(cols@, x);
            assert(lc.take(i + 1).drop_last() =~= lc.take(i as int));
            assert forall|k: Seq<char>| #[trigger] col_lookup(col_upsert(cols@, x), k) == last_col_with_id(lc.take(i + 1), k) by {
                lemma_col_upsert_lookup(cols@, x, k);
            }
        }
        upsert_col(&mut cols, x);
        assert(rest@ =~= lc.skip(i + 1));
        i += 1;
    }
    assert(lc.take(i as int) =~= lc);
    // Then the remote ones, uniting the reference ids of a known collection.
    let ghost rc = remote_cols@;
    let mut rest = remote_cols;
    let mut i: usize = 0;
    let n = rest.len();
    while rest.len() > 0
        invariant
            n == rc.len(),
            i <= n,
            rest@ == rc.skip(i as int),
            cols_sorted(cols@),
            forall|k: Seq<char>|
                #[trigger] col_lookup(cols@, k) == col_merge(last_col_with_id(lc, k), rc.take(i as int), k),
        decreases rest@.len(),
    {
        let c = rest.remove(0);
        assert(c == rc[i as int]);
        assert(rc.take(i + 1).drop_last() =~= rc.take(i as int));
        let ghost found = col_lookup(cols@, c.id@);
        let ghost cview = col_view(c);
        proof {
            lemma_col_lookup_id(cols@, c.id@);
        }
        let merged = match find_col(&cols, &c.id) {
            Some(j) => {
                let mut ids: Vec<String> = Vec::new();
                assert(str_views(ids@) =~= Seq::<Seq<char>>::empty());
                insert_ids(&mut ids, &cols[j].ref_ids);
                insert_ids(&mut ids, &c.ref_ids);
                let m = Collection { id: cols[j].id.clone(), name: cols[j].name.clone(), ref_ids: ids };
                assert(col_view(m) == (found.unwrap().0, found.unwrap().1, id_union(found.unwrap().2, cview.2)));
                m
            },
            None => c,
        };
        assert(merged.id@ == c.id@);
        assert(col_view(merged) == match found {
            Some(e) => (e.0, e.1, id_union(e.2, cview.2)),
            None => cview,
        });
        proof {
            lemma_col_upsert_sorted(cols@, merged);
            assert forall|k: Seq<char>| #[trigger] col_lookup(col_upsert(cols@, merged), k) == col_merge(last_col_with_id(lc, k), rc.take(i + 1), k) by {
                lemma_col_upsert_lookup(cols@, merged, k);
            }
        }
        upsert_col(&mut cols, merged);
        assert(rest@ =~= rc.skip(i + 1));
        i += 1;
    }
    assert(rc.take(i as int) =~= rc);
    MergedLibrary { device_id, references: refs, collections: cols }
}

// ── Laws ─────────────────────────────────────────────────────────────────────

proof fn lemma_lww(cur: Option<Reference>, remote: Seq<Reference>, k: Seq<char>)
    ensures
        (cur is Some || exists|i: int| 0 <= i < remote.len() && (#[trigger] remote[i]).id@ == k)
            ==> lww(cur, remote, k) is Some,
        lww(cur, remote, k) matches Some(w) ==> {
            &&& (cur matches Some(a) ==> !lex_less(w.date_modified@, a.date_modified@))
            &&& forall|i: int|
                0 <= i < remote.len() && (#[trigger] remote[i]).id@ == k ==> !lex_less(
                    w.date_modified@,
                    remote[i].date_modified@,
                )
            &&& (cur == Some(w) || exists|i: int|
                0 <= i < remote.len() && (#[trigger] remote[i]).id@ == k && remote[i] == w)
        },
    decreases remote.len(),
{
    if let Some(a) = cur {
        lemma_lex_less_irreflexive(a.date_modified@);
    }
    if remote.len() > 0 {
        let rest = remote.drop_last();
        let r = remote.last();
        let n = remote.len();
        lemma_lww(cur, rest, k);
        let before = lww(cur, rest, k);
        assert forall|i: int| 0 <= i < n - 1 implies remote[i] == rest[i] by {}
        if exists|i: int| 0 <= i < remote.len() && (#[trigger] remote[i]).id@ == k {
            let i = choose|i: int| 0 <= i < remote.len() && (#[trigger] remote[i]).id@ == k;
            if i < n - 1 {
                assert(rest[i].id@ == k);
            }
        }
        lemma_lex_less_irreflexive(r.date_modified@);
        if r.id@ != k {
            if let Some(w) = before {
                assert forall|i: int|
                    0 <= i < remote.len() && (#[trigger] remote[i]).id@ == k implies !lex_less(
                    w.date_modified@,
                    remote[i].date_modified@,
                ) by {
                    if i < n - 1 {
                        assert(rest[i].id@ == k);
                    }
                }
                if cur != Some(w) {
                    let i = choose|i: int| 0 <= i < rest.len() && (#[trigger] rest[i]).id@ == k && rest[i] == w;
                    assert(remote[i] == rest[i]);
                }
            }
        } else {
            match before {
                Some(e) => {
                    if lex_less(e.date_modified@, r.date_modified@) {
                        assert(lww(cur, remote, k) == Some(r));
                        if let Some(a) = cur {
                            if lex_less(r.date_modified@, a.date_modified@) {
                                lemma_lex_less_transitive(e.date_modified@, r.date_modified@, a.date_modified@);
                            }
                        }
                        assert forall|i: int|
                            0 <= i < remote.len() && (#[trigger] remote[i]).id@ == k implies !lex_less(
                            r.date_modified@,
                            remote[i].date_modified@,
                        ) by {
                            if i < n - 1 {
                                assert(rest[i].id@ == k);
                                if lex_less(r.date_modified@, remote[i].date_modified@) {
                                    lemma_lex_less_transitive(
                                        e.date_modified@,
                                        r.date_modified@,
                                        remote[i].date_modified@,
                                    );
                                }
                            }
                        }
                        assert(remote[n - 1] == r);
                    } else {
                        assert(lww(cur, remote, k) == Some(e));
                        assert forall|i: int|
                            0 <= i < remote.len() && (#[trigger] remote[i]).id@ == k implies !lex_less(
                            e.date_modified@,
                            remote[i].date_modified@,
                        ) by {
                            if i < n - 1 {
                                assert(rest[i].id@ == k);
                            }
                        }
                        if cur != Some(e) {
                            let i = choose|i: int| 0 <= i < rest.len() && (#[trigger] rest[i]).id@ == k && rest[i] == e;
                            assert(remote[i] == rest[i]);
                        }
                    }
                },
                None => {
                    assert(lww(cur, remote, k) == Some(r));
                    assert forall|i: int|
                        0 <= i < remote.len() && (#[trigger] remote[i]).id@ == k implies !lex_less(
                        r.date_modified@,
                        remote[i].date_modified@,
                    ) by {
                        if i < n - 1 {
                            assert(rest[i].id@ == k);
                        }
                    }
                    assert(remote[n - 1] == r);
                },
            }
        }
    }
}

/// No reference is lost: every id that the local or the remote library holds
/// is in the merge.
pub proof fn law_merge_keeps_every_reference(local: Seq<Reference>, remote: Seq<Reference>, k: Seq<char>)
    requires
        last_with_id(local, k) is Some || exists|i: int| 0 <= i < remote.len() && (#[trigger] remote[i]).id@ == k,
    ensures
        merged_reference(local, remote, k) is Some,
{
    lemma_lww(last_with_id(local, k), remote, k);
}

/// The last writer wins: the merged record with an id is one of the records
/// with that id (the local one or a remote one), and none of them was
/// modified later than it.
pub proof fn law_merge_last_writer_wins(local: Seq<Reference>, remote: Seq<Reference>, k: Seq<char>)
    requires
        merged_reference(local, remote, k) is Some,
    ensures
        ({
            let w = merged_reference(local, remote, k).unwrap();
            &&& (last_with_id(local, k) matches Some(a) ==> !lex_less(
                w.date_modified@,
                a.date_modified@,
            ))
            &&& forall|i: int|
                0 <= i < remote.len() && (#[trigger] remote[i]).id@ == k ==> !lex_less(
                    w.date_modified@,
                    remote[i].date_modified@,
                )
            &&& (last_with_id(local, k) == Some(w) || exists|i: int|
                0 <= i < remote.len() && (#[trigger] remote[i]).id@ == k && remote[i] == w)
        }),
{
    lemma_lww(last_with_id(local, k), remote, k);
}

// ── The integrity hash ───────────────────────────────────────────────────────

/// The SHA-256 digest of `data`, as `sha2::Sha256` computes it.
pub uninterp spec fn sha256_digest(data: Seq<u8>) -> Seq<u8>;

/// Calls `sha2::Sha256::digest`. Claims that the result is the SHA-256
/// digest of `data` (a function of `data` alone, not written out here) and
/// that it is 32 bytes long, the output size of `Sha256`.
#[verifier::external_body]
fn sha256_of(data: &[u8]) -> (r: Vec<u8>)
    ensures
        r@ == sha256_digest(data@),
        r@.len() == 32,
{
    sha2::Sha256::digest(data).to_vec()
}

/// The lower-case hexadecimal digit of `d`.
pub open spec fn hex_digit(d: int) -> char {
    "0123456789abcdef"@[d]
}

/// The bytes written as lower-case hexadecimal, two digits each.
pub open spec fn lower_hex(bytes: Seq<u8>) -> Seq<char>
    decreases bytes.len(),
{
    if bytes.len() == 0 {
        seq![]
    } else {
        let b = bytes.last() as int;
        lower_hex(bytes.drop_last()) + seq![hex_digit(b / 16), hex_digit(b % 16)]
    }
}

/// The integrity hash of a payload: the lower-case hexadecimal SHA-256 of
/// the JSON of its references followed by the JSON of its collections.
pub fn library_hash(references_json: &[u8], collections_json: &[u8]) -> (r: String)
    ensures
        r@ == lower_hex(sha256_digest(references_json@ + collections_json@)),
{
    let mut data: Vec<u8> = Vec::new();
    for i in 0..references_json.len()
        invariant
            data@ == references_json@.take(i as int),
    {
        data.push(references_json[i]);
        assert(data@ =~= references_json@.take(i + 1));
    }
    assert(references_json@.take(references_json@.len() as int) =~= references_json@);
    let ghost start = data@;
    for i in 0..collections_json.len()
        invariant
            start == references_json@,
            data@ == start + collections_json@.take(i as int),
    {
        data.push(collections_json[i]);
        assert(data@ =~= start + collections_json@.take(i + 1));
    }
    assert(collections_json@.take(collections_json@.len() as int) =~= collections_json@);
    let digest = sha256_of(data.as_slice());
    let digits = chars_of("0123456789abcdef");
    proof {
        reveal_strlit("0123456789abcdef");
    }
    let mut out: Vec<char> = Vec::new();
    let n = digest.len();
    for i in 0..n
        invariant
            n == digest@.len(),
            digits@ == "0123456789abcdef"@,
            digits@.len() == 16,
            out@ == lower_hex(digest@.take(i as int)),
    {
        let b = digest[i];
        out.push(digits[(b / 16) as usize]);
        out.push(digits[(b % 16) as usize]);
        proof {
            assert(digest@.take(i + 1).drop_last() =~= digest@.take(i as int));
            assert(digest@.take(i + 1).last() == b);
            assert(out@ =~= lower_hex(digest@.take(i as int)) + seq![hex_digit(b as int / 16), hex_digit(b as int % 16)]);
        }
    }
    assert(digest@.take(n as int) =~= digest@);
    crate::text::string_of(out.as_slice())
}

} // verus!
