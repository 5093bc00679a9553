use vstd::prelude::*;
use crate::order::{lemma_precedes_asymmetric, lemma_precedes_transitive, precedes, text_key, text_less};

verus! {

/// A record of a metadata table: identified by a text id, and sorted by a
/// text column in one direction.
pub trait Row: Sized {
    spec fn id_view(&self) -> Seq<char>;

    spec fn sort_key(&self) -> Seq<u8>;

    spec fn descending() -> bool;

    fn duplicate(&self) -> (r: Self)
        ensures
            r == *self,
    ;

    fn row_id(&self) -> (r: &String)
        ensures
            r@ == self.id_view(),
    ;

    fn sort_text(&self) -> (r: &String)
        ensures
            text_key(r@) == self.sort_key(),
    ;

    fn is_descending() -> (r: bool)
        ensures
            r == Self::descending(),
    ;
}

pub open spec fn id_of<T: Row>() -> spec_fn(T) -> Seq<char> {
    |x: T| x.id_view()
}

pub open spec fn key_of<T: Row>() -> spec_fn(T) -> Seq<u8> {
    |x: T| x.sort_key()
}

/// No row goes strictly before a row ahead of it.
pub open spec fn ordered<T>(s: Seq<T>, key: spec_fn(T) -> Seq<u8>, desc: bool) -> bool {
    forall|i: int, j: int|
        #![trigger s[i], s[j]]
        0 <= i < j < s.len() ==> !precedes(key(s[j]), key(s[i]), desc)
}

/// No two rows share an id.
pub open spec fn unique<T>(s: Seq<T>, id: spec_fn(T) -> Seq<char>) -> bool {
    forall|i: int, j: int|
        #![trigger s[i], s[j]]
        0 <= i < s.len() && 0 <= j < s.len() && i != j ==> id(s[i]) != id(s[j])
}

/// The rows that satisfy `keep`, in their order.
pub open spec fn kept<T>(s: Seq<T>, keep: spec_fn(T) -> bool) -> Seq<T>
    decreases s.len(),
{
    if s.len() == 0 {
        Seq::empty()
    } else {
        let rest = kept(s.drop_last(), keep);
        if keep(s.last()) {
            rest.push(s.last())
        } else {
            rest
        }
    }
}

/// Holds of the rows whose id is not `k`.
pub open spec fn other_id<T>(id: spec_fn(T) -> Seq<char>, k: Seq<char>) -> spec_fn(T) -> bool {
    |x: T| id(x) != k
}

/// The rows whose id is not `k`.
pub open spec fn without<T>(s: Seq<T>, id: spec_fn(T) -> Seq<char>, k: Seq<char>) -> Seq<T> {
    kept(s, other_id(id, k))
}

/// Where a row with sort key `k` goes: before the first row that it
/// strictly precedes, after any rows with an equal key.
pub open spec fn insert_pos<T>(s: Seq<T>, k: Seq<u8>, key: spec_fn(T) -> Seq<u8>, desc: bool) -> nat
    decreases s.len(),
{
    if s.len() == 0 {
        0
    } else if precedes(k, key(s[0]), desc) {
        0
    } else {
        1 + insert_pos(s.drop_first(), k, key, desc)
    }
}

/// `s` with `r` put in its place in the order.
pub open spec fn inserted<T>(s: Seq<T>, r: T, key: spec_fn(T) -> Seq<u8>, desc: bool) -> Seq<T> {
    s.insert(insert_pos(s, key(r), key, desc) as int, r)
}

/// Insert-or-replace: the rows with `r`'s id are dropped, then `r` is put
/// in its place in the order.
pub open spec fn upserted<T: Row>(s: Seq<T>, r: T) -> Seq<T> {
    inserted(without(s, id_of::<T>(), r.id_view()), r, key_of::<T>(), T::descending())
}

/// The first row whose id is `k`.
pub open spec fn find<T>(s: Seq<T>, id: spec_fn(T) -> Seq<char>, k: Seq<char>) -> Option<T>
    decreases s.len(),
{
    if s.len() == 0 {
        None
    } else if id(s[0]) == k {
        Some(s[0])
    } else {
        find(s.drop_first(), id, k)
    }
}

/// A well-formed table: sorted by its column, ids unique.
pub open spec fn table_wf<T: Row>(s: Seq<T>) -> bool {
    ordered(s, key_of::<T>(), T::descending()) && unique(s, id_of::<T>())
}

pub proof fn lemma_kept_from<T>(s: Seq<T>, keep: spec_fn(T) -> bool)
    ensures
        kept(s, keep).len() <= s.len(),
        forall|k: int|
            #![trigger kept(s, keep)[k]]
            0 <= k < kept(s, keep).len() ==> keep(kept(s, keep)[k]) && s.contains(kept(s, keep)[k]),
    decreases s.len(),
{
    if s.len() > 0 {
        let d = s.drop_last();
        lemma_kept_from(d, keep);
        let rest = kept(d, keep);
        let t = kept(s, keep);
        assert forall|k: int| #![trigger t[k]] 0 <= k < t.len() implies keep(t[k]) && s.contains(t[k]) by {
            if k < rest.len() {
                assert(t[k] == rest[k]);
                assert(d.contains(rest[k]));
                let m = choose|m: int| 0 <= m < d.len() && d[m] == rest[k];
                assert(s[m] == rest[k]);
            } else {
                assert(s[s.len() - 1] == kept(s, keep)[k]);
            }
        }
    }
}

pub proof fn lemma_kept_ordered<T>(s: Seq<T>, keep: spec_fn(T) -> bool, key: spec_fn(T) -> Seq<u8>, desc: bool)
    requires
        ordered(s, key, desc),
    ensures
        ordered(kept(s, keep), key, desc),
    decreases s.len(),
{
    if s.len() > 0 {
        let d = s.drop_last();
        assert(ordered(d, key, desc)) by {
            assert forall|i: int, j: int| 0 <= i < j < d.len() implies !precedes(
                key(#[trigger] d[j]),
                key(#[trigger] d[i]),
                desc,
            ) by {
                assert(d[i] == s[i] && d[j] == s[j]);
            }
        }
        lemma_kept_ordered(d, keep, key, desc);
        lemma_kept_from(d, keep);
        let rest = kept(d, keep);
        let t = kept(s, keep);
        if keep(s.last()) {
            assert forall|i: int, j: int| 0 <= i < j < t.len() implies !precedes(
                key(#[trigger] t[j]),
                key(#[trigger] t[i]),
                desc,
            ) by {
                if j == t.len() - 1 {
                    assert(t[i] == rest[i]);
                    assert(d.contains(rest[i]));
                    let m = choose|m: int| 0 <= m < d.len() && d[m] == rest[i];
                    assert(s[m] == t[i]);
                    assert(s[s.len() - 1] == t[j]);
                } else {
                    assert(t[i] == rest[i] && t[j] == rest[j]);
                }
            }
        }
    }
}

pub proof fn lemma_kept_unique<T>(s: Seq<T>, keep: spec_fn(T) -> bool, id: spec_fn(T) -> Seq<char>)
    requires
        unique(s, id),
    ensures
        unique(kept(s, keep), id),
    decreases s.len(),
{
    if s.len() > 0 {
        let d = s.drop_last();
        assert(unique(d, id)) by {
            assert forall|i: int, j: int|
                0 <= i < d.len() && 0 <= j < d.len() && i != j implies id(#[trigger] d[i]) != id(
                #[trigger] d[j],
            ) by {
                assert(d[i] == s[i] && d[j] == s[j]);
            }
        }
        lemma_kept_unique(d, keep, id);
        lemma_kept_from(d, keep);
        let rest = kept(d, keep);
        let t = kept(s, keep);
        if keep(s.last()) {
            assert forall|i: int, j: int|
                0 <= i < t.len() && 0 <= j < t.len() && i != j implies id(#[trigger] t[i]) != id(
                #[trigger] t[j],
            ) by {
                if i == t.len() - 1 {
                    assert(t[j] == rest[j]);
                    assert(d.contains(rest[j]));
                    let m = choose|m: int| 0 <= m < d.len() && d[m] == rest[j];
                    assert(s[m] == t[j]);
                    assert(s[s.len() - 1] == t[i]);
                } else if j == t.len() - 1 {
                    assert(t[i] == rest[i]);
                    assert(d.contains(rest[i]));
                    let m = choose|m: int| 0 <= m < d.len() && d[m] == rest[i];
                    assert(s[m] == t[i]);
                    assert(s[s.len() - 1] == t[j]);
                } else {
                    assert(t[i] == rest[i] && t[j] == rest[j]);
                }
            }
        }
    }
}

pub proof fn lemma_insert_pos<T>(s: Seq<T>, k: Seq<u8>, key: spec_fn(T) -> Seq<u8>, desc: bool)
    ensures
        insert_pos(s, k, key, desc) <= s.len(),
        forall|i: int|
            0 <= i < insert_pos(s, k, key, desc) ==> !precedes(k, key(#[trigger] s[i]), desc),
        insert_pos(s, k, key, desc) < s.len() ==> precedes(
            k,
            key(s[insert_pos(s, k, key, desc) as int]),
            desc,
        ),
    decreases s.len(),
{
    if s.len() > 0 && !precedes(k, key(s[0]), desc) {
        let d = s.drop_first();
        lemma_insert_pos(d, k, key, desc);
        assert forall|i: int| 0 <= i < insert_pos(s, k, key, desc) implies !precedes(
            k,
            key(#[trigger] s[i]),
            desc,
        ) by {
            if i > 0 {
                assert(s[i] == d[i - 1]);
            }
        }
    }
}

pub proof fn lemma_insert_pos_is<T>(s: Seq<T>, k: Seq<u8>, key: spec_fn(T) -> Seq<u8>, desc: bool, p: int)
    requires
        0 <= p <= s.len(),
        forall|i: int| 0 <= i < p ==> !precedes(k, key(#[trigger] s[i]), desc),
        p < s.len() ==> precedes(k, key(s[p]), desc),
    ensures
        insert_pos(s, k, key, desc) == p,
    decreases s.len(),
{
    if s.len() > 0 && p > 0 {
        let d = s.drop_first();
        assert forall|i: int| 0 <= i < p - 1 implies !precedes(k, key(#[trigger] d[i]), desc) by {
            assert(d[i] == s[i + 1]);
        }
        if p < s.len() {
            assert(d[p - 1] == s[p]);
        }
        lemma_insert_pos_is(d, k, key, desc, p - 1);
    }
}

pub proof fn lemma_inserted_ordered<T>(s: Seq<T>, r: T, key: spec_fn(T) -> Seq<u8>, desc: bool)
    requires
        ordered(s, key, desc),
    ensures
        ordered(inserted(s, r, key, desc), key, desc),
{
    let p = insert_pos(s, key(r), key, desc) as int;
    lemma_insert_pos(s, key(r), key, desc);
    let t = inserted(s, r, key, desc);
    assert forall|i: int, j: int| 0 <= i < j < t.len() implies !precedes(
        key(#[trigger] t[j]),
        key(#[trigger] t[i]),
        desc,
    ) by {
        if j < p {
            assert(t[i] == s[i] && t[j] == s[j]);
        } else if j == p {
            assert(t[i] == s[i] && t[j] == r);
        } else if i < p {
            assert(t[i] == s[i] && t[j] == s[j - 1]);
        } else if i == p {
            assert(t[i] == r && t[j] == s[j - 1]);
            lemma_precedes_asymmetric(key(s[p]), key(r), desc);
            if j - 1 > p {
                assert(!precedes(key(s[j - 1]), key(s[p]), desc));
                if precedes(key(s[j - 1]), key(r), desc) {
                    lemma_precedes_transitive(key(s[j - 1]), key(r), key(s[p]), desc);
                }
            }
        } else {
            assert(t[i] == s[i - 1] && t[j] == s[j - 1]);
        }
    }
}

pub proof fn lemma_inserted_unique<T>(s: Seq<T>, r: T, key: spec_fn(T) -> Seq<u8>, desc: bool, id: spec_fn(T) -> Seq<char>)
    requires
        unique(s, id),
        forall|i: int| 0 <= i < s.len() ==> id(#[trigger] s[i]) != id(r),
    ensures
        unique(inserted(s, r, key, desc), id),
        inserted(s, r, key, desc).len() == s.len() + 1,
        inserted(s, r, key, desc)[insert_pos(s, key(r), key, desc) as int] == r,
{
    let p = insert_pos(s, key(r), key, desc) as int;
    lemma_insert_pos(s, key(r), key, desc);
    let t = inserted(s, r, key, desc);
    assert forall|i: int, j: int|
        0 <= i < t.len() && 0 <= j < t.len() && i != j implies id(#[trigger] t[i]) != id(
        #[trigger] t[j],
    ) by {
        if i != p && j != p {
            let a = if i < p { i } else { i - 1 };
            let b = if j < p { j } else { j - 1 };
            assert(t[i] == s[a] && t[j] == s[b]);
        } else if i == p {
            let b = if j < p { j } else { j - 1 };
            assert(t[j] == s[b]);
        } else {
            let a = if i < p { i } else { i - 1 };
            assert(t[i] == s[a]);
        }
    }
}

pub proof fn lemma_find_at<T>(s: Seq<T>, id: spec_fn(T) -> Seq<char>, k: Seq<char>, p: int)
    requires
        0 <= p < s.len(),
        id(s[p]) == k,
        forall|i: int| 0 <= i < s.len() && i != p ==> id(#[trigger] s[i]) != k,
    ensures
        find(s, id, k) == Some(s[p]),
    decreases s.len(),
{
    if p > 0 {
        let d = s.drop_first();
        assert forall|i: int| 0 <= i < d.len() && i != p - 1 implies id(#[trigger] d[i]) != k by {
            assert(d[i] == s[i + 1]);
        }
        lemma_find_at(d, id, k, p - 1);
    }
}

pub proof fn lemma_find_none<T>(s: Seq<T>, id: spec_fn(T) -> Seq<char>, k: Seq<char>)
    requires
        forall|i: int| 0 <= i < s.len() ==> id(#[trigger] s[i]) != k,
    ensures
        find(s, id, k) == None::<T>,
    decreases s.len(),
{
    if s.len() > 0 {
        let d = s.drop_first();
        assert forall|i: int| 0 <= i < d.len() implies id(#[trigger] d[i]) != k by {
            assert(d[i] == s[i + 1]);
        }
        lemma_find_none(d, id, k);
    }
}

/// A filter that keeps every row keeps the rows as they are.
pub proof fn lemma_kept_all<T>(s: Seq<T>, keep: spec_fn(T) -> bool)
    requires
        forall|i: int| 0 <= i < s.len() ==> keep(#[trigger] s[i]),
    ensures
        kept(s, keep) == s,
    decreases s.len(),
{
    if s.len() > 0 {
        let d = s.drop_last();
        assert forall|i: int| 0 <= i < d.len() implies keep(#[trigger] d[i]) by {
            assert(d[i] == s[i]);
        }
        lemma_kept_all(d, keep);
        assert(keep(s[s.len() - 1]));
        assert(d.push(s.last()) =~= s);
    }
}

/// A lookup that finds nothing means that no row has that id.
pub proof fn lemma_find_none_absent<T>(s: Seq<T>, id: spec_fn(T) -> Seq<char>, k: Seq<char>)
    requires
        find(s, id, k) == None::<T>,
    ensures
        forall|i: int| 0 <= i < s.len() ==> id(#[trigger] s[i]) != k,
    decreases s.len(),
{
    if s.len() > 0 {
        let d = s.drop_first();
        lemma_find_none_absent(d, id, k);
        assert forall|i: int| 0 <= i < s.len() implies id(#[trigger] s[i]) != k by {
            if i > 0 {
                assert(s[i] == d[i - 1]);
            }
        }
    }
}

/// Insert-or-replace of a row whose id is absent adds it without
/// replacing any row.
pub proof fn lemma_upsert_absent<T: Row>(s: Seq<T>, r: T)
    requires
        find(s, id_of::<T>(), r.id_view()) == None::<T>,
    ensures
        upserted(s, r) == inserted(s, r, key_of::<T>(), T::descending()),
{
    lemma_find_none_absent(s, id_of::<T>(), r.id_view());
    let keep = other_id(id_of::<T>(), r.id_view());
    assert forall|i: int| 0 <= i < s.len() implies keep(#[trigger] s[i]) by {
        assert(id_of::<T>()(s[i]) != r.id_view());
    }
    lemma_kept_all(s, keep);
}

/// Insert-or-replace keeps a table well formed, holds the new row once,
/// and a lookup by its id then finds it.
pub proof fn lemma_upserted<T: Row>(s: Seq<T>, r: T)
    requires
        table_wf(s),
    ensures
        table_wf(upserted(s, r)),
        upserted(s, r).contains(r),
        find(upserted(s, r), id_of::<T>(), r.id_view()) == Some(r),
{
    let w = without(s, id_of::<T>(), r.id_view());
    let keep = other_id(id_of::<T>(), r.id_view());
    lemma_kept_ordered(s, keep, key_of::<T>(), T::descending());
    lemma_kept_unique(s, keep, id_of::<T>());
    lemma_kept_from(s, keep);
    assert forall|i: int| 0 <= i < w.len() implies id_of::<T>()(#[trigger] w[i]) != id_of::<T>()(r) by {
        assert(keep(w[i]));
    }
    lemma_inserted_ordered(w, r, key_of::<T>(), T::descending());
    lemma_inserted_unique(w, r, key_of::<T>(), T::descending(), id_of::<T>());
    let t = upserted(s, r);
    let p = insert_pos(w, key_of::<T>()(r), key_of::<T>(), T::descending()) as int;
    lemma_insert_pos(w, key_of::<T>()(r), key_of::<T>(), T::descending());
    assert(t[p] == r);
    assert forall|i: int| 0 <= i < t.len() && i != p implies id_of::<T>()(#[trigger] t[i]) != r.id_view() by {
        let a = if i < p { i } else { i - 1 };
        assert(t[i] == w[a]);
    }
    lemma_find_at(t, id_of::<T>(), r.id_view(), p);
}

/// Deleting by id keeps a table well formed, and a lookup by that id then
/// finds nothing.
pub proof fn lemma_without<T: Row>(s: Seq<T>, k: Seq<char>)
    requires
        table_wf(s),
    ensures
        table_wf(without(s, id_of::<T>(), k)),
        find(without(s, id_of::<T>(), k), id_of::<T>(), k) == None::<T>,
{
    let keep = other_id(id_of::<T>(), k);
    lemma_kept_ordered(s, keep, key_of::<T>(), T::descending());
    lemma_kept_unique(s, keep, id_of::<T>());
    lemma_kept_from(s, keep);
    let w = without(s, id_of::<T>(), k);
    assert forall|i: int| 0 <= i < w.len() implies id_of::<T>()(#[trigger] w[i]) != k by {
        assert(keep(w[i]));
    }
    lemma_find_none(w, id_of::<T>(), k);
}

/// The rows of `rows` whose id is not `id`, in their order.
pub fn rows_without<T: Row>(rows: &Vec<T>, id: &String) -> (r: Vec<T>)
    ensures
        r@ == without(rows@, id_of::<T>(), id@),
{
    let mut r: Vec<T> = Vec::new();
    let mut i: usize = 0;
    assert(rows@.take(0) =~= Seq::<T>::empty());
    while i < rows.len()
        invariant
            i <= rows@.len(),
            r@ == kept(rows@.take(i as int), other_id(id_of::<T>(), id@)),
        decreases rows@.len() - i,
    {
        assert(rows@.take(i + 1).drop_last() =~= rows@.take(i as int));
        assert(rows@.take(i + 1).last() == rows@[i as int]);
        assert(other_id(id_of::<T>(), id@)(rows@[i as int]) == (rows@[i as int].id_view() != id@));
        if !rows[i].row_id().eq(id) {
            r.push(rows[i].duplicate());
        }
        i = i + 1;
    }
    assert(rows@.take(i as int) =~= rows@);
    r
}

/// Whether `a` strictly goes before `b` in the table's order.
fn goes_before<T: Row>(a: &T, b: &T, desc: bool) -> (r: bool)
    ensures
        r == precedes(a.sort_key(), b.sort_key(), desc),
{
    if desc {
        text_less(b.sort_text().as_str(), a.sort_text().as_str())
    } else {
        text_less(a.sort_text().as_str(), b.sort_text().as_str())
    }
}

/// Puts `row` in its place in the order of `rows`.
pub fn insert_row<T: Row>(rows: &mut Vec<T>, row: T)
    requires
        old(rows)@.len() < usize::MAX,
    ensures
        final(rows)@ == inserted(old(rows)@, row, key_of::<T>(), T::descending()),
{
    let desc = T::is_descending();
    let mut p: usize = 0;
    while p < rows.len() && !goes_before(&row, &rows[p], desc)
        invariant
            p <= rows@.len(),
            desc == T::descending(),
            forall|i: int|
                0 <= i < p ==> !precedes(key_of::<T>()(row), key_of::<T>()(#[trigger] rows@[i]), desc),
        decreases rows@.len() - p,
    {
        p = p + 1;
    }
    proof {
        lemma_insert_pos_is(rows@, key_of::<T>()(row), key_of::<T>(), desc, p as int);
    }
    rows.insert(p, row);
}

/// The first row of `rows` whose id is `id`.
pub fn find_row<T: Row>(rows: &Vec<T>, id: &String) -> (r: Option<T>)
    ensures
        r == find(rows@, id_of::<T>(), id@),
{
    let mut i: usize = 0;
    assert(rows@.skip(0) =~= rows@);
    while i < rows.len()
        invariant
            i <= rows@.len(),
            find(rows@, id_of::<T>(), id@) == find(rows@.skip(i as int), id_of::<T>(), id@),
        decreases rows@.len() - i,
    {
        assert(rows@.skip(i as int).drop_first() =~= rows@.skip(i + 1));
        assert(rows@.skip(i as int)[0] == rows@[i as int]);
        if rows[i].row_id().eq(id) {
            return Some(rows[i].duplicate());
        }
        i = i + 1;
    }
    None
}

/// Insert-or-replace of `row` by its id.
pub fn upsert_row<T: Row>(rows: &mut Vec<T>, row: T)
    requires
        old(rows)@.len() < usize::MAX,
    ensures
        final(rows)@ == upserted(old(rows)@, row),
{
    let w = rows_without(rows, row.row_id());
    proof {
        lemma_kept_from(old(rows)@, other_id(id_of::<T>(), row.id_view()));
    }
    *rows = w;
    insert_row(rows, row);
}

/// Deletes the rows whose id is `id`.
pub fn delete_row<T: Row>(rows: &mut Vec<T>, id: &String)
    ensures
        final(rows)@ == without(old(rows)@, id_of::<T>(), id@),
{
    let w = rows_without(rows, id);
    *rows = w;
}

} // verus!
