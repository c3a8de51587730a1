use vstd::prelude::*;

use crate::advertisement::{
    cond_matches, matches_condition, partial_eq, rows_eq, Advertisement, Condition,
    PartialAdvertisement,
};

verus! {

/// One persisted advertisement with its primary key. Keys are assigned
/// serially at insertion and never change.
pub struct StoredRow {
    pub id: i32,
    pub ad: Advertisement,
}

/// The projection a read returns for one row.
pub open spec fn partial_of(r: StoredRow) -> PartialAdvertisement {
    PartialAdvertisement { id: r.id, title: r.ad.title, end_at: r.ad.end_at }
}

/// The rows of `rows` that match the condition at `now`, in key order.
pub open spec fn matching(rows: Seq<StoredRow>, c: Condition, now: int) -> Seq<StoredRow> {
    rows.filter(|r: StoredRow| cond_matches(r.ad, c, now))
}

/// One page of a sequence: at most `limit` elements starting at `offset`.
pub open spec fn page<T>(s: Seq<T>, limit: int, offset: int) -> Seq<T> {
    if offset >= s.len() || offset < 0 || limit < 0 {
        Seq::empty()
    } else if offset + limit >= s.len() {
        s.subrange(offset, s.len() as int)
    } else {
        s.subrange(offset, offset + limit)
    }
}

/// What a read returns: the matching rows in key order, paged, projected.
pub open spec fn query_spec(
    rows: Seq<StoredRow>,
    c: Condition,
    limit: int,
    offset: int,
    now: int,
) -> Seq<PartialAdvertisement> {
    page(matching(rows, c, now), limit, offset).map(|i: int, r: StoredRow| partial_of(r))
}

/// An in-memory advertisement store carrying the reference semantics of
/// the backing table: what the precompiled statements select is exactly
/// what `query_partial` returns here on the same rows.
pub struct Store {
    pub rows: Vec<StoredRow>,
}

impl Store {
    /// Keys are the serial numbers 1, 2, ... in row order.
    pub open spec fn wf(self) -> bool {
        forall|i: int| 0 <= i < self.rows@.len() ==> (#[trigger] self.rows@[i]).id == i + 1
    }

    /// An empty store.
    pub fn new() -> (r: Store)
        ensures
            r.wf(),
            r.rows@.len() == 0,
    {
        Store { rows: Vec::new() }
    }

    /// Appends one advertisement under the next serial key. The row
    /// becomes visible to every subsequent read.
    pub fn insert(&mut self, ad: Advertisement)
        requires
            old(self).wf(),
            old(self).rows@.len() < i32::MAX,
        ensures
            final(self).wf(),
            final(self).rows@.len() == old(self).rows@.len() + 1,
            final(self).rows@ == old(self).rows@.push(
                StoredRow { id: (old(self).rows@.len() + 1) as i32, ad },
            ),
    {
        let id = self.rows.len() as i32 + 1;
        self.rows.push(StoredRow { id, ad });
    }

    /// Returns one page of the projections of the rows matching `c` at
    /// `now`, in key order. An empty result is a success, not an error:
    /// absence of matches is a valid steady state. `limit = 0` yields an
    /// empty page. No returned row is expired at `now`.
    pub fn query_partial(&self, c: &Condition, limit: usize, offset: usize, now: i64) -> (r: Vec<
        PartialAdvertisement,
    >)
        ensures
            rows_eq(r@, query_spec(self.rows@, *c, limit as int, offset as int, now as int)),
            r@.len() <= limit,
            forall|i: int| 0 <= i < r@.len() ==> (#[trigger] r@[i]).end_at > now,
    {
        let mut all: Vec<PartialAdvertisement> = Vec::new();
        let mut i: usize = 0;
        while i < self.rows.len()
            invariant
                i <= self.rows@.len(),
                rows_eq(
                    all@,
                    matching(self.rows@.take(i as int), *c, now as int).map(
                        |k: int, row: StoredRow| partial_of(row),
                    ),
                ),
                forall|j: int| 0 <= j < all@.len() ==> (#[trigger] all@[j]).end_at > now,
            decreases self.rows@.len() - i,
        {
            let row = &self.rows[i];
            let ghost t0 = self.rows@.take(i as int);
            let ghost t1 = self.rows@.take(i as int + 1);
            if matches_condition(&row.ad, c, now) {
                all.push(
                    PartialAdvertisement {
                        id: row.id,
                        title: row.ad.title.clone(),
                        end_at: row.ad.end_at,
                    },
                );
                proof {
                    reveal(Seq::filter);
                    assert(t1.drop_last() =~= t0);
                    assert(t1.last() == self.rows@[i as int]);
                    assert(matching(t1, *c, now as int) == matching(t0, *c, now as int).push(
                        self.rows@[i as int],
                    ));
                    assert(matching(t1, *c, now as int).map(
                        |k: int, r: StoredRow| partial_of(r),
                    ) =~= matching(t0, *c, now as int).map(
                        |k: int, r: StoredRow| partial_of(r),
                    ).push(partial_of(self.rows@[i as int])));
                    assert(rows_eq(
                        all@,
                        matching(t1, *c, now as int).map(|k: int, r: StoredRow| partial_of(r)),
                    ));
                }
            } else {
                proof {
                    reveal(Seq::filter);
                    assert(t1.drop_last() =~= t0);
                    assert(t1.last() == self.rows@[i as int]);
                    assert(matching(t1, *c, now as int) == matching(t0, *c, now as int));
                }
            }
            i = i + 1;
        }
        proof {
            assert(self.rows@.take(self.rows@.len() as int) =~= self.rows@);
        }
        let mut out: Vec<PartialAdvertisement> = Vec::new();
        let mut k: usize = offset;
        while k < all.len() && out.len() < limit
            invariant
                offset <= k,
                k == offset || k <= all@.len(),
                out@.len() == k - offset,
                out@.len() <= limit,
                forall|j: int|
                    0 <= j < out@.len() ==> offset + j < all@.len() && partial_eq(
                        #[trigger] out@[j],
                        all@[offset + j],
                    ),
                forall|j: int| 0 <= j < out@.len() ==> (#[trigger] out@[j]).end_at > now,
                forall|j: int| 0 <= j < all@.len() ==> (#[trigger] all@[j]).end_at > now,
            decreases all@.len() - k,
        {
            out.push(all[k].duplicate());
            k = k + 1;
        }
        proof {
            let m = matching(self.rows@, *c, now as int).map(
                |q: int, row: StoredRow| partial_of(row),
            );
            let p = page(m, limit as int, offset as int);
            assert(rows_eq(
                out@,
                query_spec(self.rows@, *c, limit as int, offset as int, now as int),
            ));
        }
        out
    }
}

} // verus!
