//! Repository: the store model and the six operations over it.
//!
//! The store is modelled explicitly as the ordered table of rows plus the
//! next server-assigned id; each operation's contract says exactly what the
//! corresponding unit of work leaves behind. A real relational store behind
//! a connection pool presents the same states to its clients: one row per
//! id, rows ordered by id, writes visible wholesale or not at all.

use vstd::prelude::*;
use crate::errors::RepoError;
use crate::model::{make_row, redact, User, UserRequest, UserTable, PaginationRequest, Respuesta};
use crate::query::{build_query, request_ok, spec_offset, column_of, order_of};
use crate::sorting::{sort_rows, sort_spec};
use crate::text::{contains_bytes, sbytes};

verus! {

/// The table is well formed: ids strictly increase (so listing order is id
/// order and ids are unique), and every id is positive and below the next
/// id the server will assign.
pub open spec fn wf_rows(rows: Seq<User>, next_id: int) -> bool {
    &&& forall|i: int, j: int| 0 <= i < j < rows.len() ==> rows[i].id < rows[j].id
    &&& forall|i: int| 0 <= i < rows.len() ==> 1 <= #[trigger] rows[i].id < next_id
}

/// In-memory model of the user table together with the id counter.
pub struct Store {
    pub rows: Vec<User>,
    pub next_id: i32,
}

impl Store {
    /// Well-formedness: constructors establish it and every operation
    /// preserves it.
    pub open spec fn wf(self) -> bool {
        wf_rows(self.rows@, self.next_id as int) && self.next_id >= 1
    }

    /// An empty store; the first assigned id will be 1.
    pub fn new() -> (r: Store)
        ensures
            r.wf(),
            r.rows@ == Seq::<User>::empty(),
            r.next_id == 1,
    {
        let rows: Vec<User> = Vec::new();
        Store { rows, next_id: 1 }
    }

    /// How many rows the store holds.
    pub fn row_count(&self) -> (r: usize)
        ensures
            r == self.rows@.len(),
    {
        self.rows.len()
    }
}

/// Whether some row carries the given id.
pub open spec fn has_id(rows: Seq<User>, id: i32) -> bool {
    exists|i: int| 0 <= i < rows.len() && rows[i].id == id
}

/// Whether a row matches the substring filter: its firstname is present and
/// holds the filter's bytes as a substring. An absent firstname matches
/// nothing, as a `LIKE` on a null column does.
pub open spec fn row_matches(u: User, f: Seq<u8>) -> bool {
    match u.firstname {
        Some(s) => contains_bytes(sbytes(s), f),
        None => false,
    }
}

/// The rows that match the filter, in table order.
pub open spec fn filter_rows_spec(rows: Seq<User>, f: Seq<u8>) -> Seq<User> {
    rows.filter(|u: User| row_matches(u, f))
}

/// The rows that survive deleting the given id.
pub open spec fn delete_rows_spec(rows: Seq<User>, id: i32) -> Seq<User> {
    rows.filter(|u: User| u.id != id)
}

proof fn lemma_ids_lower_bound(rows: Seq<User>, next_id: int, i: int)
    requires
        wf_rows(rows, next_id),
        0 <= i < rows.len(),
    ensures
        rows[i].id >= i + 1,
    decreases i,
{
    if i > 0 {
        lemma_ids_lower_bound(rows, next_id, i - 1);
        assert(rows[i - 1].id < rows[i].id);
    }
}

/// A well-formed table has fewer rows than the next id: every count fits
/// the store's signed 64-bit count type.
pub proof fn lemma_wf_len_bound(rows: Seq<User>, next_id: int)
    requires
        wf_rows(rows, next_id),
        next_id >= 1,
    ensures
        rows.len() <= next_id - 1,
{
    if rows.len() > 0 {
        let last = rows.len() - 1;
        lemma_ids_lower_bound(rows, next_id, last);
        assert(rows[last].id >= last + 1);
        assert(rows[last].id < next_id);
    }
}

proof fn lemma_filter_noop(s: Seq<User>, pred: spec_fn(User) -> bool)
    requires
        forall|i: int| 0 <= i < s.len() ==> pred(#[trigger] s[i]),
    ensures
        s.filter(pred) == s,
    decreases s.len(),
{
    reveal(Seq::filter);
    if s.len() > 0 {
        assert(forall|i: int|
            0 <= i < s.drop_last().len() ==> pred(#[trigger] s.drop_last()[i]));
        lemma_filter_noop(s.drop_last(), pred);
        assert(s.filter(pred) =~= s);
    } else {
        assert(s.filter(pred) =~= s);
    }
}

proof fn lemma_filter_unique_remove(rows: Seq<User>, i: int, id: i32)
    requires
        0 <= i < rows.len(),
        rows[i].id == id,
        forall|j: int| 0 <= j < rows.len() && j != i ==> #[trigger] rows[j].id != id,
    ensures
        delete_rows_spec(rows, id) == rows.remove(i),
    decreases rows.len(),
{
    reveal(Seq::filter);
    let pred = |u: User| u.id != id;
    if i == rows.len() - 1 {
        assert(forall|j: int|
            0 <= j < rows.drop_last().len() ==> pred(#[trigger] rows.drop_last()[j]));
        lemma_filter_noop(rows.drop_last(), pred);
        assert(rows.filter(pred) =~= rows.remove(i));
    } else {
        assert(forall|j: int|
            0 <= j < rows.drop_last().len() && j != i ==> #[trigger] rows.drop_last()[j].id
                != id);
        lemma_filter_unique_remove(rows.drop_last(), i, id);
        assert(pred(rows.last()));
        assert(rows.filter(pred) == rows.drop_last().filter(pred).push(rows.last()));
        assert(rows.remove(i) =~= rows.drop_last().remove(i).push(rows.last()));
    }
}

/// Scans for the first row with the given id.
fn find_index(rows: &Vec<User>, id: i32) -> (r: Option<usize>)
    ensures
        match r {
            Some(i) => i < rows@.len() && rows@[i as int].id == id,
            None => !has_id(rows@, id),
        },
{
    let n = rows.len();
    let mut i: usize = 0;
    while i < n
        invariant
            n == rows@.len(),
            i <= n,
            forall|j: int| 0 <= j < i ==> rows@[j].id != id,
        decreases n - i,
    {
        if rows[i].id == id {
            return Some(i);
        }
        i = i + 1;
    }
    None
}

/// Collects exact copies of the rows that match the filter, in table order.
fn filter_matching(rows: &Vec<User>, filter: &String) -> (r: Vec<User>)
    ensures
        r@ == filter_rows_spec(rows@, sbytes(*filter)),
{
    let n = rows.len();
    let mut out: Vec<User> = Vec::new();
    let mut i: usize = 0;
    proof {
        assert(rows@.subrange(0, 0) =~= Seq::<User>::empty());
        reveal(Seq::filter);
    }
    while i < n
        invariant
            n == rows@.len(),
            i <= n,
            out@ == filter_rows_spec(rows@.subrange(0, i as int), sbytes(*filter)),
        decreases n - i,
    {
        let matched = match &rows[i].firstname {
            Some(s) => crate::text::string_contains(s, filter),
            None => false,
        };
        proof {
            reveal(Seq::filter);
            assert(rows@.subrange(0, i as int + 1).drop_last() =~= rows@.subrange(0, i as int));
            assert(rows@.subrange(0, i as int + 1).last() == rows@[i as int]);
            assert(matched == row_matches(rows@[i as int], sbytes(*filter)));
        }
        if matched {
            out.push(rows[i].duplicate());
        }
        i = i + 1;
    }
    proof {
        assert(rows@.subrange(0, n as int) =~= rows@);
    }
    out
}

impl User {
    /// Unfiltered listing: every row, in id-ascending table order, with the
    /// password redacted.
    pub fn find_all(store: &Store) -> (r: Vec<User>)
        requires
            store.wf(),
        ensures
            r@.len() == store.rows@.len(),
            forall|i: int| 0 <= i < r@.len() ==> r@[i] == redact(store.rows@[i]),
            forall|i: int, j: int| 0 <= i < j < r@.len() ==> r@[i].id < r@[j].id,
    {
        let n = store.rows.len();
        let mut out: Vec<User> = Vec::new();
        let mut i: usize = 0;
        while i < n
            invariant
                n == store.rows@.len(),
                i <= n,
                out@.len() == i,
                forall|k: int| 0 <= k < i ==> out@[k] == redact(store.rows@[k]),
            decreases n - i,
        {
            out.push(store.rows[i].redacted());
            i = i + 1;
        }
        out
    }

    /// Filtered, sorted, paginated listing together with the total count of
    /// matching rows.
    ///
    /// Validation happens first: a sort column or direction outside the
    /// whitelist or a non-positive pagination parameter is a
    /// `ValidationError`, and the store is not consulted at all. On success
    /// the items are one window of the matching rows sorted by the requested
    /// column, each redacted, and `total_count` counts every matching row,
    /// independent of the window.
    pub fn find_all_with_pagination(store: &Store, req: &PaginationRequest) -> (r: Result<
        UserTable,
        RepoError,
    >)
        requires
            store.wf(),
        ensures
            match r {
                Ok(t) => {
                    let matched = filter_rows_spec(store.rows@, sbytes(req.filter));
                    let sorted = sort_spec(
                        matched,
                        column_of(req.sortcolumn@)->0,
                        order_of(req.sortorder@)->0,
                    );
                    let off = spec_offset(req.pagenumber, req.pagesize);
                    &&& request_ok(*req)
                    &&& t.total_count == matched.len()
                    &&& t.items@.len() <= req.pagesize
                    &&& t.items@.len() == if off >= sorted.len() {
                        0int
                    } else if off + req.pagesize <= sorted.len() {
                        req.pagesize as int
                    } else {
                        sorted.len() - off
                    }
                    &&& forall|i: int|
                        0 <= i < t.items@.len() ==> t.items@[i] == redact(sorted[off + i])
                },
                Err(e) => e == RepoError::ValidationError && !request_ok(*req),
            },
    {
        let q = match build_query(req) {
            Ok(q) => q,
            Err(e) => {
                return Err(e);
            },
        };
        let matched = filter_matching(&store.rows, &req.filter);
        let total = matched.len();
        proof {
            broadcast use vstd::prelude::Seq::lemma_filter_len;

            lemma_wf_len_bound(store.rows@, store.next_id as int);
        }
        let total_count: i64 = total as i64;
        let sorted = sort_rows(matched, q.column, q.order);
        proof {
            crate::sorting::lemma_sort_spec_props(
                filter_rows_spec(store.rows@, sbytes(req.filter)),
                q.column,
                q.order,
            );
        }
        let len = sorted.len();
        let mut items: Vec<User> = Vec::new();
        if q.offset < len as u64 {
            let start: usize = q.offset as usize;
            let remaining = len - start;
            let take: usize = if (q.pagesize as u64) < (remaining as u64) {
                q.pagesize as usize
            } else {
                remaining
            };
            let mut k: usize = 0;
            while k < take
                invariant
                    len == sorted@.len(),
                    start + take <= sorted@.len(),
                    k <= take,
                    items@.len() == k,
                    forall|i: int| 0 <= i < k ==> items@[i] == redact(sorted@[start + i]),
                decreases take - k,
            {
                items.push(sorted[start + k].redacted());
                k = k + 1;
            }
        }
        Ok(UserTable { items, total_count })
    }

    /// Fetch by id: the one matching row, redacted; `NotFound` exactly when
    /// no row carries the id.
    pub fn find_by_id(id: i32, store: &Store) -> (r: Result<User, RepoError>)
        requires
            store.wf(),
        ensures
            match r {
                Ok(u) => has_id(store.rows@, id) && forall|j: int|
                    0 <= j < store.rows@.len() && store.rows@[j].id == id ==> u == redact(
                        store.rows@[j],
                    ),
                Err(e) => e == RepoError::NotFound && !has_id(store.rows@, id),
            },
    {
        match find_index(&store.rows, id) {
            Some(i) => {
                proof {
                    assert forall|j: int|
                        0 <= j < store.rows@.len() && store.rows@[j].id == id implies j
                        == i as int by {
                        if j < i as int {
                            assert(store.rows@[j].id < store.rows@[i as int].id);
                        } else if j > i as int {
                            assert(store.rows@[i as int].id < store.rows@[j].id);
                        }
                    }
                }
                Ok(store.rows[i].redacted())
            },
            None => Err(RepoError::NotFound),
        }
    }

    /// Create: one unit of work that inserts a row with the server-assigned
    /// id and both timestamps set to `now`, and returns the stored entity.
    /// The caller supplies the clock reading; the store model cannot fail,
    /// so the commit is unconditional.
    pub fn create(req: &UserRequest, store: &mut Store, now: i64) -> (r: User)
        requires
            old(store).wf(),
            old(store).next_id < i32::MAX,
        ensures
            final(store).wf(),
            final(store).rows@ == old(store).rows@.push(
                make_row(old(store).next_id, *req, now, now),
            ),
            final(store).next_id == old(store).next_id + 1,
            r == make_row(old(store).next_id, *req, now, now),
    {
        let id = store.next_id;
        let row = crate::model::user_from_row(
            id,
            Some(req.firstname.clone()),
            Some(req.lastname.clone()),
            Some(req.email.clone()),
            Some(req.password.clone()),
            Some(req.mobilephone.clone()),
            now,
            now,
            Some(req.isactive),
        );
        let stored = row.duplicate();
        store.rows.push(stored);
        store.next_id = id + 1;
        proof {
            let rows2 = store.rows@;
            assert forall|i: int, j: int| 0 <= i < j < rows2.len() implies rows2[i].id
                < rows2[j].id by {
                if j < rows2.len() - 1 {
                    assert(old(store).rows@[i].id < old(store).rows@[j].id);
                } else {
                    assert(old(store).rows@[i].id < old(store).next_id);
                }
            }
            assert(forall|i: int|
                0 <= i < rows2.len() ==> 1 <= #[trigger] rows2[i].id < store.next_id);
        }
        row
    }

    /// Update: one unit of work that replaces every mutable field of the row
    /// with the given id wholesale, keeps `creationdate`, sets `lastupdate`
    /// to `now`, and returns the updated entity. `NotFound` exactly when no
    /// row carries the id, and then the store is left unchanged.
    pub fn update(id: i32, req: &UserRequest, store: &mut Store, now: i64) -> (r: Result<
        User,
        RepoError,
    >)
        requires
            old(store).wf(),
        ensures
            final(store).wf(),
            final(store).next_id == old(store).next_id,
            match r {
                Ok(u) => {
                    &&& has_id(old(store).rows@, id)
                    &&& final(store).rows@.len() == old(store).rows@.len()
                    &&& forall|j: int|
                        0 <= j < old(store).rows@.len() && old(store).rows@[j].id != id
                            ==> final(store).rows@[j] == old(store).rows@[j]
                    &&& forall|j: int|
                        0 <= j < old(store).rows@.len() && old(store).rows@[j].id == id
                            ==> final(store).rows@[j] == make_row(
                            id,
                            *req,
                            old(store).rows@[j].creationdate,
                            now,
                        )
                    &&& forall|j: int|
                        0 <= j < old(store).rows@.len() && old(store).rows@[j].id == id ==> u
                            == make_row(id, *req, old(store).rows@[j].creationdate, now)
                },
                Err(e) => {
                    &&& e == RepoError::NotFound
                    &&& !has_id(old(store).rows@, id)
                    &&& final(store).rows@ == old(store).rows@
                },
            },
    {
        let i = match find_index(&store.rows, id) {
            Some(i) => i,
            None => {
                return Err(RepoError::NotFound);
            },
        };
        let created = store.rows[i].creationdate;
        let row = crate::model::user_from_row(
            id,
            Some(req.firstname.clone()),
            Some(req.lastname.clone()),
            Some(req.email.clone()),
            Some(req.password.clone()),
            Some(req.mobilephone.clone()),
            created,
            now,
            Some(req.isactive),
        );
        let stored = row.duplicate();
        store.rows.remove(i);
        store.rows.insert(i, stored);
        proof {
            let rows1 = old(store).rows@;
            let rows2 = store.rows@;
            assert(rows2 =~= rows1.update(i as int, make_row(id, *req, rows1[i as int].creationdate, now)));
            assert forall|j: int|
                0 <= j < rows1.len() && rows1[j].id == id implies j == i as int by {
                if j < i as int {
                    assert(rows1[j].id < rows1[i as int].id);
                } else if j > i as int {
                    assert(rows1[i as int].id < rows1[j].id);
                }
            }
            assert forall|a: int, b: int| 0 <= a < b < rows2.len() implies rows2[a].id
                < rows2[b].id by {
                assert(rows1[a].id < rows1[b].id);
            }
            assert(forall|a: int|
                0 <= a < rows2.len() ==> 1 <= #[trigger] rows2[a].id < store.next_id);
        }
        Ok(row)
    }

    /// Delete: one unit of work that removes the row with the given id and
    /// returns how many rows went away: 1 when the id existed, else 0. The
    /// caller tells "not found" from "deleted" by that count.
    pub fn delete(id: i32, store: &mut Store) -> (r: u64)
        requires
            old(store).wf(),
        ensures
            final(store).wf(),
            final(store).next_id == old(store).next_id,
            final(store).rows@ == delete_rows_spec(old(store).rows@, id),
            r == old(store).rows@.len() - final(store).rows@.len(),
            r == if has_id(old(store).rows@, id) {
                1int
            } else {
                0int
            },
    {
        match find_index(&store.rows, id) {
            Some(i) => {
                proof {
                    let rows1 = store.rows@;
                    assert forall|j: int|
                        0 <= j < rows1.len() && j != i as int implies #[trigger] rows1[j].id
                        != id by {
                        if j < i as int {
                            assert(rows1[j].id < rows1[i as int].id);
                        } else {
                            assert(rows1[i as int].id < rows1[j].id);
                        }
                    }
                    lemma_filter_unique_remove(rows1, i as int, id);
                }
                store.rows.remove(i);
                proof {
                    let rows1 = old(store).rows@;
                    let rows2 = store.rows@;
                    assert forall|a: int, b: int| 0 <= a < b < rows2.len() implies rows2[a].id
                        < rows2[b].id by {
                        let a1 = if a < i as int {
                            a
                        } else {
                            a + 1
                        };
                        let b1 = if b < i as int {
                            b
                        } else {
                            b + 1
                        };
                        assert(rows1[a1].id < rows1[b1].id);
                    }
                    assert(forall|a: int|
                        0 <= a < rows2.len() ==> 1 <= #[trigger] rows2[a].id < store.next_id);
                }
                1
            },
            None => {
                proof {
                    let rows1 = store.rows@;
                    assert forall|j: int|
                        0 <= j < rows1.len() implies (|u: User| u.id != id)(#[trigger] rows1[j]) by {
                        assert(!has_id(rows1, id));
                    }
                    lemma_filter_noop(rows1, |u: User| u.id != id);
                }
                0
            },
        }
    }
}

/// Round trip: creating a user and then fetching it by the assigned id
/// finds the new row, and the redacted entity a read path returns for it
/// carries the request's fields, the given timestamps, and no password.
pub proof fn lemma_create_then_find(rows: Seq<User>, next_id: i32, req: UserRequest, now: i64)
    requires
        wf_rows(rows, next_id as int),
        1 <= next_id < i32::MAX,
    ensures
        ({
            let created = make_row(next_id, req, now, now);
            let rows2 = rows.push(created);
            &&& has_id(rows2, next_id)
            &&& forall|j: int|
                0 <= j < rows2.len() && rows2[j].id == next_id ==> redact(rows2[j]) == redact(
                    created,
                )
            &&& redact(created).password is None
            &&& redact(created).firstname == Some(req.firstname)
            &&& redact(created).lastname == Some(req.lastname)
            &&& redact(created).email == Some(req.email)
            &&& redact(created).mobilephone == Some(req.mobilephone)
            &&& redact(created).isactive == Some(req.isactive)
            &&& redact(created).id == next_id
            &&& redact(created).creationdate == now
            &&& redact(created).lastupdate == now
        }),
{
    let created = make_row(next_id, req, now, now);
    let rows2 = rows.push(created);
    assert(rows2[rows.len() as int] == created);
    assert forall|j: int|
        0 <= j < rows2.len() && rows2[j].id == next_id implies redact(rows2[j]) == redact(
        created,
    ) by {
        if j < rows.len() {
            assert(rows2[j] == rows[j]);
            assert(rows[j].id < next_id);
        }
    }
}

/// Deleting an id is idempotent in effect: after a delete the row is gone,
/// and deleting the same id again removes nothing, so the second call
/// reports a count of 0 while the store stays in the row-absent state.
pub proof fn lemma_delete_idempotent(rows: Seq<User>, id: i32)
    ensures
        !has_id(delete_rows_spec(rows, id), id),
        delete_rows_spec(delete_rows_spec(rows, id), id) == delete_rows_spec(rows, id),
{
    let r1 = delete_rows_spec(rows, id);
    assert forall|i: int| 0 <= i < r1.len() implies r1[i].id != id by {
        rows.lemma_filter_pred(|u: User| u.id != id, i);
    }
    lemma_filter_noop(r1, |u: User| u.id != id);
}

/// Reads the total count out of the rows the count query returned: the
/// aggregate of the first row. A missing row or an absent aggregate is a
/// failure of the store, never a value invented here.
pub fn count_from_rows(rows: &Vec<Respuesta>) -> (r: Result<i64, RepoError>)
    ensures
        match r {
            Ok(c) => rows@.len() > 0 && rows@[0].count == Some(c),
            Err(e) => e == RepoError::StoreError && (rows@.len() == 0 || rows@[0].count is None),
        },
{
    if rows.len() == 0 {
        return Err(RepoError::StoreError);
    }
    match rows[0].count {
        Some(c) => Ok(c),
        None => Err(RepoError::StoreError),
    }
}

} // verus!
