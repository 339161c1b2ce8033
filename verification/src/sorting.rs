//! Ordering of users by a whitelisted column and a verified insertion sort.
//!
//! `sort_spec` is the mathematical definition of the sorted sequence; the
//! executable sort returns exactly that sequence, and `lemma_sort_spec_props`
//! states that it is sorted under the column's order and holds exactly the
//! input's elements.

use vstd::prelude::*;
use vstd::multiset::Multiset;
use vstd::relations::sorted_by;
use crate::model::User;
use crate::query::{SortColumn, SortOrder};
use crate::text::{bytes_le, sbytes, lemma_bytes_le_total, lemma_bytes_le_trans, str_bytes_le};

verus! {

/// Order on optional text: an absent value comes first, present values are
/// in the byte order of their text.
pub open spec fn opt_text_le(a: Option<String>, b: Option<String>) -> bool {
    match (a, b) {
        (None, _) => true,
        (Some(x), None) => false,
        (Some(x), Some(y)) => bytes_le(sbytes(x), sbytes(y)),
    }
}

/// Rank of an optional boolean: absent first, then false, then true.
pub open spec fn obool_rank(o: Option<bool>) -> int {
    match o {
        None => 0,
        Some(false) => 1,
        Some(true) => 2,
    }
}

/// Whether `a` comes no later than `b` when sorting ascending by column `c`.
pub open spec fn user_le_asc(a: User, b: User, c: SortColumn) -> bool {
    match c {
        SortColumn::Id => a.id <= b.id,
        SortColumn::Firstname => opt_text_le(a.firstname, b.firstname),
        SortColumn::Lastname => opt_text_le(a.lastname, b.lastname),
        SortColumn::Email => opt_text_le(a.email, b.email),
        SortColumn::Mobilephone => opt_text_le(a.mobilephone, b.mobilephone),
        SortColumn::Creationdate => a.creationdate <= b.creationdate,
        SortColumn::Lastupdate => a.lastupdate <= b.lastupdate,
        SortColumn::Isactive => obool_rank(a.isactive) <= obool_rank(b.isactive),
    }
}

/// Whether `a` comes no later than `b` under the requested column and
/// direction; descending is the reverse of ascending.
pub open spec fn user_le(a: User, b: User, c: SortColumn, o: SortOrder) -> bool {
    match o {
        SortOrder::Ascending => user_le_asc(a, b, c),
        SortOrder::Descending => user_le_asc(b, a, c),
    }
}

/// Any two users are comparable under every column and direction.
pub proof fn lemma_user_le_total(a: User, b: User, c: SortColumn, o: SortOrder)
    ensures
        user_le(a, b, c, o) || user_le(b, a, c, o),
{
    match c {
        SortColumn::Firstname => {
            if a.firstname is Some && b.firstname is Some {
                lemma_bytes_le_total(sbytes(a.firstname->0), sbytes(b.firstname->0));
            }
        },
        SortColumn::Lastname => {
            if a.lastname is Some && b.lastname is Some {
                lemma_bytes_le_total(sbytes(a.lastname->0), sbytes(b.lastname->0));
            }
        },
        SortColumn::Email => {
            if a.email is Some && b.email is Some {
                lemma_bytes_le_total(sbytes(a.email->0), sbytes(b.email->0));
            }
        },
        SortColumn::Mobilephone => {
            if a.mobilephone is Some && b.mobilephone is Some {
                lemma_bytes_le_total(sbytes(a.mobilephone->0), sbytes(b.mobilephone->0));
            }
        },
        _ => {},
    }
}

/// `user_le` is transitive under every column and direction.
pub proof fn lemma_user_le_trans(a: User, b: User, d: User, c: SortColumn, o: SortOrder)
    requires
        user_le(a, b, c, o),
        user_le(b, d, c, o),
    ensures
        user_le(a, d, c, o),
{
    match c {
        SortColumn::Firstname => {
            opt_text_trans(a.firstname, b.firstname, d.firstname, o);
        },
        SortColumn::Lastname => {
            opt_text_trans(a.lastname, b.lastname, d.lastname, o);
        },
        SortColumn::Email => {
            opt_text_trans(a.email, b.email, d.email, o);
        },
        SortColumn::Mobilephone => {
            opt_text_trans(a.mobilephone, b.mobilephone, d.mobilephone, o);
        },
        _ => {},
    }
}

proof fn opt_text_trans(x: Option<String>, y: Option<String>, z: Option<String>, o: SortOrder)
    requires
        match o {
            SortOrder::Ascending => opt_text_le(x, y) && opt_text_le(y, z),
            SortOrder::Descending => opt_text_le(y, x) && opt_text_le(z, y),
        },
    ensures
        match o {
            SortOrder::Ascending => opt_text_le(x, z),
            SortOrder::Descending => opt_text_le(z, x),
        },
{
    match o {
        SortOrder::Ascending => {
            if x is Some && y is Some && z is Some {
                lemma_bytes_le_trans(sbytes(x->0), sbytes(y->0), sbytes(z->0));
            }
        },
        SortOrder::Descending => {
            if x is Some && y is Some && z is Some {
                lemma_bytes_le_trans(sbytes(z->0), sbytes(y->0), sbytes(x->0));
            }
        },
    }
}

fn opt_string_le(a: &Option<String>, b: &Option<String>) -> (r: bool)
    ensures
        r == opt_text_le(*a, *b),
{
    match (a, b) {
        (None, _) => true,
        (Some(_), None) => false,
        (Some(x), Some(y)) => str_bytes_le(x.as_str(), y.as_str()),
    }
}

fn obool_rank_exec(o: &Option<bool>) -> (r: u8)
    ensures
        r as int == obool_rank(*o),
{
    match o {
        None => 0,
        Some(false) => 1,
        Some(true) => 2,
    }
}

/// Decides `user_le` on two users.
pub fn user_le_exec(a: &User, b: &User, c: SortColumn, o: SortOrder) -> (r: bool)
    ensures
        r == user_le(*a, *b, c, o),
{
    match o {
        SortOrder::Ascending => user_le_asc_exec(a, b, c),
        SortOrder::Descending => user_le_asc_exec(b, a, c),
    }
}

fn user_le_asc_exec(a: &User, b: &User, c: SortColumn) -> (r: bool)
    ensures
        r == user_le_asc(*a, *b, c),
{
    match c {
        SortColumn::Id => a.id <= b.id,
        SortColumn::Firstname => opt_string_le(&a.firstname, &b.firstname),
        SortColumn::Lastname => opt_string_le(&a.lastname, &b.lastname),
        SortColumn::Email => opt_string_le(&a.email, &b.email),
        SortColumn::Mobilephone => opt_string_le(&a.mobilephone, &b.mobilephone),
        SortColumn::Creationdate => a.creationdate <= b.creationdate,
        SortColumn::Lastupdate => a.lastupdate <= b.lastupdate,
        SortColumn::Isactive => obool_rank_exec(&a.isactive) <= obool_rank_exec(&b.isactive),
    }
}

/// Insertion of `u` into `s`: before the first element it comes no later
/// than, after every earlier one.
pub open spec fn insert_sorted_spec(u: User, s: Seq<User>, c: SortColumn, o: SortOrder) -> Seq<
    User,
>
    decreases s.len(),
{
    if s.len() == 0 {
        seq![u]
    } else if user_le(u, s[0], c, o) {
        seq![u] + s
    } else {
        seq![s[0]] + insert_sorted_spec(u, s.drop_first(), c, o)
    }
}

/// The sorted form of `s` under the requested column and direction: each
/// element inserted in turn into the sorted rest.
pub open spec fn sort_spec(s: Seq<User>, c: SortColumn, o: SortOrder) -> Seq<User>
    decreases s.len(),
{
    if s.len() == 0 {
        Seq::empty()
    } else {
        insert_sorted_spec(s[0], sort_spec(s.drop_first(), c, o), c, o)
    }
}

/// Inserting into a sorted sequence keeps it sorted, grows it by one, and
/// adds exactly the inserted element.
pub proof fn lemma_insert_sorted_spec_props(u: User, s: Seq<User>, c: SortColumn, o: SortOrder)
    requires
        sorted_by(s, |x: User, y: User| user_le(x, y, c, o)),
    ensures
        sorted_by(insert_sorted_spec(u, s, c, o), |x: User, y: User| user_le(x, y, c, o)),
        insert_sorted_spec(u, s, c, o).len() == s.len() + 1,
        insert_sorted_spec(u, s, c, o).to_multiset() == s.to_multiset().insert(u),
    decreases s.len(),
{
    broadcast use vstd::seq_lib::group_to_multiset_ensures;
    broadcast use vstd::multiset::group_multiset_axioms;

    let leq = |x: User, y: User| user_le(x, y, c, o);
    let r = insert_sorted_spec(u, s, c, o);
    if s.len() == 0 {
        assert(r =~= seq![u]);
        assert(r.to_multiset() =~= s.to_multiset().insert(u)) by {
            assert(s.to_multiset() =~= Multiset::empty());
            assert(seq![u].to_multiset() =~= Multiset::empty().insert(u));
        }
    } else if user_le(u, s[0], c, o) {
        assert(r =~= seq![u] + s);
        assert forall|i: int, j: int| 0 <= i < j < r.len() implies #[trigger] leq(r[i], r[j]) by {
            if i == 0 {
                if j > 1 {
                    assert(leq(s[0], s[j - 1]));
                    lemma_user_le_trans(u, s[0], s[j - 1], c, o);
                }
            } else {
                assert(leq(s[i - 1], s[j - 1]));
            }
        }
        assert(r.to_multiset() =~= s.to_multiset().insert(u)) by {
            assert(r =~= s.insert(0, u));
            vstd::seq_lib::to_multiset_insert(s, 0, u);
        }
    } else {
        let rest = s.drop_first();
        assert(sorted_by(rest, leq)) by {
            assert forall|i: int, j: int|
                0 <= i < j < rest.len() implies #[trigger] leq(rest[i], rest[j]) by {
                assert(leq(s[i + 1], s[j + 1]));
            }
        }
        lemma_insert_sorted_spec_props(u, rest, c, o);
        let rr = insert_sorted_spec(u, rest, c, o);
        assert(r =~= seq![s[0]] + rr);
        lemma_user_le_total(u, s[0], c, o);
        assert(leq(s[0], u));
        assert forall|i: int, j: int| 0 <= i < j < r.len() implies #[trigger] leq(r[i], r[j]) by {
            if i == 0 {
                assert(rr.to_multiset().contains(rr[j - 1]));
                if rr[j - 1] == u {
                } else {
                    assert(rest.to_multiset().contains(rr[j - 1]));
                    assert(rest.contains(rr[j - 1]));
                    let k = choose|k: int| 0 <= k < rest.len() && rest[k] == rr[j - 1];
                    assert(leq(s[0], s[k + 1]));
                }
            } else {
                assert(leq(rr[i - 1], rr[j - 1]));
            }
        }
        assert(r.to_multiset() =~= s.to_multiset().insert(u)) by {
            assert(r =~= rr.insert(0, s[0]));
            vstd::seq_lib::to_multiset_insert(rr, 0, s[0]);
            assert(s =~= rest.insert(0, s[0]));
            vstd::seq_lib::to_multiset_insert(rest, 0, s[0]);
        }
    }
}

/// The sorted form of a sequence is sorted under the requested order, has
/// the same length, and holds exactly the same elements.
pub proof fn lemma_sort_spec_props(s: Seq<User>, c: SortColumn, o: SortOrder)
    ensures
        sorted_by(sort_spec(s, c, o), |x: User, y: User| user_le(x, y, c, o)),
        sort_spec(s, c, o).len() == s.len(),
        sort_spec(s, c, o).to_multiset() == s.to_multiset(),
    decreases s.len(),
{
    broadcast use vstd::seq_lib::group_to_multiset_ensures;
    broadcast use vstd::multiset::group_multiset_axioms;

    if s.len() == 0 {
        assert(sort_spec(s, c, o).to_multiset() =~= s.to_multiset());
    } else {
        let rest = s.drop_first();
        lemma_sort_spec_props(rest, c, o);
        lemma_insert_sorted_spec_props(s[0], sort_spec(rest, c, o), c, o);
        assert(s =~= rest.insert(0, s[0]));
        vstd::seq_lib::to_multiset_insert(rest, 0, s[0]);
    }
}

/// Inserts `u` into the sorted vector `t`, returning `insert_sorted_spec`.
fn insert_sorted(u: User, t: Vec<User>, c: SortColumn, o: SortOrder) -> (r: Vec<User>)
    ensures
        r@ == insert_sorted_spec(u, t@, c, o),
    decreases t@.len(),
{
    if t.len() == 0 {
        let mut r = t;
        r.push(u);
        proof {
            assert(r@ =~= seq![u]);
        }
        r
    } else if user_le_exec(&u, &t[0], c, o) {
        let mut r = t;
        r.insert(0, u);
        proof {
            assert(r@ =~= seq![u] + t@);
        }
        r
    } else {
        let mut t2 = t;
        let h = t2.remove(0);
        proof {
            assert(t2@ =~= t@.drop_first());
        }
        let r0 = insert_sorted(u, t2, c, o);
        let mut r = r0;
        r.insert(0, h);
        proof {
            assert(r@ =~= seq![h] + insert_sorted_spec(u, t@.drop_first(), c, o));
        }
        r
    }
}

/// Sorts the rows by the requested column and direction; the result is
/// exactly `sort_spec` of the input.
pub fn sort_rows(v: Vec<User>, c: SortColumn, o: SortOrder) -> (r: Vec<User>)
    ensures
        r@ == sort_spec(v@, c, o),
    decreases v@.len(),
{
    if v.len() == 0 {
        v
    } else {
        let mut v2 = v;
        let h = v2.remove(0);
        proof {
            assert(v2@ =~= v@.drop_first());
        }
        let rest = sort_rows(v2, c, o);
        insert_sorted(h, rest, c, o)
    }
}

} // verus!
