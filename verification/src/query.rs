//! Query builder: whitelist validation of the sort column and direction,
//! validation of the 1-based pagination window, and construction of the
//! parameterized data and count queries.
//!
//! The filter value is always a bound parameter (`$1`), never spliced into
//! the query text; the only identifier that reaches the text is the
//! canonical name of a whitelisted column.

use vstd::prelude::*;
use vstd::string::StringExecFns;
use crate::errors::RepoError;
use crate::model::PaginationRequest;

verus! {

/// The whitelist of sortable columns: exactly the columns of the user table.
#[derive(Clone, Copy, PartialEq, Eq, Structural, Debug)]
pub enum SortColumn {
    Id,
    Firstname,
    Lastname,
    Email,
    Mobilephone,
    Creationdate,
    Lastupdate,
    Isactive,
}

/// Validated sort direction.
#[derive(Clone, Copy, PartialEq, Eq, Structural, Debug)]
pub enum SortOrder {
    Ascending,
    Descending,
}

/// Which column a sort-column request names: `Some` exactly on the whitelist.
pub open spec fn column_of(s: Seq<char>) -> Option<SortColumn> {
    if s == "id"@ {
        Some(SortColumn::Id)
    } else if s == "firstname"@ {
        Some(SortColumn::Firstname)
    } else if s == "lastname"@ {
        Some(SortColumn::Lastname)
    } else if s == "email"@ {
        Some(SortColumn::Email)
    } else if s == "mobilephone"@ {
        Some(SortColumn::Mobilephone)
    } else if s == "creationdate"@ {
        Some(SortColumn::Creationdate)
    } else if s == "lastupdate"@ {
        Some(SortColumn::Lastupdate)
    } else if s == "isactive"@ {
        Some(SortColumn::Isactive)
    } else {
        None
    }
}

/// Which direction a sort-order request names: `Some` exactly on
/// `ascending` and `descending`.
pub open spec fn order_of(s: Seq<char>) -> Option<SortOrder> {
    if s == "ascending"@ {
        Some(SortOrder::Ascending)
    } else if s == "descending"@ {
        Some(SortOrder::Descending)
    } else {
        None
    }
}

/// Both pagination parameters are 1-based and must be positive.
pub open spec fn pagination_ok(pagenumber: u32, pagesize: u32) -> bool {
    pagenumber >= 1 && pagesize >= 1
}

/// The zero-based row offset of a 1-based pagination window.
pub open spec fn spec_offset(pagenumber: u32, pagesize: u32) -> int {
    (pagenumber - 1) * pagesize
}

/// A request is valid when its sort column and direction are whitelisted and
/// its pagination window is positive.
pub open spec fn request_ok(req: PaginationRequest) -> bool {
    &&& column_of(req.sortcolumn@) is Some
    &&& order_of(req.sortorder@) is Some
    &&& pagination_ok(req.pagenumber, req.pagesize)
}

fn string_eq_lit(s: &String, lit: &str) -> (r: bool)
    ensures
        r == (s@ == lit@),
{
    let o: String = lit.to_owned();
    *s == o
}

/// Validates a requested sort column against the whitelist.
pub fn parse_sort_column(s: &String) -> (r: Option<SortColumn>)
    ensures
        r == column_of(s@),
{
    if string_eq_lit(s, "id") {
        Some(SortColumn::Id)
    } else if string_eq_lit(s, "firstname") {
        Some(SortColumn::Firstname)
    } else if string_eq_lit(s, "lastname") {
        Some(SortColumn::Lastname)
    } else if string_eq_lit(s, "email") {
        Some(SortColumn::Email)
    } else if string_eq_lit(s, "mobilephone") {
        Some(SortColumn::Mobilephone)
    } else if string_eq_lit(s, "creationdate") {
        Some(SortColumn::Creationdate)
    } else if string_eq_lit(s, "lastupdate") {
        Some(SortColumn::Lastupdate)
    } else if string_eq_lit(s, "isactive") {
        Some(SortColumn::Isactive)
    } else {
        None
    }
}

/// Validates a requested sort direction.
pub fn parse_sort_order(s: &String) -> (r: Option<SortOrder>)
    ensures
        r == order_of(s@),
{
    if string_eq_lit(s, "ascending") {
        Some(SortOrder::Ascending)
    } else if string_eq_lit(s, "descending") {
        Some(SortOrder::Descending)
    } else {
        None
    }
}

/// A fully validated read query: whitelisted sort column and direction, the
/// 1-based pagination window, and the derived zero-based row offset.
#[derive(Debug)]
pub struct ValidatedQuery {
    pub column: SortColumn,
    pub order: SortOrder,
    pub pagenumber: u32,
    pub pagesize: u32,
    pub offset: u64,
}

/// Validates a pagination request wholesale. Succeeds exactly on valid
/// requests; anything outside the whitelist or a non-positive window is a
/// `ValidationError`, reported before any query is built or issued.
pub fn build_query(req: &PaginationRequest) -> (r: Result<ValidatedQuery, RepoError>)
    ensures
        match r {
            Ok(q) => {
                &&& request_ok(*req)
                &&& Some(q.column) == column_of(req.sortcolumn@)
                &&& Some(q.order) == order_of(req.sortorder@)
                &&& q.pagenumber == req.pagenumber
                &&& q.pagesize == req.pagesize
                &&& q.offset == spec_offset(req.pagenumber, req.pagesize)
            },
            Err(e) => {
                &&& e == RepoError::ValidationError
                &&& !request_ok(*req)
            },
        },
{
    let col = match parse_sort_column(&req.sortcolumn) {
        Some(c) => c,
        None => {
            return Err(RepoError::ValidationError);
        },
    };
    let ord = match parse_sort_order(&req.sortorder) {
        Some(o) => o,
        None => {
            return Err(RepoError::ValidationError);
        },
    };
    if req.pagenumber < 1 || req.pagesize < 1 {
        return Err(RepoError::ValidationError);
    }
    let pn = req.pagenumber;
    let ps = req.pagesize;
    proof {
        assert(((pn - 1) as u64 as int) * (ps as u64 as int) < 0x10000000000000000int)
            by (nonlinear_arith)
            requires
                ((pn - 1) as u64 as int) < 0x100000000int,
                (ps as u64 as int) < 0x100000000int,
        ;
    }
    let offset: u64 = ((pn - 1) as u64) * (ps as u64);
    Ok(ValidatedQuery { column: col, order: ord, pagenumber: pn, pagesize: ps, offset })
}

/// The canonical name of a whitelisted column, as it stands in the schema.
pub open spec fn column_name(c: SortColumn) -> Seq<char> {
    match c {
        SortColumn::Id => "id"@,
        SortColumn::Firstname => "firstname"@,
        SortColumn::Lastname => "lastname"@,
        SortColumn::Email => "email"@,
        SortColumn::Mobilephone => "mobilephone"@,
        SortColumn::Creationdate => "creationdate"@,
        SortColumn::Lastupdate => "lastupdate"@,
        SortColumn::Isactive => "isactive"@,
    }
}

/// The SQL keyword of a validated sort direction.
pub open spec fn order_name(o: SortOrder) -> Seq<char> {
    match o {
        SortOrder::Ascending => "ASC"@,
        SortOrder::Descending => "DESC"@,
    }
}

/// The canonical column name for the identifier position of the query text.
pub fn column_token(c: SortColumn) -> (r: &'static str)
    ensures
        r@ == column_name(c),
{
    match c {
        SortColumn::Id => "id",
        SortColumn::Firstname => "firstname",
        SortColumn::Lastname => "lastname",
        SortColumn::Email => "email",
        SortColumn::Mobilephone => "mobilephone",
        SortColumn::Creationdate => "creationdate",
        SortColumn::Lastupdate => "lastupdate",
        SortColumn::Isactive => "isactive",
    }
}

/// The SQL keyword for the direction position of the query text.
pub fn order_token(o: SortOrder) -> (r: &'static str)
    ensures
        r@ == order_name(o),
{
    match o {
        SortOrder::Ascending => "ASC",
        SortOrder::Descending => "DESC",
    }
}

/// The parameterized data query for a validated request: the filter is bound
/// as `$1` and the window as `$2`/`$3`; only the canonical name of the
/// whitelisted column and the validated direction keyword stand in the text.
pub open spec fn data_sql_of(c: SortColumn, o: SortOrder) -> Seq<char> {
    "SELECT id, firstname, lastname, email, mobilephone, creationdate, lastupdate, isactive FROM public.user WHERE firstname LIKE $1 ORDER BY "@
        + column_name(c) + " "@ + order_name(o) + " LIMIT $2 OFFSET $3"@
}

/// The parameterized count query: it applies the same filter predicate as
/// the data query, so the total count matches the paged items.
pub open spec fn count_sql() -> Seq<char> {
    "SELECT COUNT(*) as count FROM public.user WHERE firstname LIKE $1"@
}

/// Builds the data query text for a validated request.
pub fn data_query_sql(q: &ValidatedQuery) -> (r: String)
    ensures
        r@ == data_sql_of(q.column, q.order),
{
    let mut s: String = String::from_str(
        "SELECT id, firstname, lastname, email, mobilephone, creationdate, lastupdate, isactive FROM public.user WHERE firstname LIKE $1 ORDER BY ",
    );
    s.append(column_token(q.column));
    s.append(" ");
    s.append(order_token(q.order));
    s.append(" LIMIT $2 OFFSET $3");
    s
}

/// Builds the count query text; the same filter parameter as the data query.
pub fn count_query_sql() -> (r: String)
    ensures
        r@ == count_sql(),
{
    String::from_str("SELECT COUNT(*) as count FROM public.user WHERE firstname LIKE $1")
}

/// The bind value of the substring filter: the filter wrapped in wildcards.
pub fn like_pattern(filter: &String) -> (r: String)
    ensures
        r@ == "%"@ + filter@ + "%"@,
{
    let mut s: String = String::from_str("%");
    s.append(filter.as_str());
    s.append("%");
    s
}

} // verus!
