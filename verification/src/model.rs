//! Entity model: the persisted `User` record, the write-request shape, the
//! paged-table response shape, and the field-by-field row mapping.

use vstd::prelude::*;

verus! {

/// Input shape for create and update requests. Every field is required at
/// the boundary even though the persisted entity allows most to be absent.
pub struct UserRequest {
    pub firstname: String,
    pub lastname: String,
    pub email: String,
    pub password: String,
    pub mobilephone: String,
    pub isactive: bool,
}

/// Persisted user entity. `id` is server-generated and unique; the two
/// timestamps are seconds since the Unix epoch, set by the server at insert
/// (`creationdate`) and at insert and every update (`lastupdate`).
/// `password` is write-only in practice: read paths hand out a redacted copy.
#[derive(Debug)]
pub struct User {
    pub id: i32,
    pub firstname: Option<String>,
    pub lastname: Option<String>,
    pub email: Option<String>,
    pub password: Option<String>,
    pub mobilephone: Option<String>,
    pub creationdate: i64,
    pub lastupdate: i64,
    pub isactive: Option<bool>,
}

/// One page of users together with the total number of rows that match the
/// active filter, independent of the pagination window.
#[derive(Debug)]
pub struct UserTable {
    pub items: Vec<User>,
    pub total_count: i64,
}

/// Transient input for the paged listing: a substring filter, a sort column
/// and direction, and a 1-based pagination window.
pub struct PaginationRequest {
    pub filter: String,
    pub sortcolumn: String,
    pub sortorder: String,
    pub pagenumber: u32,
    pub pagesize: u32,
}

/// Shape of one row of the count query: the aggregate may come back absent.
#[derive(Debug)]
pub struct Respuesta {
    pub count: Option<i64>,
}

/// The redacted read projection of a user: every field kept except the
/// password, which read paths never hand out.
pub open spec fn redact(u: User) -> User {
    User {
        id: u.id,
        firstname: u.firstname,
        lastname: u.lastname,
        email: u.email,
        password: None,
        mobilephone: u.mobilephone,
        creationdate: u.creationdate,
        lastupdate: u.lastupdate,
        isactive: u.isactive,
    }
}

/// The row that an insert or a wholesale update produces: the request's
/// fields, all present, with the given id and timestamps.
pub open spec fn make_row(id: i32, req: UserRequest, created: i64, now: i64) -> User {
    User {
        id: id,
        firstname: Some(req.firstname),
        lastname: Some(req.lastname),
        email: Some(req.email),
        password: Some(req.password),
        mobilephone: Some(req.mobilephone),
        creationdate: created,
        lastupdate: now,
        isactive: Some(req.isactive),
    }
}

fn clone_opt_string(o: &Option<String>) -> (r: Option<String>)
    ensures
        r == *o,
{
    match o {
        Some(s) => Some(s.clone()),
        None => None,
    }
}

impl User {
    /// An exact copy of this user, every field kept.
    pub fn duplicate(&self) -> (r: User)
        ensures
            r == *self,
    {
        User {
            id: self.id,
            firstname: clone_opt_string(&self.firstname),
            lastname: clone_opt_string(&self.lastname),
            email: clone_opt_string(&self.email),
            password: clone_opt_string(&self.password),
            mobilephone: clone_opt_string(&self.mobilephone),
            creationdate: self.creationdate,
            lastupdate: self.lastupdate,
            isactive: self.isactive,
        }
    }

    /// A copy of this user with the password field cleared, for read paths.
    pub fn redacted(&self) -> (r: User)
        ensures
            r == redact(*self),
    {
        User {
            id: self.id,
            firstname: clone_opt_string(&self.firstname),
            lastname: clone_opt_string(&self.lastname),
            email: clone_opt_string(&self.email),
            password: None,
            mobilephone: clone_opt_string(&self.mobilephone),
            creationdate: self.creationdate,
            lastupdate: self.lastupdate,
            isactive: self.isactive,
        }
    }
}

/// Explicit field-by-field mapping from the columns of one result row to the
/// entity, in the schema's column order.
pub fn user_from_row(
    id: i32,
    firstname: Option<String>,
    lastname: Option<String>,
    email: Option<String>,
    password: Option<String>,
    mobilephone: Option<String>,
    creationdate: i64,
    lastupdate: i64,
    isactive: Option<bool>,
) -> (r: User)
    ensures
        r.id == id,
        r.firstname == firstname,
        r.lastname == lastname,
        r.email == email,
        r.password == password,
        r.mobilephone == mobilephone,
        r.creationdate == creationdate,
        r.lastupdate == lastupdate,
        r.isactive == isactive,
{
    User { id, firstname, lastname, email, password, mobilephone, creationdate, lastupdate, isactive }
}

} // verus!
