use user_repo::errors::RepoError;
use user_repo::model::{PaginationRequest, Respuesta, user_from_row};
use user_repo::query::{
    build_query, column_token, count_query_sql, data_query_sql, like_pattern, order_token,
    parse_sort_column, parse_sort_order, SortColumn, SortOrder,
};
use user_repo::repo::count_from_rows;

fn page(filter: &str, col: &str, ord: &str, pagenumber: u32, pagesize: u32) -> PaginationRequest {
    PaginationRequest {
        filter: filter.to_string(),
        sortcolumn: col.to_string(),
        sortorder: ord.to_string(),
        pagenumber,
        pagesize,
    }
}

#[test]
fn whitelist_accepts_exactly_the_schema_columns() {
    assert_eq!(parse_sort_column(&"id".to_string()), Some(SortColumn::Id));
    assert_eq!(parse_sort_column(&"firstname".to_string()), Some(SortColumn::Firstname));
    assert_eq!(parse_sort_column(&"lastname".to_string()), Some(SortColumn::Lastname));
    assert_eq!(parse_sort_column(&"email".to_string()), Some(SortColumn::Email));
    assert_eq!(parse_sort_column(&"mobilephone".to_string()), Some(SortColumn::Mobilephone));
    assert_eq!(parse_sort_column(&"creationdate".to_string()), Some(SortColumn::Creationdate));
    assert_eq!(parse_sort_column(&"lastupdate".to_string()), Some(SortColumn::Lastupdate));
    assert_eq!(parse_sort_column(&"isactive".to_string()), Some(SortColumn::Isactive));
    assert_eq!(parse_sort_column(&"password".to_string()), None);
    assert_eq!(parse_sort_column(&"Firstname".to_string()), None);
    assert_eq!(parse_sort_column(&"firstname ".to_string()), None);
    assert_eq!(parse_sort_column(&"".to_string()), None);
}

#[test]
fn sort_order_accepts_only_the_two_directions() {
    assert_eq!(parse_sort_order(&"ascending".to_string()), Some(SortOrder::Ascending));
    assert_eq!(parse_sort_order(&"descending".to_string()), Some(SortOrder::Descending));
    assert_eq!(parse_sort_order(&"ASC".to_string()), None);
    assert_eq!(parse_sort_order(&"up".to_string()), None);
}

#[test]
fn offset_is_pagenumber_minus_one_times_pagesize() {
    let q = build_query(&page("", "id", "ascending", 3, 10)).unwrap();
    assert_eq!(q.offset, 20);
    assert_eq!(q.pagenumber, 3);
    assert_eq!(q.pagesize, 10);
    let first = build_query(&page("", "id", "ascending", 1, 25)).unwrap();
    assert_eq!(first.offset, 0);
}

#[test]
fn build_query_rejects_invalid_input() {
    assert_eq!(
        build_query(&page("", "nope", "ascending", 1, 10)).unwrap_err(),
        RepoError::ValidationError
    );
    assert_eq!(
        build_query(&page("", "id", "sideways", 1, 10)).unwrap_err(),
        RepoError::ValidationError
    );
    assert_eq!(
        build_query(&page("", "id", "ascending", 0, 10)).unwrap_err(),
        RepoError::ValidationError
    );
    assert_eq!(
        build_query(&page("", "id", "ascending", 1, 0)).unwrap_err(),
        RepoError::ValidationError
    );
}

#[test]
fn query_text_binds_filter_and_splices_only_whitelisted_tokens() {
    let q = build_query(&page("Ada", "firstname", "descending", 2, 5)).unwrap();
    let sql = data_query_sql(&q);
    assert_eq!(
        sql,
        "SELECT id, firstname, lastname, email, mobilephone, creationdate, lastupdate, \
         isactive FROM public.user WHERE firstname LIKE $1 ORDER BY firstname DESC \
         LIMIT $2 OFFSET $3"
    );
    assert_eq!(
        count_query_sql(),
        "SELECT COUNT(*) as count FROM public.user WHERE firstname LIKE $1"
    );
    assert_eq!(like_pattern(&"Ada".to_string()), "%Ada%");
    assert_eq!(like_pattern(&"".to_string()), "%%");
}

#[test]
fn tokens_are_the_canonical_names() {
    assert_eq!(column_token(SortColumn::Id), "id");
    assert_eq!(column_token(SortColumn::Creationdate), "creationdate");
    assert_eq!(order_token(SortOrder::Ascending), "ASC");
    assert_eq!(order_token(SortOrder::Descending), "DESC");
}

#[test]
fn count_rows_yield_the_first_aggregate() {
    let rows = vec![Respuesta { count: Some(42) }];
    assert_eq!(count_from_rows(&rows), Ok(42));
    let empty: Vec<Respuesta> = vec![];
    assert_eq!(count_from_rows(&empty), Err(RepoError::StoreError));
    let absent = vec![Respuesta { count: None }];
    assert_eq!(count_from_rows(&absent), Err(RepoError::StoreError));
}

#[test]
fn errors_translate_to_fixed_messages() {
    assert_eq!(RepoError::ValidationError.message(), "Invalid query parameters");
    assert_eq!(RepoError::NotFound.message(), "User not found");
    assert_eq!(RepoError::StoreError.message(), "Error trying to access the user store");
    assert!(RepoError::ValidationError.is_client_fault());
    assert!(RepoError::NotFound.is_client_fault());
    assert!(!RepoError::StoreError.is_client_fault());
}

#[test]
fn row_mapping_keeps_every_field() {
    let u = user_from_row(
        7,
        Some("Ada".to_string()),
        None,
        Some("a@x.io".to_string()),
        Some("secret".to_string()),
        None,
        11,
        22,
        Some(false),
    );
    assert_eq!(u.id, 7);
    assert_eq!(u.firstname.as_deref(), Some("Ada"));
    assert_eq!(u.lastname, None);
    assert_eq!(u.email.as_deref(), Some("a@x.io"));
    assert_eq!(u.password.as_deref(), Some("secret"));
    assert_eq!(u.mobilephone, None);
    assert_eq!(u.creationdate, 11);
    assert_eq!(u.lastupdate, 22);
    assert_eq!(u.isactive, Some(false));
    assert_eq!(u.redacted().password, None);
    assert_eq!(u.redacted().firstname.as_deref(), Some("Ada"));
}
