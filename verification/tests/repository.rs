use user_repo::errors::RepoError;
use user_repo::model::{PaginationRequest, User, UserRequest};
use user_repo::repo::Store;

fn request(first: &str, last: &str, email: &str, phone: &str, active: bool) -> UserRequest {
    UserRequest {
        firstname: first.to_string(),
        lastname: last.to_string(),
        email: email.to_string(),
        password: "secret".to_string(),
        mobilephone: phone.to_string(),
        isactive: active,
    }
}

fn page(filter: &str, col: &str, ord: &str, pagenumber: u32, pagesize: u32) -> PaginationRequest {
    PaginationRequest {
        filter: filter.to_string(),
        sortcolumn: col.to_string(),
        sortorder: ord.to_string(),
        pagenumber,
        pagesize,
    }
}

#[test]
fn create_then_find_round_trip() {
    let mut store = Store::new();
    let created = User::create(
        &request("Ada", "Lovelace", "ada@x.io", "555", true),
        &mut store,
        100,
    );
    assert_eq!(created.id, 1);
    assert_eq!(created.creationdate, 100);
    assert_eq!(created.lastupdate, 100);
    let found = User::find_by_id(1, &store).unwrap();
    assert_eq!(found.id, 1);
    assert_eq!(found.firstname.as_deref(), Some("Ada"));
    assert_eq!(found.lastname.as_deref(), Some("Lovelace"));
    assert_eq!(found.email.as_deref(), Some("ada@x.io"));
    assert_eq!(found.mobilephone.as_deref(), Some("555"));
    assert_eq!(found.isactive, Some(true));
    assert_eq!(found.creationdate, 100);
    assert_eq!(found.lastupdate, 100);
    assert_eq!(found.password, None);
}

#[test]
fn find_all_orders_by_id_ascending() {
    let mut store = Store::new();
    User::create(&request("Grace", "Hopper", "g@x.io", "111", true), &mut store, 10);
    User::create(&request("Ada", "Lovelace", "a@x.io", "222", true), &mut store, 20);
    let all = User::find_all(&store);
    assert_eq!(all.len(), 2);
    assert_eq!(all[0].id, 1);
    assert_eq!(all[0].firstname.as_deref(), Some("Grace"));
    assert_eq!(all[1].id, 2);
    assert_eq!(all[1].firstname.as_deref(), Some("Ada"));
    assert!(all.iter().all(|u| u.password.is_none()));
}

#[test]
fn find_by_id_missing_is_not_found() {
    let store = Store::new();
    assert_eq!(User::find_by_id(7, &store).unwrap_err(), RepoError::NotFound);
}

#[test]
fn paged_filter_counts_only_matching_rows() {
    let mut store = Store::new();
    User::create(&request("Ada", "Lovelace", "a@x.io", "111", true), &mut store, 10);
    User::create(&request("Grace", "Hopper", "g@x.io", "222", true), &mut store, 20);
    let table = User::find_all_with_pagination(
        &store,
        &page("Ada", "firstname", "ascending", 1, 10),
    )
    .unwrap();
    assert_eq!(table.items.len(), 1);
    assert_eq!(table.total_count, 1);
    assert_eq!(table.items[0].firstname.as_deref(), Some("Ada"));
    assert_eq!(table.items[0].password, None);
}

#[test]
fn paged_window_is_at_most_pagesize_and_count_is_total() {
    let mut store = Store::new();
    for i in 0..5 {
        User::create(
            &request(&format!("Ada{}", i), "L", "e@x.io", "1", true),
            &mut store,
            i,
        );
    }
    let first = User::find_all_with_pagination(
        &store,
        &page("Ada", "id", "ascending", 1, 2),
    )
    .unwrap();
    assert_eq!(first.items.len(), 2);
    assert_eq!(first.total_count, 5);
    assert_eq!(first.items[0].id, 1);
    assert_eq!(first.items[1].id, 2);
    let third = User::find_all_with_pagination(
        &store,
        &page("Ada", "id", "ascending", 3, 2),
    )
    .unwrap();
    assert_eq!(third.items.len(), 1);
    assert_eq!(third.total_count, 5);
    assert_eq!(third.items[0].id, 5);
    let past_the_end = User::find_all_with_pagination(
        &store,
        &page("Ada", "id", "ascending", 4, 2),
    )
    .unwrap();
    assert_eq!(past_the_end.items.len(), 0);
    assert_eq!(past_the_end.total_count, 5);
}

#[test]
fn paged_rejects_sortcolumn_outside_whitelist() {
    let mut store = Store::new();
    User::create(&request("Ada", "L", "a@x.io", "1", true), &mut store, 10);
    let err = User::find_all_with_pagination(
        &store,
        &page("", "password; DROP TABLE public.user", "ascending", 1, 10),
    )
    .unwrap_err();
    assert_eq!(err, RepoError::ValidationError);
}

#[test]
fn paged_rejects_bad_sortorder_and_window() {
    let store = Store::new();
    let bad_order = User::find_all_with_pagination(&store, &page("", "id", "up", 1, 10));
    assert_eq!(bad_order.unwrap_err(), RepoError::ValidationError);
    let bad_page = User::find_all_with_pagination(&store, &page("", "id", "ascending", 0, 10));
    assert_eq!(bad_page.unwrap_err(), RepoError::ValidationError);
    let bad_size = User::find_all_with_pagination(&store, &page("", "id", "ascending", 1, 0));
    assert_eq!(bad_size.unwrap_err(), RepoError::ValidationError);
}

#[test]
fn paged_sorts_by_requested_column_and_direction() {
    let mut store = Store::new();
    User::create(&request("Grace", "Hopper", "g@x.io", "1", true), &mut store, 10);
    User::create(&request("Ada", "Lovelace", "a@x.io", "2", true), &mut store, 20);
    User::create(&request("Edsger", "Dijkstra", "e@x.io", "3", true), &mut store, 30);
    let asc = User::find_all_with_pagination(
        &store,
        &page("", "firstname", "ascending", 1, 10),
    )
    .unwrap();
    let names: Vec<_> = asc.items.iter().map(|u| u.firstname.clone().unwrap()).collect();
    assert_eq!(names, vec!["Ada", "Edsger", "Grace"]);
    let desc = User::find_all_with_pagination(
        &store,
        &page("", "firstname", "descending", 1, 10),
    )
    .unwrap();
    let names: Vec<_> = desc.items.iter().map(|u| u.firstname.clone().unwrap()).collect();
    assert_eq!(names, vec!["Grace", "Edsger", "Ada"]);
}

#[test]
fn filter_is_byte_substring_and_case_sensitive() {
    let mut store = Store::new();
    User::create(&request("Ada", "L", "a@x.io", "1", true), &mut store, 10);
    let lower = User::find_all_with_pagination(
        &store,
        &page("ada", "firstname", "ascending", 1, 10),
    )
    .unwrap();
    assert_eq!(lower.total_count, 0);
    assert_eq!(lower.items.len(), 0);
    let infix = User::find_all_with_pagination(
        &store,
        &page("da", "firstname", "ascending", 1, 10),
    )
    .unwrap();
    assert_eq!(infix.total_count, 1);
}

#[test]
fn empty_filter_matches_every_row() {
    let mut store = Store::new();
    User::create(&request("Ada", "L", "a@x.io", "1", true), &mut store, 10);
    User::create(&request("Grace", "H", "g@x.io", "2", false), &mut store, 20);
    let table = User::find_all_with_pagination(
        &store,
        &page("", "id", "ascending", 1, 10),
    )
    .unwrap();
    assert_eq!(table.total_count, 2);
    assert_eq!(table.items.len(), 2);
}

#[test]
fn update_replaces_fields_and_keeps_creationdate() {
    let mut store = Store::new();
    User::create(&request("Ada", "Lovelace", "a@x.io", "1", true), &mut store, 100);
    let updated = User::update(
        1,
        &request("Augusta", "King", "k@x.io", "2", false),
        &mut store,
        200,
    )
    .unwrap();
    assert_eq!(updated.id, 1);
    assert_eq!(updated.firstname.as_deref(), Some("Augusta"));
    assert_eq!(updated.lastname.as_deref(), Some("King"));
    assert_eq!(updated.email.as_deref(), Some("k@x.io"));
    assert_eq!(updated.mobilephone.as_deref(), Some("2"));
    assert_eq!(updated.isactive, Some(false));
    assert_eq!(updated.creationdate, 100);
    assert_eq!(updated.lastupdate, 200);
    let found = User::find_by_id(1, &store).unwrap();
    assert_eq!(found.firstname.as_deref(), Some("Augusta"));
    assert_eq!(found.creationdate, 100);
    assert_eq!(found.lastupdate, 200);
}

#[test]
fn update_missing_id_is_not_found_and_leaves_store_unchanged() {
    let mut store = Store::new();
    User::create(&request("Ada", "L", "a@x.io", "1", true), &mut store, 100);
    let before = store.row_count();
    let err = User::update(9, &request("X", "Y", "z@x.io", "0", false), &mut store, 200)
        .unwrap_err();
    assert_eq!(err, RepoError::NotFound);
    assert_eq!(store.row_count(), before);
    let found = User::find_by_id(1, &store).unwrap();
    assert_eq!(found.firstname.as_deref(), Some("Ada"));
    assert_eq!(found.lastupdate, 100);
}

#[test]
fn delete_reports_one_then_zero() {
    let mut store = Store::new();
    User::create(&request("Ada", "L", "a@x.io", "1", true), &mut store, 100);
    assert_eq!(store.row_count(), 1);
    assert_eq!(User::delete(1, &mut store), 1);
    assert_eq!(store.row_count(), 0);
    assert_eq!(User::delete(1, &mut store), 0);
    assert_eq!(store.row_count(), 0);
    assert_eq!(User::find_by_id(1, &store).unwrap_err(), RepoError::NotFound);
}

#[test]
fn create_assigns_fresh_ids_after_delete() {
    let mut store = Store::new();
    User::create(&request("Ada", "L", "a@x.io", "1", true), &mut store, 10);
    User::delete(1, &mut store);
    let again = User::create(&request("Grace", "H", "g@x.io", "2", true), &mut store, 20);
    assert_eq!(again.id, 2);
}

#[test]
fn absent_firstname_never_matches_a_filter() {
    let nameless = user_repo::model::user_from_row(
        1,
        None,
        Some("L".to_string()),
        Some("a@x.io".to_string()),
        None,
        Some("1".to_string()),
        10,
        10,
        Some(true),
    );
    let store = Store { rows: vec![nameless], next_id: 2 };
    let table = User::find_all_with_pagination(
        &store,
        &page("", "firstname", "ascending", 1, 10),
    )
    .unwrap();
    assert_eq!(table.total_count, 0);
    assert_eq!(table.items.len(), 0);
    let all = User::find_all(&store);
    assert_eq!(all.len(), 1);
}

#[test]
fn sort_ties_keep_id_order_and_absent_values_come_first() {
    let with_name = |id: i32, name: Option<&str>| {
        user_repo::model::user_from_row(
            id,
            name.map(|n| n.to_string()),
            None,
            None,
            None,
            None,
            0,
            0,
            None,
        )
    };
    let store = Store {
        rows: vec![
            with_name(1, Some("Ada")),
            with_name(2, None),
            with_name(3, Some("Ada")),
        ],
        next_id: 4,
    };
    let table = User::find_all_with_pagination(
        &store,
        &page("", "firstname", "ascending", 1, 10),
    )
    .unwrap();
    let order: Vec<(i32, Option<String>)> =
        table.items.iter().map(|u| (u.id, u.firstname.clone())).collect();
    assert_eq!(
        order,
        vec![(1, Some("Ada".to_string())), (3, Some("Ada".to_string()))]
    );
    assert_eq!(table.total_count, 2);
}

#[test]
fn sort_by_isactive_ranks_absent_then_false_then_true() {
    let with_active = |id: i32, active: Option<bool>| {
        user_repo::model::user_from_row(
            id,
            Some("Ada".to_string()),
            None,
            None,
            None,
            None,
            0,
            0,
            active,
        )
    };
    let store = Store {
        rows: vec![
            with_active(1, Some(true)),
            with_active(2, None),
            with_active(3, Some(false)),
        ],
        next_id: 4,
    };
    let table = User::find_all_with_pagination(
        &store,
        &page("", "isactive", "ascending", 1, 10),
    )
    .unwrap();
    let order: Vec<(i32, Option<bool>)> =
        table.items.iter().map(|u| (u.id, u.isactive)).collect();
    assert_eq!(order, vec![(2, None), (3, Some(false)), (1, Some(true))]);
}
