use central_repository::pagination::{get_all, page_of, PaginatedResponse, PaginationOptions};

#[test]
fn pages_concatenate_to_the_full_result() {
    let items: Vec<u32> = (0..10).collect();
    let mut rebuilt: Vec<u32> = Vec::new();
    for page in 0..4u64 {
        rebuilt.extend(page_of(items.clone(), page, 3));
    }
    assert_eq!(rebuilt, items);
}

#[test]
fn page_past_the_end_is_empty() {
    let items: Vec<u32> = (0..4).collect();
    assert!(page_of(items, 9, 3).is_empty());
}

#[test]
fn last_page_is_short() {
    let items: Vec<u32> = (0..10).collect();
    assert_eq!(page_of(items, 3, 3), vec![9]);
}

#[test]
fn count_enabled_call_reports_items_and_pages() {
    let items: Vec<u32> = (0..10).collect();
    let options = PaginationOptions { page: 1, per_page: 4, count: true };
    let (page, num_pages, num_items) = get_all(items, &options);
    assert_eq!(page, vec![4, 5, 6, 7]);
    assert_eq!(num_pages, 3);
    assert_eq!(num_items, 10);
}

#[test]
fn count_disabled_call_reports_zero_counts() {
    let items: Vec<u32> = (0..10).collect();
    let options = PaginationOptions { page: 0, per_page: 4, count: false };
    let (page, num_pages, num_items) = get_all(items, &options);
    assert_eq!(page, vec![0, 1, 2, 3]);
    assert_eq!(num_pages, 0);
    assert_eq!(num_items, 0);
}

#[test]
fn item_count_equals_the_unpaged_length() {
    let items: Vec<u32> = (0..23).collect();
    let options = PaginationOptions { page: 0, per_page: 5, count: true };
    let (_, num_pages, num_items) = get_all(items, &options);
    assert_eq!(num_items, 23);
    assert_eq!(num_pages, 5);
}

#[test]
fn page_size_bounds_are_enforced() {
    let zero = PaginationOptions { page: 0, per_page: 0, count: false };
    let at_max = PaginationOptions { page: 0, per_page: 1000, count: false };
    let over_max = PaginationOptions { page: 0, per_page: 1001, count: false };
    assert!(!zero.is_valid(1000));
    assert!(at_max.is_valid(1000));
    assert!(!over_max.is_valid(1000));
    assert!(zero.validate(1000).is_err());
    assert!(over_max.validate(1000).is_err());
    assert!(at_max.validate(1000).is_ok());
}

#[test]
fn paginated_response_carries_the_counts() {
    let response = PaginatedResponse::from_parts((vec![1u32, 2, 3], 4, 11));
    assert_eq!(response.items, vec![1, 2, 3]);
    assert_eq!(response.num_pages, 4);
    assert_eq!(response.num_items, 11);
}
