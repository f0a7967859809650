//! Pagination metadata and response wrappers.

use node_events::api::{
    ApiResponse, BaseFilter, CapacityFilter, DateRangeFilter, NumericOperator, PaginatedData,
    PaginationFilter, PaginationMeta,
};

#[test]
fn test_pagination_meta_calculation() {
    // Test normal pagination
    let meta = PaginationMeta::new(2, 10, 25);
    assert_eq!(meta.current_page, 2);
    assert_eq!(meta.per_page, 10);
    assert_eq!(meta.total_items, 25);
    assert_eq!(meta.total_pages, 3);
    assert!(meta.has_next);
    assert!(meta.has_prev);
    assert_eq!(meta.next_page, Some(3));
    assert_eq!(meta.prev_page, Some(1));

    // Test first page
    let meta = PaginationMeta::new(1, 10, 25);
    assert!(!meta.has_prev);
    assert!(meta.has_next);
    assert_eq!(meta.prev_page, None);
    assert_eq!(meta.next_page, Some(2));

    // Test last page
    let meta = PaginationMeta::new(3, 10, 25);
    assert!(meta.has_prev);
    assert!(!meta.has_next);
    assert_eq!(meta.prev_page, Some(2));
    assert_eq!(meta.next_page, None);

    // Test empty result set
    let meta = PaginationMeta::new(1, 10, 0);
    assert_eq!(meta.total_pages, 1);
    assert!(!meta.has_next);
    assert!(!meta.has_prev);
}

#[test]
fn pagination_meta_exact_page_boundary() {
    let meta = PaginationMeta::new(2, 10, 20);
    assert_eq!(meta.total_pages, 2);
    assert!(!meta.has_next);
    assert!(meta.has_prev);
}

#[test]
fn pagination_filter_defaults_and_derived_values() {
    let filter = PaginationFilter { page: None, per_page: None };
    assert_eq!(filter.page(), 1);
    assert_eq!(filter.per_page(), 20);
    assert_eq!(filter.offset(), 0);
    assert_eq!(filter.limit(), 20);

    let filter = PaginationFilter { page: Some(3), per_page: Some(25) };
    assert_eq!(filter.offset(), 50);
    assert_eq!(filter.limit(), 25);

    let default_filter = PaginationFilter::default();
    assert_eq!(default_filter.page, Some(1));
    assert_eq!(default_filter.per_page, Some(20));
}

#[test]
fn pagination_meta_from_filter_uses_request_values() {
    let filter = PaginationFilter { page: Some(2), per_page: Some(5) };
    let meta = PaginationMeta::from_filter(&filter, 11);
    assert_eq!(meta.current_page, 2);
    assert_eq!(meta.per_page, 5);
    assert_eq!(meta.total_pages, 3);
    assert_eq!(meta.total_items, 11);
}

#[test]
fn date_range_filter_validity() {
    let empty = DateRangeFilter::new(None, None);
    assert!(empty.is_empty());
    assert!(empty.is_valid());

    let ordered = DateRangeFilter::new(Some(100), Some(200));
    assert!(!ordered.is_empty());
    assert!(ordered.is_valid());

    let reversed = DateRangeFilter::new(Some(200), Some(100));
    assert!(!reversed.is_valid());

    let half_open = DateRangeFilter::new(Some(300), None);
    assert!(!half_open.is_empty());
    assert!(half_open.is_valid());
}

#[test]
fn base_filter_builders() {
    let base = BaseFilter::new();
    assert!(base.capacity.is_none());
    assert!(base.date_range.is_none());

    let with_cap = BaseFilter::new().with_capacity(CapacityFilter {
        operator: NumericOperator::Gte,
        value: 1000,
    });
    assert!(with_cap.capacity.is_some());
    assert_eq!(with_cap.capacity.unwrap().value, 1000);

    let with_range = BaseFilter::new().with_date_range(DateRangeFilter::new(Some(1), Some(2)));
    assert!(with_range.date_range.is_some());
}

#[test]
fn api_response_shapes() {
    let ok = ApiResponse::ok(42u32);
    assert!(ok.success);
    assert_eq!(ok.data, Some(42));
    assert_eq!(ok.message, "Request successful");
    assert!(ok.error.is_none());
    assert!(ok.pagination.is_none());

    let meta = PaginationMeta::new(1, 10, 3);
    let page = ApiResponse::ok_paginated(PaginatedData::new(vec![1u8, 2, 3], 3), meta);
    assert!(page.success);
    assert!(page.pagination.is_some());
    assert_eq!(page.pagination.unwrap().total_items, 3);
    assert_eq!(page.data.as_ref().unwrap().total, 3);
    assert_eq!(page.data.as_ref().unwrap().items, vec![1u8, 2, 3]);

    let err = ApiResponse::<()>::error("boom".to_owned(), "validation_error".to_owned(), None);
    assert!(!err.success);
    assert_eq!(err.message, "boom");
    assert_eq!(err.error.as_ref().unwrap().error_type, "validation_error");
}
