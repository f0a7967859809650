//! List filtering and pagination.

use node_events::api::{NumericOperator, PaginationFilter};
use node_events::listing::{
    apply_list_filters, apply_pagination, process_list_with_filters, ListFilter, ListedItem,
};

fn item(state: &str, amount: u64, timestamp: Option<i64>) -> ListedItem {
    ListedItem { state: state.to_owned(), amount, timestamp }
}

fn no_filter() -> ListFilter {
    ListFilter { states: None, operator: None, value: None, from: None, to: None }
}

#[test]
fn state_filter_ignores_case() {
    let items = vec![
        item("Active", 10, None),
        item("INACTIVE", 20, None),
        item("closing", 30, None),
    ];
    let filter = ListFilter {
        states: Some(vec!["ACTIVE".to_owned(), "Closing".to_owned()]),
        ..no_filter()
    };
    let kept = apply_list_filters(items, &filter);
    assert_eq!(kept.len(), 2);
    assert_eq!(kept[0].state, "Active");
    assert_eq!(kept[1].state, "closing");
}

#[test]
fn amount_filter_per_operator() {
    let items = || vec![item("a", 10, None), item("b", 20, None), item("c", 30, None)];
    let with = |op: NumericOperator, v: i64| ListFilter {
        operator: Some(op),
        value: Some(v),
        ..no_filter()
    };
    assert_eq!(apply_list_filters(items(), &with(NumericOperator::Gte, 20)).len(), 2);
    assert_eq!(apply_list_filters(items(), &with(NumericOperator::Lte, 20)).len(), 2);
    assert_eq!(apply_list_filters(items(), &with(NumericOperator::Eq, 20)).len(), 1);
    assert_eq!(apply_list_filters(items(), &with(NumericOperator::Gt, 20)).len(), 1);
    assert_eq!(apply_list_filters(items(), &with(NumericOperator::Lt, 20)).len(), 1);
    // A negative bound matches no amounts at all.
    assert_eq!(apply_list_filters(items(), &with(NumericOperator::Gte, -1)).len(), 0);
}

#[test]
fn date_filter_requires_timestamps_inside_the_range() {
    let items = vec![
        item("a", 1, Some(100)),
        item("b", 2, Some(200)),
        item("c", 3, None),
    ];
    let filter = ListFilter { from: Some(150), ..no_filter() };
    let kept = apply_list_filters(items.clone(), &filter);
    assert_eq!(kept.len(), 1);
    assert_eq!(kept[0].state, "b");

    let filter = ListFilter { from: Some(50), to: Some(150), ..no_filter() };
    let kept = apply_list_filters(items, &filter);
    assert_eq!(kept.len(), 1);
    assert_eq!(kept[0].state, "a");
}

#[test]
fn pagination_serves_one_page() {
    let items: Vec<ListedItem> = (0..25u64).map(|k| item("s", k, None)).collect();
    let page2 = apply_pagination(
        items.clone(),
        &PaginationFilter { page: Some(2), per_page: Some(10) },
    );
    assert_eq!(page2.len(), 10);
    assert_eq!(page2[0].amount, 10);
    assert_eq!(page2[9].amount, 19);

    let page3 = apply_pagination(
        items.clone(),
        &PaginationFilter { page: Some(3), per_page: Some(10) },
    );
    assert_eq!(page3.len(), 5);

    let past_end = apply_pagination(items, &PaginationFilter { page: Some(9), per_page: Some(10) });
    assert!(past_end.is_empty());
}

#[test]
fn listing_counts_all_matches_but_serves_the_page() {
    let items: Vec<ListedItem> = (0..30u64).map(|k| item("open", k, Some(k as i64))).collect();
    let filter = ListFilter {
        operator: Some(NumericOperator::Gte),
        value: Some(4),
        ..no_filter()
    };
    let pagination = PaginationFilter { page: Some(2), per_page: Some(10) };
    let (page, total) = process_list_with_filters(items, &filter, &pagination);
    assert_eq!(total, 26);
    assert_eq!(page.len(), 10);
    assert_eq!(page[0].amount, 14);
}
