//! Filtering and pagination for list endpoints.
//!
//! Every list endpoint applies the same three filters — state names
//! (case-insensitive), an amount comparison, and a date range — and
//! then serves one page of what is left.

use vstd::prelude::*;

use crate::api::{NumericOperator, PaginationFilter};

verus! {

/// One row of a list endpoint: the state name, the amount in sats, and
/// the row's timestamp (creation or completion), if it has one.
#[derive(Debug, Clone)]
pub struct ListedItem {
    pub state: String,
    pub amount: u64,
    pub timestamp: Option<i64>,
}

/// Model of a listed row.
pub struct ListedItemView {
    pub state: Seq<char>,
    pub amount: u64,
    pub timestamp: Option<i64>,
}

impl View for ListedItem {
    type V = ListedItemView;

    open spec fn view(&self) -> ListedItemView {
        ListedItemView { state: self.state@, amount: self.amount, timestamp: self.timestamp }
    }
}

/// The filters a list request may carry, besides pagination.
#[derive(Debug, Clone)]
pub struct ListFilter {
    /// Keep rows whose state matches any of these, ignoring case.
    pub states: Option<Vec<String>>,
    /// How to compare each row's amount against `value`.
    pub operator: Option<NumericOperator>,
    /// The amount to compare against.
    pub value: Option<i64>,
    /// Keep rows dated at or after this time.
    pub from: Option<i64>,
    /// Keep rows dated at or before this time.
    pub to: Option<i64>,
}

/// Model of a list filter.
pub struct ListFilterView {
    pub states: Option<Seq<Seq<char>>>,
    pub operator: Option<NumericOperator>,
    pub value: Option<i64>,
    pub from: Option<i64>,
    pub to: Option<i64>,
}

impl View for ListFilter {
    type V = ListFilterView;

    open spec fn view(&self) -> ListFilterView {
        ListFilterView {
            states: match self.states {
                Some(ref v) => Some(v@.map_values(|s: String| s@)),
                None => None,
            },
            operator: self.operator,
            value: self.value,
            from: self.from,
            to: self.to,
        }
    }
}

/// Names the result of str::to_lowercase: the lowercase form of a
/// text, a function of its characters alone.
pub uninterp spec fn lower_of(s: Seq<char>) -> Seq<char>;

/// Relies on str::to_lowercase: the result depends on the characters
/// alone, and an empty text stays empty.
#[verifier::external_body]
fn to_lowercase_text(s: &String) -> (r: String)
    ensures
        r@ == lower_of(s@),
        s@.len() == 0 ==> r@.len() == 0,
{
    s.to_lowercase()
}

/// Whether a row's state matches any requested state, ignoring case.
pub open spec fn state_passes(state: Seq<char>, states: Seq<Seq<char>>) -> bool {
    exists|k: int| 0 <= k < states.len() && lower_of(#[trigger] states[k]) == lower_of(state)
}

/// Whether a row's amount passes the requested comparison.  A negative
/// bound matches no amount.
pub open spec fn amount_passes(
    amount: u64,
    operator: Option<NumericOperator>,
    value: Option<i64>,
) -> bool {
    match (operator, value) {
        (Some(op), Some(v)) => if v < 0 {
            false
        } else {
            match op {
                NumericOperator::Gte => amount >= v,
                NumericOperator::Lte => amount <= v,
                NumericOperator::Eq => amount == v,
                NumericOperator::Gt => amount > v,
                NumericOperator::Lt => amount < v,
            }
        },
        _ => true,
    }
}

/// Whether a row's timestamp sits inside the requested range; a bound
/// rejects rows without a timestamp.
pub open spec fn date_passes(timestamp: Option<i64>, from: Option<i64>, to: Option<i64>) -> bool {
    &&& match from {
        Some(f) => timestamp matches Some(t) && t >= f,
        None => true,
    }
    &&& match to {
        Some(u) => timestamp matches Some(t) && t <= u,
        None => true,
    }
}

/// Whether a row passes the whole filter.
pub open spec fn item_passes(item: ListedItemView, filter: ListFilterView) -> bool {
    &&& match filter.states {
        Some(states) => state_passes(item.state, states),
        None => true,
    }
    &&& amount_passes(item.amount, filter.operator, filter.value)
    &&& date_passes(item.timestamp, filter.from, filter.to)
}

/// The predicate a list filter applies to each row.
pub open spec fn list_pred(filter: ListFilterView) -> spec_fn(ListedItemView) -> bool {
    |item: ListedItemView| item_passes(item, filter)
}

/// Applying the predicate is asking the filter itself.
pub broadcast proof fn lemma_list_pred_applies(filter: ListFilterView, item: ListedItemView)
    ensures
        #[trigger] list_pred(filter)(item) == item_passes(item, filter),
{
}

/// Whether a row's state matches any requested state, ignoring case.
fn state_matches(state: &String, states: &Vec<String>) -> (r: bool)
    ensures
        r == state_passes(state@, states@.map_values(|s: String| s@)),
{
    let ghost views = states@.map_values(|s: String| s@);
    let lowered = to_lowercase_text(state);
    let n: usize = states.len();
    let mut k: usize = 0;
    while k < n
        invariant
            0 <= k <= n,
            n == states@.len(),
            views == states@.map_values(|s: String| s@),
            lowered@ == lower_of(state@),
            forall|j: int| 0 <= j < k ==> lower_of(#[trigger] views[j]) != lower_of(state@),
        decreases n - k,
    {
        let candidate = to_lowercase_text(&states[k]);
        if candidate == lowered {
            proof {
                assert(lower_of(views[k as int]) == lower_of(state@));
            }
            return true;
        }
        k = k + 1;
    }
    false
}

/// Whether a row passes the whole filter.
fn item_passes_exec(item: &ListedItem, filter: &ListFilter) -> (r: bool)
    ensures
        r == item_passes(item@, filter@),
{
    let state_ok = match &filter.states {
        Some(states) => state_matches(&item.state, states),
        None => true,
    };
    if !state_ok {
        return false;
    }
    let amount_ok = match (&filter.operator, &filter.value) {
        (Some(op), Some(v)) => {
            if *v < 0 {
                false
            } else {
                let bound = *v as u64;
                match op {
                    NumericOperator::Gte => item.amount >= bound,
                    NumericOperator::Lte => item.amount <= bound,
                    NumericOperator::Eq => item.amount == bound,
                    NumericOperator::Gt => item.amount > bound,
                    NumericOperator::Lt => item.amount < bound,
                }
            }
        },
        _ => true,
    };
    if !amount_ok {
        return false;
    }
    let from_ok = match filter.from {
        Some(f) => match item.timestamp {
            Some(t) => t >= f,
            None => false,
        },
        None => true,
    };
    if !from_ok {
        return false;
    }
    match filter.to {
        Some(u) => match item.timestamp {
            Some(t) => t <= u,
            None => false,
        },
        None => true,
    }
}

/// Apply all filters to a collection of rows: exactly the passing rows
/// survive, in their original order.
pub fn apply_list_filters(items: Vec<ListedItem>, filter: &ListFilter) -> (r: Vec<ListedItem>)
    ensures
        r@.map_values(|x: ListedItem| x@) == items@.map_values(|x: ListedItem| x@).filter(
            list_pred(filter@),
        ),
{
    let ghost views = items@.map_values(|x: ListedItem| x@);
    let ghost pred = list_pred(filter@);
    let mut out: Vec<ListedItem> = Vec::new();
    let n: usize = items.len();
    let mut i: usize = 0;
    proof {
        assert(views.take(0).filter(pred) =~= Seq::<ListedItemView>::empty());
        assert(out@.map_values(|x: ListedItem| x@) =~= Seq::<ListedItemView>::empty());
    }
    while i < n
        invariant
            0 <= i <= n,
            n == items@.len(),
            views == items@.map_values(|x: ListedItem| x@),
            pred == list_pred(filter@),
            out@.map_values(|x: ListedItem| x@) == views.take(i as int).filter(pred),
        decreases n - i,
    {
        let item = &items[i];
        proof {
            assert(item@ == views[i as int]);
            assert(views.take(i + 1).drop_last() =~= views.take(i as int));
            reveal_with_fuel(Seq::filter, 1);
            lemma_list_pred_applies(filter@, views[i as int]);
        }
        if item_passes_exec(item, filter) {
            let ghost pre_out = out@;
            out.push(clone_item(item));
            proof {
                assert(out@.map_values(|x: ListedItem| x@) =~= pre_out.map_values(
                    |x: ListedItem| x@).push(views[i as int]));
            }
        }
        i = i + 1;
    }
    proof {
        assert(views.take(n as int) =~= views);
    }
    out
}

/// An exact copy of a listed row.
fn clone_item(item: &ListedItem) -> (r: ListedItem)
    ensures
        r@ == item@,
{
    ListedItem { state: item.state.clone(), amount: item.amount, timestamp: item.timestamp }
}

/// One page of the rows: the page and page size come from the request,
/// and a page past the end is empty.
pub fn apply_pagination(items: Vec<ListedItem>, filter: &PaginationFilter) -> (r: Vec<ListedItem>)
    requires
        filter.wf(),
    ensures
        r@ == items@.subrange(
            spec_page_start(*filter, items@.len() as int),
            spec_page_end(*filter, items@.len() as int),
        ),
{
    let len: usize = items.len();
    let offset64: u64 = filter.offset();
    let limit64: u64 = filter.limit();
    let start: usize = if offset64 >= len as u64 {
        len
    } else {
        offset64 as usize
    };
    let remaining: usize = len - start;
    let count: usize = if limit64 >= remaining as u64 {
        remaining
    } else {
        limit64 as usize
    };
    let mut items = items;
    let ghost orig = items@;
    let mut tail = items.split_off(start);
    tail.truncate(count);
    proof {
        assert(tail@ =~= orig.subrange(
            spec_page_start(*filter, orig.len() as int),
            spec_page_end(*filter, orig.len() as int),
        ));
    }
    tail
}

/// Where a page starts: the offset, clamped to the row count.
pub open spec fn spec_page_start(filter: PaginationFilter, len: int) -> int {
    let offset = (filter.spec_page() - 1) * filter.spec_per_page();
    if offset >= len {
        len
    } else {
        offset
    }
}

/// Where a page ends: a full page past its start, clamped to the row
/// count.
pub open spec fn spec_page_end(filter: PaginationFilter, len: int) -> int {
    let end = spec_page_start(filter, len) + filter.spec_per_page();
    if end >= len {
        len
    } else {
        end
    }
}

/// Filter, count, and paginate the rows of one list request: the total
/// counts everything that passed the filters, while the rows returned
/// are just the requested page of them.
pub fn process_list_with_filters(items: Vec<ListedItem>, filter: &ListFilter, pagination:
    &PaginationFilter) -> (r: (Vec<ListedItem>, u64))
    requires
        pagination.wf(),
        items@.len() <= u32::MAX,
    ensures
        ({
            let passing = items@.map_values(|x: ListedItem| x@).filter(list_pred(filter@));
            &&& r.1 == passing.len()
            &&& r.0@.map_values(|x: ListedItem| x@) == passing.subrange(
                spec_page_start(*pagination, passing.len() as int),
                spec_page_end(*pagination, passing.len() as int),
            )
        }),
{
    let ghost views = items@.map_values(|x: ListedItem| x@);
    let filtered = apply_list_filters(items, filter);
    proof {
        views.lemma_filter_len(list_pred(filter@));
        assert(filtered@.map_values(|x: ListedItem| x@).len() == filtered@.len());
    }
    let total: u64 = filtered.len() as u64;
    let ghost passing = views.filter(list_pred(filter@));
    let ghost filtered_seq = filtered@;
    let page = apply_pagination(filtered, pagination);
    proof {
        lemma_map_values_subrange(
            filtered_seq,
            spec_page_start(*pagination, passing.len() as int),
            spec_page_end(*pagination, passing.len() as int),
        );
    }
    (page, total)
}

/// Mapping to views commutes with taking a subrange.
proof fn lemma_map_values_subrange(filtered: Seq<ListedItem>, a: int, b: int)
    requires
        0 <= a <= b <= filtered.len(),
    ensures
        filtered.subrange(a, b).map_values(|x: ListedItem| x@) == filtered.map_values(
            |x: ListedItem| x@,
        ).subrange(a, b),
{
    assert(filtered.subrange(a, b).map_values(|x: ListedItem| x@) =~= filtered.map_values(
        |x: ListedItem| x@,
    ).subrange(a, b));
}

} // verus!
