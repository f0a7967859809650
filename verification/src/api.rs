//! Response wrappers, pagination, and filter primitives for the HTTP
//! layer that sits above the pipeline.

use vstd::prelude::*;

use crate::errors::{
    service_error_to_http, spec_error_type_of, spec_message_of, spec_status_of, HttpError,
    ServiceError,
};

verus! {

/// Relies on chrono::Utc::now and its RFC 3339 rendering: the current
/// wall-clock time as text.  Nothing is assumed of the value.
#[verifier::external_body]
fn now_rfc3339() -> (r: String) {
    chrono::Utc::now().to_rfc3339()
}

/// Standard API response wrapper for all endpoints.
#[derive(Debug)]
pub struct ApiResponse<T> {
    /// Indicates if the request was successful.
    pub success: bool,
    /// Response data (present on success).
    pub data: Option<T>,
    /// Human-readable message.
    pub message: String,
    /// Error details (present on failure).
    pub error: Option<ErrorDetails>,
    /// Pagination metadata (present for paginated responses).
    pub pagination: Option<PaginationMeta>,
    /// Request timestamp.
    pub timestamp: String,
}

/// Pagination metadata for list responses.
#[derive(Debug, Clone, Copy)]
pub struct PaginationMeta {
    /// Current page number (1-indexed).
    pub current_page: u32,
    /// Number of items per page.
    pub per_page: u32,
    /// Total number of items across all pages.
    pub total_items: u64,
    /// Total number of pages.
    pub total_pages: u32,
    /// Whether there is a next page.
    pub has_next: bool,
    /// Whether there is a previous page.
    pub has_prev: bool,
    /// Next page number (if available).
    pub next_page: Option<u32>,
    /// Previous page number (if available).
    pub prev_page: Option<u32>,
}

/// Paginated response wrapper containing items and their total count.
#[derive(Debug)]
pub struct PaginatedData<T> {
    /// List of items for the current page.
    pub items: Vec<T>,
    /// Total count of matching items across all pages.
    pub total: u64,
}

/// Error details for failed requests.
#[derive(Debug)]
pub struct ErrorDetails {
    /// Machine-readable error type identifier.
    pub error_type: String,
    /// Field-specific validation errors when applicable.
    pub details: Option<Vec<FieldError>>,
}

/// Field-specific validation error details.
#[derive(Debug)]
pub struct FieldError {
    /// Name of the field with the validation error.
    pub field: String,
    /// Description of the validation failure.
    pub message: String,
}

/// Pagination parameters for requests.  A page below 1 or a page size
/// outside 1..=100 is rejected by request validation before these are
/// used.
#[derive(Debug, Clone, Copy)]
pub struct PaginationFilter {
    /// Page number (1-indexed).
    pub page: Option<u32>,
    /// Number of items per page.
    pub per_page: Option<u32>,
}

/// Numeric comparison operators for filtering.
#[derive(Debug, Clone, Copy, PartialEq, Eq, Structural)]
pub enum NumericOperator {
    /// Greater than or equal to.
    Gte,
    /// Less than or equal to.
    Lte,
    /// Equal to.
    Eq,
    /// Greater than.
    Gt,
    /// Less than.
    Lt,
}

/// Capacity filter for numeric values.
#[derive(Debug, Clone, Copy)]
pub struct CapacityFilter {
    /// The comparison operator.
    pub operator: NumericOperator,
    /// The value to compare against.
    pub value: i64,
}

/// Date range filter over unix timestamps (seconds).
#[derive(Debug, Clone, Copy)]
pub struct DateRangeFilter {
    /// Start date (inclusive).
    pub from: Option<i64>,
    /// End date (inclusive).
    pub to: Option<i64>,
}

/// Base filter struct that other modules can extend.
#[derive(Debug, Clone, Copy)]
pub struct BaseFilter {
    /// Capacity-based filtering.
    pub capacity: Option<CapacityFilter>,
    /// Date range filtering.
    pub date_range: Option<DateRangeFilter>,
}

/// The number of pages `total_items` fill at `per_page` per page:
/// at least one page, and otherwise the rounded-up quotient.
pub open spec fn spec_total_pages(per_page: u32, total_items: u64) -> int
    recommends
        per_page >= 1,
{
    if total_items == 0 {
        1
    } else {
        (total_items - 1) / (per_page as int) + 1
    }
}

impl PaginationMeta {
    /// Create pagination metadata from page parameters and total count.
    pub fn new(current_page: u32, per_page: u32, total_items: u64) -> (r: PaginationMeta)
        requires
            per_page >= 1,
            spec_total_pages(per_page, total_items) <= u32::MAX,
        ensures
            r.current_page == current_page,
            r.per_page == per_page,
            r.total_items == total_items,
            r.total_pages == spec_total_pages(per_page, total_items),
            r.has_next == (current_page < r.total_pages),
            r.has_prev == (current_page > 1),
            r.next_page == (if r.has_next {
                Some((current_page + 1) as u32)
            } else {
                None::<u32>
            }),
            r.prev_page == (if r.has_prev {
                Some((current_page - 1) as u32)
            } else {
                None::<u32>
            }),
    {
        let total_pages: u32 = if total_items == 0 {
            1
        } else {
            (((total_items - 1) / (per_page as u64)) + 1) as u32
        };
        let has_next = current_page < total_pages;
        let has_prev = current_page > 1;
        PaginationMeta {
            current_page,
            per_page,
            total_items,
            total_pages,
            has_next,
            has_prev,
            next_page: if has_next {
                Some(current_page + 1)
            } else {
                None
            },
            prev_page: if has_prev {
                Some(current_page - 1)
            } else {
                None
            },
        }
    }

    /// Metadata for the page a filter selects over a total count.
    pub fn from_filter(filter: &PaginationFilter, total_items: u64) -> (r: PaginationMeta)
        requires
            filter.wf(),
            spec_total_pages(filter.spec_per_page(), total_items) <= u32::MAX,
        ensures
            r.current_page == filter.spec_page(),
            r.per_page == filter.spec_per_page(),
            r.total_items == total_items,
            r.total_pages == spec_total_pages(filter.spec_per_page(), total_items),
    {
        Self::new(filter.page(), filter.per_page(), total_items)
    }
}

impl<T> PaginatedData<T> {
    /// Create a new paginated data wrapper.
    pub fn new(items: Vec<T>, total: u64) -> (r: PaginatedData<T>)
        ensures
            r.items == items,
            r.total == total,
    {
        PaginatedData { items, total }
    }
}

impl<T> ApiResponse<T> {
    /// Create a successful response.
    pub fn success(data: T, message: String) -> (r: Self)
        ensures
            r.success,
            r.data == Some(data),
            r.message@ == message@,
            r.error is None,
            r.pagination is None,
    {
        Self {
            success: true,
            data: Some(data),
            message,
            error: None,
            pagination: None,
            timestamp: now_rfc3339(),
        }
    }

    /// Create a successful response with the default message.
    pub fn ok(data: T) -> (r: Self)
        ensures
            r.success,
            r.data == Some(data),
            r.message@ == "Request successful"@,
            r.error is None,
            r.pagination is None,
    {
        Self::success(data, "Request successful".to_owned())
    }

    /// Create a successful paginated response.
    pub fn paginated(data: T, pagination: PaginationMeta, message: String) -> (r: Self)
        ensures
            r.success,
            r.data == Some(data),
            r.message@ == message@,
            r.error is None,
            r.pagination == Some(pagination),
    {
        Self {
            success: true,
            data: Some(data),
            message,
            error: None,
            pagination: Some(pagination),
            timestamp: now_rfc3339(),
        }
    }

    /// Create a successful paginated response with the default message.
    pub fn ok_paginated(data: T, pagination: PaginationMeta) -> (r: Self)
        ensures
            r.success,
            r.data == Some(data),
            r.message@ == "Request successful"@,
            r.error is None,
            r.pagination == Some(pagination),
    {
        Self::paginated(data, pagination, "Request successful".to_owned())
    }

    /// Create an error response.
    pub fn error(message: String, error_type: String, details: Option<Vec<FieldError>>) -> (r:
        ApiResponse<()>)
        ensures
            !r.success,
            r.data is None,
            r.message@ == message@,
            r.error is Some,
            r.error->0.error_type@ == error_type@,
            r.error->0.details == details,
            r.pagination is None,
    {
        ApiResponse {
            success: false,
            data: None,
            message,
            error: Some(ErrorDetails { error_type, details }),
            pagination: None,
            timestamp: now_rfc3339(),
        }
    }
}

impl PaginationFilter {
    /// Validated pagination parameters: pages are 1-indexed and a page
    /// holds at least one item.
    pub open spec fn wf(self) -> bool {
        &&& (self.page matches Some(p) ==> p >= 1)
        &&& (self.per_page matches Some(pp) ==> 1 <= pp <= 100)
    }

    /// The page that will be served.
    pub open spec fn spec_page(self) -> u32 {
        match self.page {
            Some(p) => p,
            None => 1,
        }
    }

    /// The page size that will be served.
    pub open spec fn spec_per_page(self) -> u32 {
        match self.per_page {
            Some(pp) => pp,
            None => 20,
        }
    }

    /// Get the page number, defaulting to the first page.
    pub fn page(&self) -> (r: u32)
        ensures
            r == self.spec_page(),
    {
        match self.page {
            Some(p) => p,
            None => 1,
        }
    }

    /// Get the page size, defaulting to 20 items.
    pub fn per_page(&self) -> (r: u32)
        ensures
            r == self.spec_per_page(),
    {
        match self.per_page {
            Some(pp) => pp,
            None => 20,
        }
    }

    /// Calculate the offset for queries: the items on earlier pages.
    pub fn offset(&self) -> (r: u64)
        requires
            self.wf(),
        ensures
            r == (self.spec_page() - 1) * self.spec_per_page(),
    {
        let page: u64 = self.page() as u64;
        let per_page: u64 = self.per_page() as u64;
        proof {
            vstd::arithmetic::mul::lemma_mul_upper_bound(
                page - 1,
                0xffff_fffe,
                per_page as int,
                0xffff_ffff,
            );
        }
        (page - 1) * per_page
    }

    /// Get the limit for queries: the page size.
    pub fn limit(&self) -> (r: u64)
        ensures
            r == self.spec_per_page(),
    {
        self.per_page() as u64
    }
}

impl Default for PaginationFilter {
    /// The first page of 20 items.
    fn default() -> (r: Self)
        ensures
            r.page == Some(1u32),
            r.per_page == Some(20u32),
            r.wf(),
    {
        Self { page: Some(1), per_page: Some(20) }
    }
}

impl DateRangeFilter {
    /// Create a new date range filter.
    pub fn new(from: Option<i64>, to: Option<i64>) -> (r: Self)
        ensures
            r.from == from,
            r.to == to,
    {
        Self { from, to }
    }

    /// Check if the filter has any constraints.
    pub fn is_empty(&self) -> (r: bool)
        ensures
            r == (self.from is None && self.to is None),
    {
        self.from.is_none() && self.to.is_none()
    }

    /// Validate that the start does not lie after the end; a half-open
    /// range is always valid.
    pub fn is_valid(&self) -> (r: bool)
        ensures
            r == match (self.from, self.to) {
                (Some(from), Some(to)) => from <= to,
                _ => true,
            },
    {
        match (self.from, self.to) {
            (Some(from), Some(to)) => from <= to,
            _ => true,
        }
    }
}

impl BaseFilter {
    /// Create a new empty base filter.
    pub fn new() -> (r: Self)
        ensures
            r.capacity is None,
            r.date_range is None,
    {
        Self { capacity: None, date_range: None }
    }

    /// Set the capacity filter.
    pub fn with_capacity(self, capacity: CapacityFilter) -> (r: Self)
        ensures
            r.capacity == Some(capacity),
            r.date_range == self.date_range,
    {
        Self { capacity: Some(capacity), ..self }
    }

    /// Set the date range filter.
    pub fn with_date_range(self, date_range: DateRangeFilter) -> (r: Self)
        ensures
            r.capacity == self.capacity,
            r.date_range == Some(date_range),
    {
        Self { date_range: Some(date_range), ..self }
    }
}

impl Default for BaseFilter {
    /// An empty filter.
    fn default() -> (r: Self)
        ensures
            r.capacity is None,
            r.date_range is None,
    {
        Self::new()
    }
}

/// Field errors as the application's validation layer reports them:
/// one pair per failure, the message possibly absent.
pub type FieldIssue = (String, Option<String>);

/// The message a field issue renders to: the reported message, or the
/// generic one.
pub open spec fn spec_issue_message(issue: (Seq<char>, Option<Seq<char>>)) -> Seq<char> {
    match issue.1 {
        Some(m) => m,
        None => "Invalid value"@,
    }
}

/// Model of a field issue.
pub open spec fn issue_view(issue: FieldIssue) -> (Seq<char>, Option<Seq<char>>) {
    (issue.0@, crate::supervisor::opt_view(issue.1))
}

/// Formats validation failures into field-specific error details, one
/// entry per reported issue, in order; an issue without a message gets
/// the generic one.
pub fn validation_errors_to_field_errors(issues: Vec<FieldIssue>) -> (r: Vec<FieldError>)
    ensures
        r@.len() == issues@.len(),
        forall|i: int|
            0 <= i < r@.len() ==> (#[trigger] r@[i]).field@ == issue_view(issues@[i]).0
                && r@[i].message@ == spec_issue_message(issue_view(issues@[i])),
{
    let mut out: Vec<FieldError> = Vec::new();
    let mut rest = issues;
    let ghost orig = rest@;
    let ghost i: int = 0;
    while rest.len() > 0
        invariant
            0 <= i <= orig.len(),
            rest@ == orig.skip(i),
            out@.len() == i,
            forall|j: int|
                0 <= j < i ==> (#[trigger] out@[j]).field@ == issue_view(orig[j]).0
                    && out@[j].message@ == spec_issue_message(issue_view(orig[j])),
        decreases rest@.len(),
    {
        let (field, message) = rest.remove(0);
        proof {
            assert(rest@ =~= orig.skip(i + 1));
        }
        let message = match message {
            Some(m) => m,
            None => "Invalid value".to_owned(),
        };
        out.push(FieldError { field, message });
        proof {
            i = i + 1;
        }
    }
    out
}

/// Builds the standard response for a request whose validation failed:
/// status 400, with one field error per reported issue.
pub fn validation_error_response(issues: Vec<FieldIssue>) -> (r: (u16, ApiResponse<()>))
    ensures
        r.0 == 400,
        !r.1.success,
        r.1.message@ == "Validation failed"@,
        r.1.error is Some,
        r.1.error->0.error_type@ == "validation_error"@,
        r.1.error->0.details is Some,
        r.1.error->0.details->0@.len() == issues@.len(),
{
    let field_errors = validation_errors_to_field_errors(issues);
    let response = ApiResponse::<()>::error(
        "Validation failed".to_owned(),
        "validation_error".to_owned(),
        Some(field_errors),
    );
    (400, response)
}

/// Converts a service error to the standard error response and its
/// status code.
pub fn service_error_response(error: ServiceError) -> (r: (u16, ApiResponse<()>))
    ensures
        r.0 == spec_status_of(error),
        !r.1.success,
        r.1.message@ == spec_message_of(error),
        r.1.error is Some,
        r.1.error->0.error_type@ == spec_error_type_of(error),
        r.1.error->0.details is None,
{
    let HttpError { status, error_type, message } = service_error_to_http(error);
    let response = ApiResponse::<()>::error(message, error_type, None);
    (status, response)
}

} // verus!
