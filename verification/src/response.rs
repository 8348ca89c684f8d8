//! Response shapes: the API envelope, list and paginated responses, and API
//! versions.

use vstd::prelude::*;
use vstd::string::*;
use vstd::utf8::is_ascii_chars;
use crate::text::{lowercase, to_lowercase, ascii_lower, ascii_upper, ascii_lower_char, ascii_upper_char, str_equal};

verus! {

/// Whether `status` is a success code (2xx).
pub open spec fn is_success_status(status: u16) -> bool {
    200 <= status <= 299
}

/// Standard API response envelope.
#[derive(Debug, Clone)]
pub struct ApiResponse<T> {
    /// HTTP status code (not serialized).
    pub status: u16,
    pub success: bool,
    pub data: Option<T>,
    pub message: Option<String>,
}

impl<T> ApiResponse<T> {
    /// A 200 response carrying `data`.
    pub fn ok(data: T) -> (r: Self)
        ensures
            r.status == 200,
            r.success,
            r.data == Some(data),
            r.message is None,
    {
        ApiResponse { status: 200, success: true, data: Some(data), message: None }
    }

    /// A response with the given status code carrying `data`; it counts as a
    /// success exactly for 2xx codes.
    pub fn with_status(status: u16, data: T) -> (r: Self)
        requires
            100 <= status <= 999,
        ensures
            r.status == status,
            r.success == is_success_status(status),
            r.data == Some(data),
            r.message is None,
    {
        ApiResponse { status, success: 200 <= status && status <= 299, data: Some(data), message: None }
    }

    /// A 200 response carrying `data` and a message.
    pub fn ok_with_message(data: T, message: String) -> (r: Self)
        ensures
            r.status == 200,
            r.success,
            r.data == Some(data),
            r.message == Some(message),
    {
        ApiResponse { status: 200, success: true, data: Some(data), message: Some(message) }
    }

    /// The HTTP status to answer with: the stored code when it is a valid
    /// status code (100..=999), else 200.
    pub fn status_code(&self) -> (r: u16)
        ensures
            r == (if 100 <= self.status <= 999 { self.status } else { 200u16 }),
    {
        if 100 <= self.status && self.status <= 999 {
            self.status
        } else {
            200
        }
    }
}

/// Response for operations that return no data.
#[derive(Debug, Clone)]
pub struct EmptyResponse;

impl EmptyResponse {
    /// The HTTP status it answers with: 204 No Content.
    pub fn status_code(&self) -> (r: u16)
        ensures
            r == 204,
    {
        204
    }
}

/// A list of items with its count and an optional total.
#[derive(Debug, Clone)]
pub struct ListResponse<T> {
    pub items: Vec<T>,
    pub count: usize,
    pub total: Option<usize>,
}

impl<T> ListResponse<T> {
    /// A list response without a total.
    pub fn new(items: Vec<T>) -> (r: Self)
        ensures
            r.items@ == items@,
            r.count == items@.len(),
            r.total is None,
    {
        let count = items.len();
        ListResponse { items, count, total: None }
    }

    /// A list response with the total number of items available.
    pub fn with_total(items: Vec<T>, total: usize) -> (r: Self)
        ensures
            r.items@ == items@,
            r.count == items@.len(),
            r.total == Some(total),
    {
        let count = items.len();
        ListResponse { items, count, total: Some(total) }
    }
}

/// Supported API versions.
#[derive(Debug, Clone, Copy, PartialEq, Eq, Structural)]
pub enum ApiVersion {
    V1,
    V2,
}

impl Default for ApiVersion {
    fn default() -> (r: Self)
        ensures
            r == ApiVersion::V1,
    {
        ApiVersion::V1
    }
}

/// The text form of a version.
pub open spec fn version_text(v: ApiVersion) -> Seq<char> {
    match v {
        ApiVersion::V1 => "v1"@,
        ApiVersion::V2 => "v2"@,
    }
}

/// The version a text names, compared after lower-casing: `v1`/`1` and
/// `v2`/`2`.
pub open spec fn version_from_lower(lower: Seq<char>) -> Option<ApiVersion> {
    if lower == "v1"@ || lower == "1"@ {
        Some(ApiVersion::V1)
    } else if lower == "v2"@ || lower == "2"@ {
        Some(ApiVersion::V2)
    } else {
        None
    }
}

impl ApiVersion {
    /// `"v1"` or `"v2"`.
    pub fn as_str(&self) -> (r: &'static str)
        ensures
            r@ == version_text(*self),
    {
        match self {
            ApiVersion::V1 => "v1",
            ApiVersion::V2 => "v2",
        }
    }

    /// Parses a version, case-insensitively; any other text is answered
    /// with `unsupported api version: <text>`.
    pub fn parse(value: &str) -> (r: Result<ApiVersion, String>)
        ensures
            version_result(r, value@, lowercase(value@)),
            is_ascii_chars(value@) ==> version_result(r, value@, ascii_lower(value@)),
    {
        let lower = to_lowercase(value);
        ApiVersion::from_lowered(value, lower.as_str())
    }

    /// The version that `value` names, given `lower`, its lower-cased form;
    /// any other text is answered with `unsupported api version: <value>`.
    pub fn from_lowered(value: &str, lower: &str) -> (r: Result<ApiVersion, String>)
        ensures
            version_result(r, value@, lower@),
    {
        proof {
            reveal_strlit("v1");
            reveal_strlit("1");
            reveal_strlit("v2");
            reveal_strlit("2");
        }
        if str_equal(lower, "v1") || str_equal(lower, "1") {
            Ok(ApiVersion::V1)
        } else if str_equal(lower, "v2") || str_equal(lower, "2") {
            Ok(ApiVersion::V2)
        } else {
            let r = String::from_str("unsupported api version: ").concat(value);
            proof {
                reveal_strlit("unsupported api version: ");
            }
            Err(r)
        }
    }
}

/// `r` is what parsing `value` gives when its lower-cased form is `lower`:
/// the version that `lower` names, else the error naming `value`.
pub open spec fn version_result(r: Result<ApiVersion, String>, value: Seq<char>, lower: Seq<char>) -> bool {
    match version_from_lower(lower) {
        Some(v) => r == Ok::<ApiVersion, String>(v),
        None => r is Err && r->Err_0@ == "unsupported api version: "@ + value,
    }
}

impl core::str::FromStr for ApiVersion {
    type Err = String;

    fn from_str(value: &str) -> (r: Result<ApiVersion, String>)
        ensures
            version_result(r, value@, lowercase(value@)),
            is_ascii_chars(value@) ==> version_result(r, value@, ascii_lower(value@)),
    {
        ApiVersion::parse(value)
    }
}

/// A version's text parses back to it, and so does its upper-cased text:
/// both forms are ASCII, and lower-casing either gives the version's name.
pub proof fn law_version_text_round_trip(v: ApiVersion)
    ensures
        is_ascii_chars(version_text(v)),
        version_from_lower(ascii_lower(version_text(v))) == Some(v),
        is_ascii_chars(ascii_upper(version_text(v))),
        version_from_lower(ascii_lower(ascii_upper(version_text(v)))) == Some(v),
{
    reveal_strlit("v1");
    reveal_strlit("v2");
    reveal_strlit("V1");
    reveal_strlit("V2");
    reveal_strlit("1");
    reveal_strlit("2");
    let t = version_text(v);
    let u = match v {
        ApiVersion::V1 => "V1"@,
        ApiVersion::V2 => "V2"@,
    };
    assert(ascii_upper_char('v') == 'V');
    assert(ascii_lower_char('V') == 'v');
    assert(ascii_lower_char('v') == 'v');
    assert(ascii_upper_char('1') == '1' && ascii_upper_char('2') == '2');
    assert(ascii_lower_char('1') == '1' && ascii_lower_char('2') == '2');
    assert(ascii_lower(t) =~= t);
    assert(ascii_upper(t) =~= u);
    assert(ascii_lower(u) =~= t);
    assert("v2"@[1] != "v1"@[1]);
    assert("v2"@ != "v1"@);
    assert("v2"@.len() != "1"@.len());
}

/// Data tagged with the API version it was produced for.
#[derive(Debug, Clone)]
pub struct VersionedResponse<T> {
    pub version: String,
    pub data: T,
}

impl<T> VersionedResponse<T> {
    /// Tags `data` with `version`.
    pub fn new(version: ApiVersion, data: T) -> (r: Self)
        ensures
            r.version@ == version_text(version),
            r.data == data,
    {
        VersionedResponse { version: String::from_str(version.as_str()), data }
    }
}

/// Page selection from the query string.
#[derive(Debug, Clone, Copy)]
pub struct PaginationQuery {
    pub page: Option<usize>,
    pub per_page: Option<usize>,
}

impl Default for PaginationQuery {
    fn default() -> (r: Self)
        ensures
            r.page == Some(1usize),
            r.per_page == Some(20usize),
    {
        PaginationQuery { page: Some(1), per_page: Some(20) }
    }
}

/// The page number in effect: the requested one (1 when absent), at least 1.
pub open spec fn effective_page(q: PaginationQuery) -> int {
    let p = match q.page {
        Some(p) => p as int,
        None => 1,
    };
    if p < 1 { 1 } else { p }
}

/// The page size in effect: the requested one (20 when absent), within 1..=100.
pub open spec fn effective_per_page(q: PaginationQuery) -> int {
    let p = match q.per_page {
        Some(p) => p as int,
        None => 20,
    };
    if p < 1 { 1 } else if p > 100 { 100 } else { p }
}

/// Pagination defaults and bounds: a missing page is page 1 and a missing
/// page size is 20; the page in effect is at least 1 and the size in effect
/// lies in 1..=100; a requested value within its bounds is kept as given,
/// and one outside them is moved to the nearest bound.
pub proof fn law_pagination_defaults_and_bounds(q: PaginationQuery)
    ensures
        q.page is None ==> effective_page(q) == 1,
        q.per_page is None ==> effective_per_page(q) == 20,
        effective_page(q) >= 1,
        1 <= effective_per_page(q) <= 100,
        q.page matches Some(p) ==> effective_page(q) == (if p == 0 { 1 } else { p as int }),
        q.per_page matches Some(p) ==> effective_per_page(q) == (if p == 0 {
            1
        } else if p >= 100 {
            100
        } else {
            p as int
        }),
{
}

impl PaginationQuery {
    /// `(page, per_page)` with defaults filled in and bounds applied.
    pub fn normalized(&self) -> (r: (usize, usize))
        ensures
            r.0 == effective_page(*self),
            r.1 == effective_per_page(*self),
    {
        let page = match self.page {
            Some(p) => p,
            None => 1,
        };
        let page = if page < 1 { 1 } else { page };
        let per_page = match self.per_page {
            Some(p) => p,
            None => 20,
        };
        let per_page = if per_page < 1 { 1 } else if per_page > 100 { 100 } else { per_page };
        (page, per_page)
    }
}

/// Number of pages of `per_page` items that `total` items fill.
pub open spec fn page_count(total: int, per_page: int) -> int {
    if total == 0 { 0 } else { (total + per_page - 1) / per_page }
}

/// One page of a list, with its position among all pages.
#[derive(Debug, Clone)]
pub struct PaginatedResponse<T> {
    pub items: Vec<T>,
    pub page: usize,
    pub per_page: usize,
    pub total: usize,
    pub total_pages: usize,
    pub has_next: bool,
    pub has_prev: bool,
}

impl<T> PaginatedResponse<T> {
    /// The page of `items` that `query` selects.
    pub fn from_items(items: Vec<T>, query: PaginationQuery) -> (r: Self)
        requires
            (effective_page(query) - 1) * effective_per_page(query) <= usize::MAX,
        ensures
            ({
                let page = effective_page(query);
                let per_page = effective_per_page(query);
                let total = items@.len() as int;
                let offset = (page - 1) * per_page;
                let end = if offset + per_page < total { offset + per_page } else { total };
                let pages = page_count(total, per_page);
                &&& r.page == page
                &&& r.per_page == per_page
                &&& r.total == total
                &&& r.items@ == (if offset >= total { Seq::empty() } else { items@.subrange(offset, end) })
                &&& r.total_pages == pages
                &&& r.has_next == (pages > 0 && page < pages)
                &&& r.has_prev == (page > 1 && pages > 0)
            }),
    {
        let total = items.len();
        let (page, per_page) = query.normalized();
        let offset = (page - 1) * per_page;
        let mut items = items;
        let page_items: Vec<T> = if offset >= total {
            Vec::new()
        } else {
            let mut rest = items.split_off(offset);
            if per_page < rest.len() {
                rest.truncate(per_page);
            }
            rest
        };
        let total_pages: usize = if total == 0 {
            0
        } else {
            let q = total / per_page;
            if total % per_page == 0 {
                q
            } else {
                assert(q < total) by (nonlinear_arith)
                    requires
                        per_page >= 1,
                        q == total / per_page,
                        total % per_page != 0,
                {
                }
                q + 1
            }
        };
        assert(total > 0 ==> total_pages == page_count(total as int, per_page as int)) by (nonlinear_arith)
            requires
                per_page >= 1,
                total > 0 ==> total_pages == total / per_page + (if total % per_page == 0 { 0int } else { 1int }),
        {
        }
        PaginatedResponse {
            items: page_items,
            page,
            per_page,
            total,
            total_pages,
            has_next: total_pages > 0 && page < total_pages,
            has_prev: page > 1 && total_pages > 0,
        }
    }
}


/// The pages cover the items exactly: `page_count` pages of `per_page` hold
/// all `total` items, and one page fewer would not.
pub proof fn law_pages_cover_items(total: nat, per_page: nat)
    requires
        per_page >= 1,
    ensures
        page_count(total as int, per_page as int) * per_page >= total,
        total > 0 ==> (page_count(total as int, per_page as int) - 1) * per_page < total,
{
    if total > 0 {
        let q = (total + per_page - 1) / (per_page as int);
        assert(q * per_page >= total && (q - 1) * per_page < total) by (nonlinear_arith)
            requires
                per_page >= 1,
                total > 0,
                q == (total + per_page - 1) / (per_page as int),
        {
        }
    }
}

} // verus!
