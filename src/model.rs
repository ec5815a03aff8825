use vstd::prelude::*;

verus! {

/// A JSON document, carried through the library as it came off the queue.
#[verifier::external_type_specification]
#[verifier::external_body]
pub struct ExValue(serde_json::Value);

/// One unit of work taken off the queue: which account of which platform to
/// sync, which kind of data, and where to fetch it.
#[derive(Debug)]
pub struct Verify {
    pub id: String,
    pub cate: String,
    pub media_id: u8,
    pub account_id: u64,
    pub url: String,
    pub body: Option<serde_json::Value>,
}

/// Credential answer of the token service.
#[derive(Debug)]
pub struct EmarTokenRt {
    pub code: i32,
    pub access_token: Option<String>,
}

/// Page metadata of a paginated platform response.
#[derive(Clone, Copy, Debug, PartialEq, Eq, Structural)]
pub struct Pagination {
    pub page: u64,
    pub page_size: i64,
    pub total_number: u64,
    pub total_page: u64,
}

/// The envelope every platform response comes in; `code == 0` is success.
#[derive(Debug)]
pub struct ApiRes<T> {
    pub code: i32,
    pub message: Option<String>,
    pub message_cn: Option<String>,
    pub data: Option<T>,
    pub request_id: Option<String>,
}

/// The payload of a list response.
#[derive(Debug)]
pub struct ApiData<T> {
    pub list: Option<Vec<T>>,
    pub page_info: Option<Pagination>,
    pub cursor_info: Option<CursorDetail>,
}

/// Cursor metadata of a cursor-paginated response.
#[derive(Clone, Copy, Debug, PartialEq, Eq, Structural)]
pub struct CursorDetail {
    pub total_number: Option<u64>,
    pub has_more: bool,
    pub count: u64,
    pub cursor: Option<u64>,
}

/// The payload of a custom report response, whose items are called rows.
#[derive(Debug)]
pub struct TtApiCustomRes<T> {
    pub rows: Option<Vec<T>>,
    pub page_info: Option<Pagination>,
}

/// Account record of the first platform.
#[derive(Debug)]
pub struct GdtAdvertiser {
    pub account_id: Option<u64>,
    pub daily_budget: Option<i64>,
    pub system_status: Option<String>,
    pub reject_message: Option<String>,
    pub corporation_name: Option<String>,
    pub agency_account_id: Option<u64>,
    pub system_industry_id: Option<i64>,
}

/// Account record of the second platform.
#[derive(Debug)]
pub struct TtAdvertiser {
    pub id: Option<u64>,
    pub company: Option<String>,
    pub name: Option<String>,
    pub first_industry_name: Option<String>,
    pub second_industry_name: Option<String>,
}

/// Fund balance record of the first platform, in its smallest currency unit.
#[derive(Debug)]
pub struct GdtBalance {
    pub fund_type: Option<String>,
    pub balance: Option<i64>,
    pub realtime_cost: Option<i64>,
    pub fund_status: Option<String>,
}

} // verus!
