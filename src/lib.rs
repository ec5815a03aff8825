//! Dispatch-and-fetch engine for syncing advertising-platform data.
//!
//! The library holds the decisions of the sync service: how queue messages
//! are grouped and routed, how the token bucket admits requests, when an
//! attempt is retried, how a platform response is classified and how a
//! paginated report fans out. The surrounding program performs the I/O.

mod columns;
mod error;
mod grouping;
mod key;
mod limiter;
mod model;
mod pagination;
mod poller;
mod reply;
mod report;
mod retry;
mod router;
mod text;

pub use columns::{configured_status_bit, rta_has_content};
pub use error::Error;
pub use grouping::{group, lemma_grouping_partitions, TaskGroup};
pub use key::{format_group_key, lemma_group_key_round_trip, parse_u8, split_group_key};
pub use limiter::{lemma_never_over_admits, lemma_sliding_window, RateLimiter};
pub use model::{
    ApiData, ApiRes, CursorDetail, EmarTokenRt, GdtAdvertiser, GdtBalance, Pagination,
    TtAdvertiser, TtApiCustomRes, Verify,
};
pub use pagination::{after_first_page, fan_out, lemma_fan_out_pages, PageRequest};
pub use poller::{idle_pause, Drain, Popped, BATCH_SIZE, IDLE_SLEEP_MS, QUEUE_KEY};
pub use reply::{
    accept_list, accept_optional, accept_page, accept_rows, backoff_for, batch_of,
    require_token, Batch,
};
pub use report::{
    gdt_level, gdt_time_line, tt_order_by, GDT_LIST_PAGE_SIZE, GDT_REPORT_PAGE_SIZE, TT_DATA_TOPIC,
    TT_REPORT_PAGE_SIZE,
};
pub use retry::{
    lemma_retry_bound, RetryPolicy, RetryStep, DEFAULT_MAX_ATTEMPTS, DEFAULT_RETRY_DELAY_MS,
};
pub use router::{
    dispatch, gdt_category, lemma_unknown_keys_inert, operation, route_by_media, route_key,
    tt_category, Dispatch, GdtCategory, Operation, Platform, TtCategory, GDT_MEDIA_ID, TT_MEDIA_ID,
};
