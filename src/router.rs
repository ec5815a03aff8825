use vstd::prelude::*;
use crate::grouping::TaskGroup;
use crate::key::{
    group_key_spec, lemma_colon_in_category_never_routes, lemma_group_key_round_trip, split_group_key,
    split_group_key_spec,
};
use crate::model::Verify;
use crate::text::same_text;

verus! {

/// Platform id of the first platform.
pub const GDT_MEDIA_ID: u8 = 2;

/// Platform id of the second platform.
pub const TT_MEDIA_ID: u8 = 4;

/// The ad platforms a task can target.
#[derive(Clone, Copy, Debug, PartialEq, Eq, Structural)]
pub enum Platform {
    Gdt,
    Tt,
}

pub open spec fn platform_spec(media_id: u8) -> Option<Platform> {
    if media_id == GDT_MEDIA_ID {
        Some(Platform::Gdt)
    } else if media_id == TT_MEDIA_ID {
        Some(Platform::Tt)
    } else {
        None
    }
}

/// The platform a platform id names, if it is one this service syncs.
pub fn route_by_media(media_id: u8) -> (r: Option<Platform>)
    ensures
        r == platform_spec(media_id),
{
    if media_id == GDT_MEDIA_ID {
        Some(Platform::Gdt)
    } else if media_id == TT_MEDIA_ID {
        Some(Platform::Tt)
    } else {
        None
    }
}

/// The kinds of data synced from the first platform.
#[derive(Clone, Copy, Debug, PartialEq, Eq, Structural)]
pub enum GdtCategory {
    Adgroup,
    DynamicCreative,
    AdgroupDailyRequestReport,
    AdvertiserReportingReport,
    DynamicCreativeDailyRequestReport,
    AdvertiserDailyReportingReport,
    Advertiser,
    Target,
    Audience,
    Balance,
}

/// The kinds of data synced from the second platform.
#[derive(Clone, Copy, Debug, PartialEq, Eq, Structural)]
pub enum TtCategory {
    Project,
    Promotion,
    Balance,
    Budget,
    RtaInfo,
    Account,
    AdvertiserHourlyReport,
    ProjectHourlyReport,
    PromotionHourlyReport,
}

pub open spec fn gdt_category_spec(c: Seq<char>) -> Option<GdtCategory> {
    if c == "adgroup_v3"@ {
        Some(GdtCategory::Adgroup)
    } else if c == "dynamic_creative_v3"@ {
        Some(GdtCategory::DynamicCreative)
    } else if c == "adgroup_daily_request_part_v3"@ {
        Some(GdtCategory::AdgroupDailyRequestReport)
    } else if c == "advertiser_reporting_part_v3"@ {
        Some(GdtCategory::AdvertiserReportingReport)
    } else if c == "dynamic_creative_daily_request_part_v3"@ {
        Some(GdtCategory::DynamicCreativeDailyRequestReport)
    } else if c == "advertiser_daily_reporting_part_v3"@ {
        Some(GdtCategory::AdvertiserDailyReportingReport)
    } else if c == "advertiser"@ {
        Some(GdtCategory::Advertiser)
    } else if c == "target"@ {
        Some(GdtCategory::Target)
    } else if c == "audience"@ {
        Some(GdtCategory::Audience)
    } else if c == "balance"@ {
        Some(GdtCategory::Balance)
    } else {
        None
    }
}

pub open spec fn tt_category_spec(c: Seq<char>) -> Option<TtCategory> {
    if c == "project"@ {
        Some(TtCategory::Project)
    } else if c == "promotion"@ {
        Some(TtCategory::Promotion)
    } else if c == "balance"@ {
        Some(TtCategory::Balance)
    } else if c == "budget"@ {
        Some(TtCategory::Budget)
    } else if c == "rta_info"@ {
        Some(TtCategory::RtaInfo)
    } else if c == "account"@ {
        Some(TtCategory::Account)
    } else if c == "advertiser_hourly_report"@ {
        Some(TtCategory::AdvertiserHourlyReport)
    } else if c == "project_hourly_report"@ {
        Some(TtCategory::ProjectHourlyReport)
    } else if c == "promotion_hourly_report"@ {
        Some(TtCategory::PromotionHourlyReport)
    } else {
        None
    }
}

/// The category of the first platform that a category name names.
pub fn gdt_category(cate: &str) -> (r: Option<GdtCategory>)
    ensures
        r == gdt_category_spec(cate@),
{
    if same_text(cate, "adgroup_v3") {
        Some(GdtCategory::Adgroup)
    } else if same_text(cate, "dynamic_creative_v3") {
        Some(GdtCategory::DynamicCreative)
    } else if same_text(cate, "adgroup_daily_request_part_v3") {
        Some(GdtCategory::AdgroupDailyRequestReport)
    } else if same_text(cate, "advertiser_reporting_part_v3") {
        Some(GdtCategory::AdvertiserReportingReport)
    } else if same_text(cate, "dynamic_creative_daily_request_part_v3") {
        Some(GdtCategory::DynamicCreativeDailyRequestReport)
    } else if same_text(cate, "advertiser_daily_reporting_part_v3") {
        Some(GdtCategory::AdvertiserDailyReportingReport)
    } else if same_text(cate, "advertiser") {
        Some(GdtCategory::Advertiser)
    } else if same_text(cate, "target") {
        Some(GdtCategory::Target)
    } else if same_text(cate, "audience") {
        Some(GdtCategory::Audience)
    } else if same_text(cate, "balance") {
        Some(GdtCategory::Balance)
    } else {
        None
    }
}

/// The category of the second platform that a category name names.
pub fn tt_category(cate: &str) -> (r: Option<TtCategory>)
    ensures
        r == tt_category_spec(cate@),
{
    if same_text(cate, "project") {
        Some(TtCategory::Project)
    } else if same_text(cate, "promotion") {
        Some(TtCategory::Promotion)
    } else if same_text(cate, "balance") {
        Some(TtCategory::Balance)
    } else if same_text(cate, "budget") {
        Some(TtCategory::Budget)
    } else if same_text(cate, "rta_info") {
        Some(TtCategory::RtaInfo)
    } else if same_text(cate, "account") {
        Some(TtCategory::Account)
    } else if same_text(cate, "advertiser_hourly_report") {
        Some(TtCategory::AdvertiserHourlyReport)
    } else if same_text(cate, "project_hourly_report") {
        Some(TtCategory::ProjectHourlyReport)
    } else if same_text(cate, "promotion_hourly_report") {
        Some(TtCategory::PromotionHourlyReport)
    } else {
        None
    }
}

/// One sync operation: a category of one platform.
#[derive(Clone, Copy, Debug, PartialEq, Eq, Structural)]
pub enum Operation {
    Gdt(GdtCategory),
    Tt(TtCategory),
}

impl Operation {
    /// Requests per second, and burst size, of the operation's limiter:
    /// bulkier calls get the smaller allowance.
    pub open spec fn per_second_spec(self) -> u32 {
        match self {
            Operation::Gdt(c) => match c {
                GdtCategory::Target | GdtCategory::Audience | GdtCategory::Balance => 5,
                _ => 10,
            },
            Operation::Tt(c) => match c {
                TtCategory::Balance | TtCategory::Budget | TtCategory::RtaInfo => 5,
                _ => 10,
            },
        }
    }

    /// Whether the operation is a paginated report that fans out.
    pub open spec fn is_report_spec(self) -> bool {
        match self {
            Operation::Gdt(c) => match c {
                GdtCategory::AdgroupDailyRequestReport | GdtCategory::AdvertiserReportingReport
                | GdtCategory::DynamicCreativeDailyRequestReport
                | GdtCategory::AdvertiserDailyReportingReport => true,
                _ => false,
            },
            Operation::Tt(c) => match c {
                TtCategory::AdvertiserHourlyReport | TtCategory::ProjectHourlyReport
                | TtCategory::PromotionHourlyReport => true,
                _ => false,
            },
        }
    }

    pub fn per_second(&self) -> (r: u32)
        ensures
            r == self.per_second_spec(),
            r > 0,
    {
        match self {
            Operation::Gdt(c) => match c {
                GdtCategory::Target | GdtCategory::Audience | GdtCategory::Balance => 5,
                _ => 10,
            },
            Operation::Tt(c) => match c {
                TtCategory::Balance | TtCategory::Budget | TtCategory::RtaInfo => 5,
                _ => 10,
            },
        }
    }

    pub fn is_report(&self) -> (r: bool)
        ensures
            r == self.is_report_spec(),
    {
        match self {
            Operation::Gdt(c) => match c {
                GdtCategory::AdgroupDailyRequestReport | GdtCategory::AdvertiserReportingReport
                | GdtCategory::DynamicCreativeDailyRequestReport
                | GdtCategory::AdvertiserDailyReportingReport => true,
                _ => false,
            },
            Operation::Tt(c) => match c {
                TtCategory::AdvertiserHourlyReport | TtCategory::ProjectHourlyReport
                | TtCategory::PromotionHourlyReport => true,
                _ => false,
            },
        }
    }
}

/// The operation a platform id and category name select.
pub open spec fn operation_spec(media_id: u8, cate: Seq<char>) -> Option<Operation> {
    match platform_spec(media_id) {
        Some(Platform::Gdt) => match gdt_category_spec(cate) {
            Some(c) => Some(Operation::Gdt(c)),
            None => None,
        },
        Some(Platform::Tt) => match tt_category_spec(cate) {
            Some(c) => Some(Operation::Tt(c)),
            None => None,
        },
        None => None,
    }
}

/// The operation a dispatch key selects: the key splits at its last colon
/// into a platform id and a category name, both of which must be known.
pub open spec fn route_spec(key: Seq<char>) -> Option<Operation> {
    match split_group_key_spec(key) {
        Some((m, c)) => operation_spec(m, c),
        None => None,
    }
}

/// The operation that a platform id and a category name select.
pub fn operation(media_id: u8, cate: &str) -> (r: Option<Operation>)
    ensures
        r == operation_spec(media_id, cate@),
{
    match route_by_media(media_id) {
        Some(Platform::Gdt) => match gdt_category(cate) {
            Some(c) => Some(Operation::Gdt(c)),
            None => None,
        },
        Some(Platform::Tt) => match tt_category(cate) {
            Some(c) => Some(Operation::Tt(c)),
            None => None,
        },
        None => None,
    }
}

/// The operation that a dispatch key selects.
pub fn route_key(key: &str) -> (r: Option<Operation>)
    ensures
        r == route_spec(key@),
{
    match split_group_key(key) {
        Some((m, c)) => operation(m, c.as_str()),
        None => None,
    }
}

/// A group of tasks ready to run: the operation to run each with, and the
/// admission rate of the one limiter they share.
#[derive(Debug)]
pub struct Dispatch {
    pub operation: Operation,
    pub per_second: u32,
    pub tasks: Vec<Verify>,
}

/// Number of fetches a dispatch decision starts: one per task.
pub open spec fn fetches_started(d: Option<Dispatch>) -> nat {
    match d {
        Some(d) => d.tasks@.len(),
        None => 0,
    }
}

/// Decides how a group runs. A group whose key names no known platform or
/// no known category of it is skipped: nothing is fetched or written for it.
pub fn dispatch(group: TaskGroup) -> (r: Option<Dispatch>)
    ensures
        route_spec(group.key@) is None ==> r is None && fetches_started(r) == 0,
        route_spec(group.key@) matches Some(op) ==> r is Some && r->0.operation == op
            && r->0.per_second == op.per_second_spec() && r->0.tasks@ == group.tasks@,
{
    let TaskGroup { key, tasks } = group;
    match route_key(key.as_str()) {
        Some(operation) => {
            let per_second = operation.per_second();
            Some(Dispatch { operation, per_second, tasks })
        },
        None => None,
    }
}

/// Unknown routing keys are inert: tasks of a platform id or a category
/// name that selects no operation start no fetch, whatever the tasks are.
/// A category holding a colon never routes: the key then splits at a colon
/// inside the category, and what stands before it is no platform id.
pub proof fn lemma_unknown_keys_inert(media_id: u8, cate: Seq<char>)
    requires
        operation_spec(media_id, cate) is None,
    ensures
        route_spec(group_key_spec(media_id, cate)) is None,
{
    if forall|j: int| 0 <= j < cate.len() ==> cate[j] != ':' {
        lemma_group_key_round_trip(media_id, cate);
    } else {
        lemma_colon_in_category_never_routes(media_id, cate);
    }
}

} // verus!
