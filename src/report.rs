use vstd::prelude::*;
use crate::router::{GdtCategory, TtCategory};

verus! {

/// Rows asked for per report page of the first platform.
pub const GDT_REPORT_PAGE_SIZE: u64 = 500;

/// Records asked for per list page of the first platform.
pub const GDT_LIST_PAGE_SIZE: u64 = 100;

/// Rows asked for per report page of the second platform.
pub const TT_REPORT_PAGE_SIZE: u64 = 100;

/// Data topic of every report of the second platform.
pub const TT_DATA_TOPIC: &'static str = "BASIC_DATA";

/// Which clock a report of the first platform is cut by.
pub open spec fn gdt_time_line_spec(c: GdtCategory) -> Option<Seq<char>> {
    match c {
        GdtCategory::AdgroupDailyRequestReport => Some("REQUEST_TIME"@),
        GdtCategory::DynamicCreativeDailyRequestReport => Some("REQUEST_TIME"@),
        GdtCategory::AdvertiserReportingReport => Some("REPORTING_TIME"@),
        GdtCategory::AdvertiserDailyReportingReport => Some("REPORTING_TIME"@),
        _ => None,
    }
}

/// Which level a report of the first platform aggregates at.
pub open spec fn gdt_level_spec(c: GdtCategory) -> Option<Seq<char>> {
    match c {
        GdtCategory::AdgroupDailyRequestReport => Some("REPORT_LEVEL_ADGROUP"@),
        GdtCategory::DynamicCreativeDailyRequestReport => Some("REPORT_LEVEL_DYNAMIC_CREATIVE"@),
        GdtCategory::AdvertiserReportingReport => Some("REPORT_LEVEL_ADVERTISER"@),
        GdtCategory::AdvertiserDailyReportingReport => Some("REPORT_LEVEL_ADVERTISER"@),
        _ => None,
    }
}

/// How rows of a report of the second platform are ordered.
pub open spec fn tt_order_by_spec(c: TtCategory) -> Option<Seq<char>> {
    match c {
        TtCategory::AdvertiserHourlyReport => Some("[{\"field\":\"stat_cost\",\"type\":\"DESC\"}]"@),
        TtCategory::ProjectHourlyReport => Some(
            "[{\"field\":\"stat_cost\",\"type\":\"DESC\"},{\"field\":\"cdp_project_id\",\"type\":\"DESC\"}]"@,
        ),
        TtCategory::PromotionHourlyReport => Some(
            "[{\"field\":\"stat_cost\",\"type\":\"DESC\"},{\"field\":\"cdp_project_id\",\"type\":\"DESC\"},{\"field\":\"cdp_promotion_id\",\"type\":\"DESC\"}]"@,
        ),
        _ => None,
    }
}

fn some_text(s: &'static str) -> (r: Option<&'static str>)
    ensures
        r matches Some(t) && t@ == s@,
{
    Some(s)
}

/// The `time_line` parameter of a report of the first platform; `None`
/// for a category that is no report.
pub fn gdt_time_line(c: GdtCategory) -> (r: Option<&'static str>)
    ensures
        match (r, gdt_time_line_spec(c)) {
            (Some(t), Some(s)) => t@ == s,
            (None, None) => true,
            _ => false,
        },
{
    match c {
        GdtCategory::AdgroupDailyRequestReport => some_text("REQUEST_TIME"),
        GdtCategory::DynamicCreativeDailyRequestReport => some_text("REQUEST_TIME"),
        GdtCategory::AdvertiserReportingReport => some_text("REPORTING_TIME"),
        GdtCategory::AdvertiserDailyReportingReport => some_text("REPORTING_TIME"),
        _ => None,
    }
}

/// The `level` parameter of a report of the first platform; `None` for a
/// category that is no report.
pub fn gdt_level(c: GdtCategory) -> (r: Option<&'static str>)
    ensures
        match (r, gdt_level_spec(c)) {
            (Some(t), Some(s)) => t@ == s,
            (None, None) => true,
            _ => false,
        },
{
    match c {
        GdtCategory::AdgroupDailyRequestReport => some_text("REPORT_LEVEL_ADGROUP"),
        GdtCategory::DynamicCreativeDailyRequestReport => some_text(
            "REPORT_LEVEL_DYNAMIC_CREATIVE",
        ),
        GdtCategory::AdvertiserReportingReport => some_text("REPORT_LEVEL_ADVERTISER"),
        GdtCategory::AdvertiserDailyReportingReport => some_text("REPORT_LEVEL_ADVERTISER"),
        _ => None,
    }
}

/// The `order_by` parameter of a report of the second platform; `None`
/// for a category that is no report.
pub fn tt_order_by(c: TtCategory) -> (r: Option<&'static str>)
    ensures
        match (r, tt_order_by_spec(c)) {
            (Some(t), Some(s)) => t@ == s,
            (None, None) => true,
            _ => false,
        },
{
    match c {
        TtCategory::AdvertiserHourlyReport => some_text("[{\"field\":\"stat_cost\",\"type\":\"DESC\"}]"),
        TtCategory::ProjectHourlyReport => some_text(
            "[{\"field\":\"stat_cost\",\"type\":\"DESC\"},{\"field\":\"cdp_project_id\",\"type\":\"DESC\"}]",
        ),
        TtCategory::PromotionHourlyReport => some_text(
            "[{\"field\":\"stat_cost\",\"type\":\"DESC\"},{\"field\":\"cdp_project_id\",\"type\":\"DESC\"},{\"field\":\"cdp_promotion_id\",\"type\":\"DESC\"}]",
        ),
        _ => None,
    }
}

} // verus!
