use adsync::{
    dispatch, gdt_category, gdt_level, gdt_time_line, group, operation, route_by_media, route_key,
    tt_category, tt_order_by, GdtCategory, Operation, Platform, TaskGroup, TtCategory, Verify,
};

fn task(cate: &str, media_id: u8) -> Verify {
    Verify {
        id: "t".into(),
        cate: cate.into(),
        media_id,
        account_id: 1,
        url: "u".into(),
        body: None,
    }
}

#[test]
fn platform_ids_two_and_four_are_known() {
    assert_eq!(route_by_media(2), Some(Platform::Gdt));
    assert_eq!(route_by_media(4), Some(Platform::Tt));
    assert_eq!(route_by_media(3), None);
    assert_eq!(route_by_media(0), None);
}

#[test]
fn category_names_select_operations() {
    assert_eq!(gdt_category("adgroup_v3"), Some(GdtCategory::Adgroup));
    assert_eq!(gdt_category("advertiser_daily_reporting_part_v3"), Some(GdtCategory::AdvertiserDailyReportingReport));
    assert_eq!(gdt_category("project"), None);
    assert_eq!(tt_category("rta_info"), Some(TtCategory::RtaInfo));
    assert_eq!(tt_category("balance"), Some(TtCategory::Balance));
    assert_eq!(tt_category("adgroup_v3"), None);
    assert_eq!(operation(2, "balance"), Some(Operation::Gdt(GdtCategory::Balance)));
    assert_eq!(operation(4, "balance"), Some(Operation::Tt(TtCategory::Balance)));
}

#[test]
fn limits_and_report_kinds() {
    assert_eq!(Operation::Gdt(GdtCategory::Target).per_second(), 5);
    assert_eq!(Operation::Gdt(GdtCategory::Adgroup).per_second(), 10);
    assert_eq!(Operation::Tt(TtCategory::Budget).per_second(), 5);
    assert_eq!(Operation::Tt(TtCategory::ProjectHourlyReport).per_second(), 10);
    assert!(Operation::Tt(TtCategory::PromotionHourlyReport).is_report());
    assert!(Operation::Gdt(GdtCategory::AdvertiserReportingReport).is_report());
    assert!(!Operation::Gdt(GdtCategory::Audience).is_report());
}

#[test]
fn keys_route_through_the_last_colon() {
    assert_eq!(route_key("4:project_hourly_report"), Some(Operation::Tt(TtCategory::ProjectHourlyReport)));
    assert_eq!(route_key("2:dynamic_creative_v3"), Some(Operation::Gdt(GdtCategory::DynamicCreative)));
    assert_eq!(route_key("7:project"), None);
    assert_eq!(route_key("4:nope"), None);
    assert_eq!(route_key("x:project"), None);
}

#[test]
fn known_group_dispatches_all_its_tasks() {
    let groups = group(vec![Some(task("target", 2)), Some(task("target", 2))]);
    let d = dispatch(groups.into_iter().next().unwrap()).unwrap();
    assert_eq!(d.operation, Operation::Gdt(GdtCategory::Target));
    assert_eq!(d.per_second, 5);
    assert_eq!(d.tasks.len(), 2);
}

#[test]
fn unknown_platform_or_category_is_inert() {
    let g = TaskGroup { key: "9:advertiser".into(), tasks: vec![task("advertiser", 9)] };
    assert!(dispatch(g).is_none());
    let g = TaskGroup { key: "2:unknown_kind".into(), tasks: vec![task("unknown_kind", 2)] };
    assert!(dispatch(g).is_none());
    let g = TaskGroup { key: "2:adgroup_v3:extra".into(), tasks: vec![task("adgroup_v3:extra", 2)] };
    assert!(dispatch(g).is_none());
}

#[test]
fn report_parameters() {
    assert_eq!(gdt_time_line(GdtCategory::AdgroupDailyRequestReport), Some("REQUEST_TIME"));
    assert_eq!(gdt_time_line(GdtCategory::AdvertiserReportingReport), Some("REPORTING_TIME"));
    assert_eq!(gdt_time_line(GdtCategory::Balance), None);
    assert_eq!(gdt_level(GdtCategory::DynamicCreativeDailyRequestReport), Some("REPORT_LEVEL_DYNAMIC_CREATIVE"));
    assert_eq!(gdt_level(GdtCategory::AdvertiserDailyReportingReport), Some("REPORT_LEVEL_ADVERTISER"));
    assert_eq!(tt_order_by(TtCategory::AdvertiserHourlyReport), Some(r#"[{"field":"stat_cost","type":"DESC"}]"#));
    assert_eq!(tt_order_by(TtCategory::Account), None);
}
