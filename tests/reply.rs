use adsync::{
    accept_list, accept_optional, accept_page, accept_rows, backoff_for, require_token, ApiData,
    ApiRes, Batch, Error, GdtBalance, Pagination, TtApiCustomRes,
};

fn envelope<T>(code: i32, message: Option<&str>, data: Option<T>) -> ApiRes<T> {
    ApiRes {
        code,
        message: message.map(|m| m.to_string()),
        message_cn: None,
        data,
        request_id: Some("req-1".to_string()),
    }
}

fn balance(n: i64) -> GdtBalance {
    GdtBalance {
        fund_type: Some("GENERAL_CASH".into()),
        balance: Some(n),
        realtime_cost: Some(0),
        fund_status: None,
    }
}

fn list(items: Option<Vec<GdtBalance>>, total_page: Option<u64>) -> ApiData<GdtBalance> {
    ApiData {
        list: items,
        page_info: total_page.map(|t| Pagination { page: 1, page_size: 500, total_number: 9, total_page: t }),
        cursor_info: None,
    }
}

#[test]
fn accepted_list_is_written_as_one_batch() {
    match accept_list(envelope(0, None, Some(list(Some(vec![balance(5), balance(6)]), None)))) {
        Ok(Batch::Write(v)) => {
            assert_eq!(v.len(), 2);
            assert_eq!(v[1].balance, Some(6));
        }
        other => panic!("unexpected {other:?}"),
    }
}

#[test]
fn empty_list_is_success_without_a_write() {
    assert!(matches!(accept_list(envelope(0, None, Some(list(Some(vec![]), None)))), Ok(Batch::Skip)));
}

#[test]
fn non_zero_code_is_a_platform_error() {
    let r = accept_list(envelope(11017, Some("quota exceeded"), Some(list(Some(vec![balance(1)]), None))));
    match r {
        Err(Error::Api { code, message }) => {
            assert_eq!(code, 11017);
            assert_eq!(message, "quota exceeded");
        }
        other => panic!("unexpected {other:?}"),
    }
}

#[test]
fn code_zero_without_list_or_data_succeeds_with_nothing_to_write() {
    let r = accept_list(envelope::<ApiData<GdtBalance>>(0, None, Some(list(None, None))));
    assert!(backoff_for(&r).is_none());
    assert!(matches!(r, Ok(Batch::Skip)));
    let r = accept_list(envelope::<ApiData<GdtBalance>>(0, None, None));
    assert!(backoff_for(&r).is_none());
    assert!(matches!(r, Ok(Batch::Skip)));
}

#[test]
fn rejection_without_message_gives_empty_text() {
    match accept_list(envelope::<ApiData<GdtBalance>>(40001, None, None)) {
        Err(Error::Api { code, message }) => {
            assert_eq!(code, 40001);
            assert_eq!(message, "");
        }
        other => panic!("unexpected {other:?}"),
    }
}

#[test]
fn report_page_gives_batch_and_page_count() {
    match accept_page(envelope(0, None, Some(list(Some(vec![balance(1)]), Some(3))))) {
        Ok((Batch::Write(v), 3)) => assert_eq!(v.len(), 1),
        other => panic!("unexpected {other:?}"),
    }
    // Without page metadata the page is the only one.
    match accept_page(envelope(0, None, Some(list(Some(vec![balance(1)]), None)))) {
        Ok((Batch::Write(v), 1)) => assert_eq!(v.len(), 1),
        other => panic!("unexpected {other:?}"),
    }
    assert!(matches!(accept_page(envelope::<ApiData<GdtBalance>>(0, None, None)), Ok((Batch::Skip, 1))));
    assert!(matches!(
        accept_page(envelope(0, None, Some(list(Some(vec![]), Some(1))))),
        Ok((Batch::Skip, 1))
    ));
}

#[test]
fn custom_report_rows_are_read_like_a_page() {
    let data = TtApiCustomRes {
        rows: Some(vec![1u32, 2, 3]),
        page_info: Some(Pagination { page: 1, page_size: 100, total_number: 250, total_page: 3 }),
    };
    match accept_rows(envelope(0, None, Some(data))) {
        Ok((Batch::Write(v), 3)) => assert_eq!(v, vec![1, 2, 3]),
        other => panic!("unexpected {other:?}"),
    }
    assert!(matches!(accept_rows(envelope::<TtApiCustomRes<u32>>(0, None, None)), Ok((Batch::Skip, 1))));
    let no_rows = TtApiCustomRes::<u32> { rows: None, page_info: None };
    assert!(matches!(accept_rows(envelope(0, None, Some(no_rows))), Ok((Batch::Skip, 1))));
    let r = accept_rows(envelope::<TtApiCustomRes<u32>>(40100, Some("token expired"), None));
    assert!(matches!(r, Err(Error::Api { code: 40100, .. })));
}

#[test]
fn optional_payloads() {
    assert_eq!(accept_optional(envelope::<u8>(0, None, None)).unwrap(), None);
    assert_eq!(accept_optional(envelope(0, None, Some(4u8))).unwrap(), Some(4));
    assert!(matches!(accept_optional(envelope(5, None, Some(4u8))), Err(Error::Api { code: 5, .. })));
}

#[test]
fn no_token_fails_with_credential_error() {
    assert!(matches!(require_token(None), Err(Error::Credential)));
    assert_eq!(require_token(Some("abc".into())).unwrap(), "abc");
}

#[test]
fn configured_status_bit_marks_normal_status() {
    assert_eq!(adsync::configured_status_bit(Some("AD_STATUS_NORMAL")), 1);
    assert_eq!(adsync::configured_status_bit(Some("AD_STATUS_SUSPEND")), 0);
    assert_eq!(adsync::configured_status_bit(None), 0);
}

#[test]
fn backoff_runs_only_for_platform_codes() {
    let rejected: Result<(), Error> = Err(Error::Api { code: 40100, message: "expired".into() });
    assert_eq!(adsync::backoff_for(&rejected), Some(40100));
    let transport: Result<(), Error> = Err(Error::Http("reset".into()));
    assert_eq!(adsync::backoff_for(&transport), None);
    assert_eq!(adsync::backoff_for(&Ok::<u8, Error>(1)), None);
}

#[test]
fn batch_of_skips_empty_lists() {
    assert!(matches!(adsync::batch_of(Vec::<u8>::new()), Batch::Skip));
    assert!(matches!(adsync::batch_of(vec![1u8]), Batch::Write(v) if v == vec![1]));
}

#[test]
fn rta_answer_is_written_only_with_content() {
    assert!(adsync::rta_has_content(true, false, false, false));
    assert!(adsync::rta_has_content(false, false, true, false));
    assert!(!adsync::rta_has_content(true, true, true, true));
    assert!(!adsync::rta_has_content(false, false, false, false));
}
