use adsync::{after_first_page, fan_out, Error, PageRequest};

fn first() -> PageRequest {
    PageRequest::first("https://api.example.com/report".to_string(), 99, "tok-1".to_string())
}

#[test]
fn three_pages_fan_out_to_pages_two_and_three() {
    let p = first();
    let children = fan_out(&p, 3);
    let pages: Vec<u64> = children.iter().map(|c| c.page).collect();
    assert_eq!(pages, vec![2, 3]);
    for c in &children {
        assert_eq!(c.token, "tok-1");
        assert_eq!(c.url, p.url);
        assert_eq!(c.account_id, 99);
    }
}

#[test]
fn one_or_zero_pages_fan_out_to_nothing() {
    assert!(fan_out(&first(), 1).is_empty());
    assert!(fan_out(&first(), 0).is_empty());
}

#[test]
fn fan_out_covers_every_page_once() {
    let children = fan_out(&first(), 50);
    assert_eq!(children.len(), 49);
    let pages: Vec<u64> = children.iter().map(|c| c.page).collect();
    assert_eq!(pages, (2..=50).collect::<Vec<u64>>());
}

#[test]
fn only_page_one_decides_the_outcome() {
    let (r, children) = after_first_page(&first(), Ok(4));
    assert!(r.is_ok());
    assert_eq!(children.len(), 3);
    let (r, children) = after_first_page(&first(), Ok(1));
    assert!(r.is_ok());
    assert!(children.is_empty());
    let (r, children) =
        after_first_page(&first(), Err(Error::Api { code: 40002, message: "bad".into() }));
    assert!(matches!(r, Err(Error::Api { code: 40002, .. })));
    assert!(children.is_empty());
}

#[test]
fn first_request_is_page_one() {
    let p = first();
    assert_eq!(p.page, 1);
    assert_eq!(p.for_page(7).page, 7);
}
