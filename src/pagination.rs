use vstd::prelude::*;
use crate::error::Error;

verus! {

/// One fetch of one page of a report for one account.
#[derive(Debug)]
pub struct PageRequest {
    pub url: String,
    pub account_id: u64,
    pub token: String,
    pub page: u64,
}

impl PageRequest {
    /// `self` asks for page `page` of what `first` asks for, with the same
    /// token.
    pub open spec fn is_page_of(&self, first: &PageRequest, page: u64) -> bool {
        &&& self.url@ == first.url@
        &&& self.account_id == first.account_id
        &&& self.token@ == first.token@
        &&& self.page == page
    }

    /// The request for page 1.
    pub fn first(url: String, account_id: u64, token: String) -> (r: PageRequest)
        ensures
            r.url == url,
            r.account_id == account_id,
            r.token == token,
            r.page == 1,
    {
        PageRequest { url, account_id, token, page: 1 }
    }

    /// The same request for another page.
    pub fn for_page(&self, page: u64) -> (r: PageRequest)
        ensures
            r.is_page_of(self, page),
    {
        PageRequest {
            url: self.url.clone(),
            account_id: self.account_id,
            token: self.token.clone(),
            page,
        }
    }
}

/// The follow-up fetches once page 1 reported `total_page` pages: one for
/// each page `2..=total_page`, in order, each with page 1's token.
pub fn fan_out(first: &PageRequest, total_page: u64) -> (r: Vec<PageRequest>)
    ensures
        r.len() == if total_page > 1 {
            total_page - 1
        } else {
            0
        },
        forall|i: int| 0 <= i < r.len() ==> (#[trigger] r[i]).is_page_of(first, (i + 2) as u64),
{
    let mut r: Vec<PageRequest> = Vec::new();
    if total_page < 2 {
        return r;
    }
    let count = total_page - 1;
    let mut k: u64 = 0;
    while k < count
        invariant
            count == total_page - 1,
            k <= count,
            r.len() == k,
            forall|i: int| 0 <= i < r.len() ==> (#[trigger] r[i]).is_page_of(first, (i + 2) as u64),
        decreases count - k,
    {
        r.push(first.for_page(k + 2));
        k = k + 1;
    }
    r
}

/// The report task's outcome and the follow-up fetches, once page 1 is
/// done. Only page 1 decides the outcome; the follow-up pages run on their
/// own and their outcomes are not reported.
pub fn after_first_page(first: &PageRequest, page_one: Result<u64, Error>) -> (r: (
    Result<(), Error>,
    Vec<PageRequest>,
))
    ensures
        page_one matches Ok(n) ==> r.0 is Ok && r.1.len() == (if n > 1 {
            n - 1
        } else {
            0
        }) && forall|i: int| 0 <= i < r.1.len() ==> (#[trigger] r.1[i]).is_page_of(first, (i + 2) as u64),
        page_one is Err ==> r.0 is Err && r.0->Err_0 == page_one->Err_0 && r.1.len() == 0,
{
    match page_one {
        Ok(n) => (Ok(()), fan_out(first, n)),
        Err(e) => (Err(e), Vec::new()),
    }
}

/// Some request of `r` asks for page `p`.
pub open spec fn asks_for_page(r: Seq<PageRequest>, p: u64) -> bool {
    exists|i: int| 0 <= i < r.len() && (#[trigger] r[i]).page == p
}

/// Pagination fans out to exactly `total_page - 1` follow-up fetches, one
/// for each page in `2..=total_page`, no page twice, all with page 1's
/// token.
pub proof fn lemma_fan_out_pages(first: PageRequest, total_page: u64, r: Seq<PageRequest>)
    requires
        total_page > 1,
        r.len() == total_page - 1,
        forall|i: int| 0 <= i < r.len() ==> (#[trigger] r[i]).is_page_of(&first, (i + 2) as u64),
    ensures
        forall|p: u64| 2 <= p <= total_page ==> #[trigger] asks_for_page(r, p),
        forall|i: int, j: int| 0 <= i < j < r.len() ==> (#[trigger] r[i]).page != (#[trigger] r[j]).page,
        forall|i: int| 0 <= i < r.len() ==> 2 <= (#[trigger] r[i]).page <= total_page && r[i].token@
            == first.token@,
{
    assert forall|p: u64| 2 <= p <= total_page implies #[trigger] asks_for_page(r, p) by {
        assert(r[p - 2].is_page_of(&first, p));
    }
}

} // verus!
