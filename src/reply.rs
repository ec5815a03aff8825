use vstd::prelude::*;
use crate::error::Error;
use crate::model::{ApiData, ApiRes, Pagination, TtApiCustomRes};

verus! {

/// What a successful response asks of the destination store.
#[derive(Debug)]
pub enum Batch<T> {
    /// Upsert these records as one batch.
    Write(Vec<T>),
    /// Nothing came back; the attempt succeeds with no effect.
    Skip,
}

impl<T> Batch<T> {
    /// The records the batch writes; none when it is skipped.
    pub open spec fn records(&self) -> Seq<T> {
        match self {
            Batch::Write(v) => v@,
            Batch::Skip => Seq::empty(),
        }
    }

    pub open spec fn matches_items(&self, items: Seq<T>) -> bool {
        &&& self.records() == items
        &&& (self is Write <==> items.len() > 0)
    }
}

/// The records of a list payload; none when the payload or its list is
/// missing.
pub open spec fn listed<T>(data: Option<ApiData<T>>) -> Seq<T> {
    match data {
        Some(d) => match d.list {
            Some(l) => l@,
            None => Seq::empty(),
        },
        None => Seq::empty(),
    }
}

/// The records of a custom report payload; none when it or its rows are
/// missing.
pub open spec fn rows_of<T>(data: Option<TtApiCustomRes<T>>) -> Seq<T> {
    match data {
        Some(d) => match d.rows {
            Some(l) => l@,
            None => Seq::empty(),
        },
        None => Seq::empty(),
    }
}

/// The page count a report page gives; a page without page metadata is
/// taken as the only one, so nothing fans out.
pub open spec fn pages_of(info: Option<Pagination>) -> u64 {
    match info {
        Some(p) => p.total_page,
        None => 1,
    }
}

pub open spec fn list_pages<T>(data: Option<ApiData<T>>) -> u64 {
    match data {
        Some(d) => pages_of(d.page_info),
        None => 1,
    }
}

pub open spec fn rows_pages<T>(data: Option<TtApiCustomRes<T>>) -> u64 {
    match data {
        Some(d) => pages_of(d.page_info),
        None => 1,
    }
}

/// The text a platform gave with its code; empty when it gave none.
pub open spec fn message_of<T>(res: ApiRes<T>) -> Seq<char> {
    match res.message {
        Some(m) => m@,
        None => Seq::empty(),
    }
}

/// `e` is the error a rejected response becomes: the platform's code and
/// message.
pub open spec fn is_rejection<T>(e: Error, res: ApiRes<T>) -> bool {
    e matches Error::Api { code, message } && code == res.code && message@ == message_of(res)
}

fn reject<T>(res: ApiRes<T>) -> (e: Error)
    ensures
        is_rejection(e, res),
{
    let message = match res.message {
        Some(m) => m,
        None => String::new(),
    };
    Error::Api { code: res.code, message }
}

/// The batch for a list of records: written when it holds any, skipped
/// when empty.
pub fn batch_of<T>(items: Vec<T>) -> (b: Batch<T>)
    ensures
        b.matches_items(items@),
{
    if items.len() > 0 {
        Batch::Write(items)
    } else {
        assert(items@ =~= Seq::<T>::empty());
        Batch::Skip
    }
}

fn page_count(info: Option<Pagination>) -> (n: u64)
    ensures
        n == pages_of(info),
{
    match info {
        Some(p) => p.total_page,
        None => 1,
    }
}

/// Reads a list response. Code 0 is success: the list is the batch to
/// write, skipped when it is empty or missing. Any other code is the
/// platform's error, after which the caller runs the platform's backoff for
/// that code.
pub fn accept_list<T>(res: ApiRes<ApiData<T>>) -> (r: Result<Batch<T>, Error>)
    ensures
        res.code == 0 ==> r is Ok && r->Ok_0.matches_items(listed(res.data)),
        res.code != 0 ==> r is Err && is_rejection(r->Err_0, res),
{
    if res.code != 0 {
        return Err(reject(res));
    }
    let ApiRes { data, .. } = res;
    match data {
        Some(ApiData { list: Some(l), .. }) => Ok(batch_of(l)),
        _ => Ok(Batch::Skip),
    }
}

/// Reads one page of a report. Code 0 is success: the list is the batch to
/// write (skipped when empty or missing) and the page metadata gives the
/// total page count, one when it is missing. Any other code is the
/// platform's error.
pub fn accept_page<T>(res: ApiRes<ApiData<T>>) -> (r: Result<(Batch<T>, u64), Error>)
    ensures
        res.code == 0 ==> r is Ok && r->Ok_0.0.matches_items(listed(res.data)) && r->Ok_0.1
            == list_pages(res.data),
        res.code != 0 ==> r is Err && is_rejection(r->Err_0, res),
{
    if res.code != 0 {
        return Err(reject(res));
    }
    let ApiRes { data, .. } = res;
    match data {
        Some(ApiData { list, page_info, .. }) => {
            let n = page_count(page_info);
            match list {
                Some(l) => Ok((batch_of(l), n)),
                None => Ok((Batch::Skip, n)),
            }
        },
        None => Ok((Batch::Skip, 1)),
    }
}

/// Reads one page of a custom report, whose records are called rows; as
/// `accept_page` otherwise.
pub fn accept_rows<T>(res: ApiRes<TtApiCustomRes<T>>) -> (r: Result<(Batch<T>, u64), Error>)
    ensures
        res.code == 0 ==> r is Ok && r->Ok_0.0.matches_items(rows_of(res.data)) && r->Ok_0.1
            == rows_pages(res.data),
        res.code != 0 ==> r is Err && is_rejection(r->Err_0, res),
{
    if res.code != 0 {
        return Err(reject(res));
    }
    let ApiRes { data, .. } = res;
    match data {
        Some(TtApiCustomRes { rows, page_info }) => {
            let n = page_count(page_info);
            match rows {
                Some(l) => Ok((batch_of(l), n)),
                None => Ok((Batch::Skip, n)),
            }
        },
        None => Ok((Batch::Skip, 1)),
    }
}

/// Reads a response whose payload may be missing: with code 0, the payload
/// if any; any other response is the platform's error.
pub fn accept_optional<T>(res: ApiRes<T>) -> (r: Result<Option<T>, Error>)
    ensures
        res.code == 0 ==> r == Ok::<Option<T>, Error>(res.data),
        res.code != 0 ==> r is Err && is_rejection(r->Err_0, res),
{
    if res.code == 0 {
        let ApiRes { data, .. } = res;
        return Ok(data);
    }
    Err(reject(res))
}

/// The first step of an attempt: without a credential for the account the
/// attempt fails at once with `Error::Credential`, which is not retried.
pub fn require_token(token: Option<String>) -> (r: Result<String, Error>)
    ensures
        token matches Some(t) ==> r == Ok::<String, Error>(t),
        token is None ==> r == Err::<String, Error>(Error::Credential),
{
    match token {
        Some(t) => Ok(t),
        None => Err(Error::Credential),
    }
}

/// The code to run the platform's backoff with after an attempt: the
/// platform's own code when it rejected the request; none otherwise, so a
/// transport, decode or store failure is retried without it.
pub fn backoff_for<T>(r: &Result<T, Error>) -> (c: Option<i32>)
    ensures
        c == match r {
            Err(Error::Api { code, .. }) => Some(*code),
            _ => None::<i32>,
        },
{
    match r {
        Err(e) => e.api_code(),
        Ok(_) => None,
    }
}

} // verus!
