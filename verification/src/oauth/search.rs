//! The search for descriptions of authorization.

use vstd::prelude::*;
use crate::address::is_uri;
use crate::checks::{either, unless};
use crate::header::{self, ascii_text, header_entries, Headers};
use crate::json::{self, parsed_json, Doc, Json};
use crate::oauth::{issuer, issuer_of};
use crate::{address, pattern, text};

verus! {

/// The largest description.
pub const METADATA_LIMIT: usize = 1048576;

/// A description that was found.
pub struct Document {
    pub url: String,
    pub value: Json,
    pub headers: Headers,
    pub status: u16,
}

/// An answer to a request for a description.
pub struct Fetched {
    pub status: u16,
    pub headers: Headers,
    pub body: Vec<u8>,
    pub too_large: bool,
}

/// Why a search for the description of a resource failed.
pub struct DiscoveryError {
    /// Whether there is none.
    pub optional: bool,
    /// Whether nothing answered in time.
    pub retry: bool,
    pub error: String,
}

/// The number of attempts at a request.
pub fn attempts(retry: bool) -> (result: u32)
    ensures
        result == (if retry {
            3u32
        } else {
            1u32
        }),
{
    if retry {
        3
    } else {
        1
    }
}

/// The seconds that an attempt may take; nothing where it may take any time.
pub fn patience(retry: bool, attempt: u32) -> (result: Option<u64>)
    requires
        attempt < 3,
    ensures
        result == (if !retry {
            None
        } else if attempt == 0 {
            Some(2u64)
        } else if attempt == 1 {
            Some(4u64)
        } else {
            Some(8u64)
        }),
{
    if !retry {
        None
    } else if attempt == 0 {
        Some(2)
    } else if attempt == 1 {
        Some(4)
    } else {
        Some(8)
    }
}

/// Whether a request is made again after it failed.
pub fn again(retry: bool, attempt: u32, timed_out: bool) -> (result: bool)
    ensures
        result == (retry && attempt < 2 && timed_out),
{
    retry && attempt < 2 && timed_out
}

/// How much of a part of an answer is kept after some of it: never more than one byte too many.
pub fn kept(size: usize, part: usize) -> (result: usize)
    ensures
        result <= part,
        result == part || size + result == METADATA_LIMIT + 1 || size > METADATA_LIMIT && result
            == 0,
        size <= METADATA_LIMIT + 1 ==> size + result <= METADATA_LIMIT + 1,
{
    let room: usize = if size <= METADATA_LIMIT {
        METADATA_LIMIT + 1 - size
    } else {
        0
    };
    if part < room {
        part
    } else {
        room
    }
}

/// Whether an answer is too large.
pub fn too_large(size: usize) -> (result: bool)
    ensures
        result == (size > METADATA_LIMIT),
{
    size > METADATA_LIMIT
}

/// The document of an answer.
pub open spec fn body_doc(body: Seq<u8>) -> Option<Doc> {
    match text::utf8_text(body) {
        Some(value) => parsed_json(value),
        None => None,
    }
}

fn read_body(body: &Vec<u8>) -> (result: Option<Json>)
    ensures
        match (result, body_doc(body@)) {
            (Some(value), Some(doc)) => value.doc() == doc,
            (None, None) => true,
            _ => false,
        },
{
    match text::from_utf8(body) {
        Some(value) => json::parse(&value),
        None => None,
    }
}

/// Whether an entry is a text that is not empty.
pub open spec fn has_entry(doc: Doc, key: Seq<char>) -> bool {
    match doc.at(key).text() {
        Some(value) => value.len() > 0,
        None => false,
    }
}

fn entry(value: &Json, key: &str) -> (result: bool)
    ensures
        result == has_entry(value.doc(), key@),
{
    match value.get_text(key) {
        Some(value) => !value.is_empty(),
        None => false,
    }
}

/// Whether the next URL is asked after an answer: this one tells of no description, and there is one.
pub open spec fn moves_on(status: u16, last: bool) -> bool {
    (status == 404 || 500 <= status <= 599) && !last
}

/// What is wrong with the document of a description of a resource.
pub open spec fn resource_doc_fault(doc: Option<Doc>) -> Option<Seq<char>> {
    match doc {
        None => Some("OAuth discovery invalid metadata"@),
        Some(doc) => either(
            unless(
                has_entry(doc, "resource"@),
                "protected resource metadata is missing resource"@,
            ),
            match issuer_of(doc) {
                Some(issuer) => unless(
                    is_uri(issuer),
                    "protected resource metadata has an invalid authorization server"@,
                ),
                None => None,
            },
        ),
    }
}

/// What is wrong with a description of a resource.
pub open spec fn resource_fault(url: Seq<char>, fetched: Fetched, last: bool) -> Option<Seq<char>> {
    let status = text::decimal_of(fetched.status as nat);
    either(
        unless(
            !fetched.too_large,
            "OAuth discovery response body from "@ + url + " exceeds 1048576 bytes"@,
        ),
        either(
            unless(
                fetched.body@.len() > 0,
                "OAuth discovery empty body from "@ + url + " (status "@ + status + ")"@,
            ),
            either(
                unless(
                    !moves_on(fetched.status, last),
                    "OAuth discovery status "@ + status + " from "@ + url,
                ),
                resource_doc_fault(body_doc(fetched.body@)),
            ),
        ),
    )
}

/// Whether a description is the one of an answer.
pub open spec fn is_document(document: Document, url: Seq<char>, fetched: Fetched) -> bool {
    &&& document.url@ == url
    &&& body_doc(fetched.body@) == Some(document.value.doc())
    &&& document.headers == fetched.headers
    &&& document.status == fetched.status
}

fn resource(url: &str, fetched: Fetched, last: bool) -> (result: Result<Document, String>)
    ensures
        match result {
            Ok(document) => resource_fault(url@, fetched, last) is None && is_document(
                document,
                url@,
                fetched,
            ),
            Err(reason) => resource_fault(url@, fetched, last) == Some(reason@),
        },
{
    let status = text::decimal(fetched.status as u64);
    if fetched.too_large {
        return Err(
            text::cat3("OAuth discovery response body from ", url, " exceeds 1048576 bytes"),
        );
    }
    if fetched.body.len() == 0 {
        return Err(
            text::cat5("OAuth discovery empty body from ", url, " (status ", &status, ")"),
        );
    }
    if (fetched.status == 404 || (500 <= fetched.status && fetched.status <= 599)) && !last {
        return Err(text::cat(&text::cat3("OAuth discovery status ", &status, " from "), url));
    }
    let value = match read_body(&fetched.body) {
        Some(value) => value,
        None => {
            return Err("OAuth discovery invalid metadata".to_owned());
        },
    };
    if !entry(&value, "resource") {
        return Err("protected resource metadata is missing resource".to_owned());
    }
    if let Some(issuer) = issuer(&value) {
        if !address::uri(&issuer) {
            return Err(
                "protected resource metadata has an invalid authorization server".to_owned(),
            );
        }
    }
    Ok(
        Document {
            url: url.to_owned(),
            value,
            headers: fetched.headers,
            status: fetched.status,
        },
    )
}

/// A search for the description of a resource.
pub struct Search {
    pub urls: Vec<String>,
    /// Whether the server named the first URL.
    pub advertised: bool,
    /// Whether this is the second round, in which requests are made with patience.
    pub retry: bool,
    /// The URL that is asked.
    pub at: usize,
    /// Whether all URLs so far told that there is nothing.
    pub missing: bool,
    /// Whether no URL so far answered in time.
    pub timeouts: bool,
    pub failure: String,
}

/// The contents of [`Search`].
#[verifier::ext_equal]
pub struct SearchView {
    pub urls: Seq<Seq<char>>,
    pub advertised: bool,
    pub retry: bool,
    pub at: int,
    pub missing: bool,
    pub timeouts: bool,
    pub failure: Seq<char>,
}

impl View for Search {
    type V = SearchView;

    open spec fn view(&self) -> SearchView {
        SearchView {
            urls: text::views(self.urls@),
            advertised: self.advertised,
            retry: self.retry,
            at: self.at as int,
            missing: self.missing,
            timeouts: self.timeouts,
            failure: self.failure@,
        }
    }
}

/// The note on a search without URLs.
pub const NOTHING: &'static str = "OAuth discovery has no metadata candidates";

impl SearchView {
    /// The start of a round.
    pub open spec fn round(urls: Seq<Seq<char>>, advertised: bool, retry: bool) -> SearchView {
        SearchView {
            urls,
            advertised,
            retry,
            at: 0,
            missing: urls.len() > 0 && !advertised,
            timeouts: urls.len() > 0,
            failure: NOTHING@,
        }
    }

    /// What follows at the end of a round: a second one, where nothing answered in time in the first.
    pub open spec fn closed(self) -> Option<SearchView> {
        if self.retry || !self.timeouts {
            None
        } else {
            Some(SearchView::round(self.urls, self.advertised, true))
        }
    }

    /// The search after a request that failed.
    pub open spec fn after_failure(self, timed_out: bool, error: Seq<char>) -> SearchView {
        SearchView {
            missing: false,
            timeouts: self.timeouts && timed_out,
            failure: "OAuth discovery GET "@ + self.urls[self.at] + ": "@ + error,
            at: self.at + 1,
            ..self
        }
    }

    /// The search after an answer that is no description.
    pub open spec fn after_answer(self, fetched: Fetched) -> SearchView {
        let last = self.at + 1 >= self.urls.len();
        SearchView {
            missing: self.missing && fetched.status == 404,
            timeouts: false,
            failure: match resource_fault(self.urls[self.at], fetched, last) {
                Some(reason) => reason,
                None => self.failure,
            },
            at: if moves_on(fetched.status, last) {
                self.at + 1
            } else {
                self.urls.len() as int
            },
            ..self
        }
    }

    /// How many more requests there can be at most.
    pub open spec fn left(self) -> int {
        self.urls.len() - self.at + if self.retry {
            0
        } else {
            self.urls.len() as int
        }
    }
}

/// What a step of a search comes to.
pub enum Progress {
    /// Another URL is asked.
    Ask(Search),
    Found(Document),
    Failed(DiscoveryError),
}

/// Whether a step comes to where a search stands.
pub open spec fn stands(progress: Progress, search: SearchView) -> bool {
    if search.at < search.urls.len() {
        progress matches Progress::Ask(next) && next@ == search
    } else {
        match search.closed() {
            Some(round) => progress matches Progress::Ask(next) && next@ == round,
            None => progress matches Progress::Failed(error) && error.optional == search.missing
                && error.retry == search.timeouts && error.error@ == search.failure,
        }
    }
}

impl Search {
    /// Whether there is a URL to be asked.
    pub open spec fn wf(self) -> bool {
        self.at < self.urls@.len()
    }

    fn settle(self) -> (result: Progress)
        requires
            self.at <= self.urls@.len(),
            self.timeouts ==> self.urls@.len() > 0,
        ensures
            stands(result, self@),
            result matches Progress::Ask(next) ==> next.wf(),
    {
        assert(text::views(self.urls@).len() == self.urls@.len());
        if self.at < self.urls.len() {
            return Progress::Ask(self);
        }
        if self.retry || !self.timeouts {
            return Progress::Failed(
                DiscoveryError {
                    optional: self.missing,
                    retry: self.timeouts,
                    error: self.failure,
                },
            );
        }
        let missing = !self.advertised;
        let next = Search {
            urls: self.urls,
            advertised: self.advertised,
            retry: true,
            at: 0,
            missing,
            timeouts: true,
            failure: NOTHING.to_owned(),
        };
        assert(next@ =~= self@.closed()->Some_0);
        Progress::Ask(next)
    }

    /// Starts a search.
    pub fn start(urls: Vec<String>, advertised: bool) -> (result: Progress)
        ensures
            stands(result, SearchView::round(text::views(urls@), advertised, false)),
            result matches Progress::Ask(next) ==> next.wf(),
    {
        assert(text::views(urls@).len() == urls@.len());
        let some = urls.len() > 0;
        let search = Search {
            urls,
            advertised,
            retry: false,
            at: 0,
            missing: some && !advertised,
            timeouts: some,
            failure: NOTHING.to_owned(),
        };
        assert(search@ =~= SearchView::round(text::views(urls@), advertised, false));
        search.settle()
    }

    /// The URL to be asked.
    pub fn url(&self) -> (result: &String)
        requires
            self.wf(),
        ensures
            result@ == self@.urls[self@.at],
    {
        &self.urls[self.at]
    }

    /// Goes on after a request that failed.
    pub fn failed(self, timed_out: bool, error: &str) -> (result: Progress)
        requires
            self.wf(),
        ensures
            stands(result, self@.after_failure(timed_out, error@)),
            result matches Progress::Ask(next) ==> next.wf(),
    {
        let failure = text::cat(
            &text::cat3("OAuth discovery GET ", &self.urls[self.at], ": "),
            error,
        );
        let count: usize = self.urls.len();
        assert(self.at < count);
        let next = Search {
            urls: self.urls,
            advertised: self.advertised,
            retry: self.retry,
            at: self.at + 1,
            missing: false,
            timeouts: self.timeouts && timed_out,
            failure,
        };
        assert(next@ =~= self@.after_failure(timed_out, error@));
        next.settle()
    }

    /// Goes on after an answer.
    pub fn answered(self, fetched: Fetched) -> (result: Progress)
        requires
            self.wf(),
        ensures
            ({
                let url = self@.urls[self@.at];
                let last = self@.at + 1 >= self@.urls.len();
                if resource_fault(url, fetched, last) is None {
                    result matches Progress::Found(document) && is_document(
                        document,
                        url,
                        fetched,
                    )
                } else {
                    stands(result, self@.after_answer(fetched))
                }
            }),
            result matches Progress::Ask(next) ==> next.wf(),
    {
        assert(text::views(self.urls@).len() == self.urls@.len());
        assert(self@.urls[self@.at] == self.urls@[self.at as int]@);
        let count: usize = self.urls.len();
        assert(self.at < count);
        let last = self.at + 1 >= count;
        let status = fetched.status;
        let at: usize = if (status == 404 || (500 <= status && status <= 599)) && !last {
            self.at + 1
        } else {
            self.urls.len()
        };
        match resource(&self.urls[self.at], fetched, last) {
            Ok(document) => Progress::Found(document),
            Err(failure) => {
                let next = Search {
                    urls: self.urls,
                    advertised: self.advertised,
                    retry: self.retry,
                    at,
                    missing: self.missing && status == 404,
                    timeouts: false,
                    failure,
                };
                assert(next@ =~= self@.after_answer(fetched));
                next.settle()
            },
        }
    }
}

/// Each step of a search leaves fewer requests, so that a search asks each URL twice at most.
pub proof fn lemma_search_ends(search: SearchView, next: SearchView)
    requires
        0 <= search.at < search.urls.len(),
        next.urls == search.urls,
        next.retry == search.retry && search.at < next.at < next.urls.len() || !search.retry
            && next.retry && next.at == 0,
    ensures
        0 <= next.left() < search.left(),
        search.left() <= 2 * search.urls.len(),
{
}

/// There is an authorization to be had unless all URLs tell that there is nothing.
pub proof fn lemma_missing(search: SearchView, fetched: Fetched)
    requires
        fetched.status != 404,
    ensures
        !search.after_answer(fetched).missing,
        !SearchView::round(search.urls, true, search.retry).missing,
{
}

/// The content type of an answer, or nothing.
pub open spec fn content_type_of(entries: Map<Seq<char>, Seq<Seq<u8>>>) -> Seq<char> {
    let values = header::values_in(entries, "content-type"@);
    if values.len() == 0 {
        Seq::empty()
    } else {
        match ascii_text(values[0]) {
            Some(value) => value,
            None => Seq::empty(),
        }
    }
}

fn content_type(headers: &Headers) -> (result: String)
    ensures
        result@ == content_type_of(header_entries(*headers)),
{
    proof {
        reveal_strlit("content-type");
    }
    assert(text::lowercase_of("content-type"@) =~= "content-type"@);
    let values = header::values(headers, "content-type");
    let empty = String::new();
    assert(empty@ =~= Seq::<char>::empty());
    if values.len() == 0 {
        return empty;
    }
    assert(header::byte_views(values@)[0] == values@[0]@);
    match header::ascii(&values[0]) {
        Some(value) => value,
        None => empty,
    }
}

/// What is wrong with a description of a server.
pub open spec fn server_fault(fetched: Fetched) -> Option<Seq<char>> {
    let kind = content_type_of(header_entries(fetched.headers));
    either(
        unless(
            fetched.status == 200,
            "OAuth authorization metadata returned HTTP "@ + text::decimal_of(
                fetched.status as nat,
            ),
        ),
        either(
            unless(
                !fetched.too_large,
                "OAuth authorization metadata exceeds 1048576 bytes"@,
            ),
            either(
                unless(
                    pattern::mime_essence(kind) == Some("application/json"@),
                    "OAuth authorization metadata has bad content type "@ + text::debug_text(kind),
                ),
                match body_doc(fetched.body@) {
                    None => Some("OAuth authorization metadata is not JSON"@),
                    Some(doc) => unless(
                        has_entry(doc, "issuer"@),
                        "OAuth authorization metadata has no issuer"@,
                    ),
                },
            ),
        ),
    )
}

fn server(url: &str, fetched: Fetched) -> (result: Result<Document, String>)
    ensures
        match result {
            Ok(document) => server_fault(fetched) is None && is_document(document, url@, fetched),
            Err(reason) => server_fault(fetched) == Some(reason@),
        },
{
    if fetched.status != 200 {
        return Err(
            text::cat(
                "OAuth authorization metadata returned HTTP ",
                &text::decimal(fetched.status as u64),
            ),
        );
    }
    if fetched.too_large {
        return Err("OAuth authorization metadata exceeds 1048576 bytes".to_owned());
    }
    let kind = content_type(&fetched.headers);
    let json = match pattern::essence(&kind) {
        Some(essence) => text::same(&essence, "application/json"),
        None => false,
    };
    if !json {
        return Err(
            text::cat("OAuth authorization metadata has bad content type ", &text::quoted(&kind)),
        );
    }
    let value = match read_body(&fetched.body) {
        Some(value) => value,
        None => {
            return Err("OAuth authorization metadata is not JSON".to_owned());
        },
    };
    if !entry(&value, "issuer") {
        return Err("OAuth authorization metadata has no issuer".to_owned());
    }
    Ok(
        Document {
            url: url.to_owned(),
            value,
            headers: fetched.headers,
            status: fetched.status,
        },
    )
}

/// A search for the description of a server.
pub struct ServerSearch {
    pub issuer: String,
    pub urls: Vec<String>,
    /// Whether this is the second round, in which requests are made with patience.
    pub retry: bool,
    /// The URL that is asked.
    pub at: usize,
    /// Whether no URL so far answered in time.
    pub timeouts: bool,
    /// The first description that names another issuer.
    pub fallback: Option<Document>,
    pub failure: Option<String>,
}

/// What a step of a search for the description of a server comes to.
pub enum ServerProgress {
    /// Another URL is asked.
    Ask(ServerSearch),
    Found(Document),
    Failed(String),
}

/// The note on a search that found nothing.
pub const NOT_FOUND: &'static str = "OAuth authorization metadata was not found";

impl ServerSearch {
    /// Whether there is a URL to be asked.
    pub open spec fn wf(self) -> bool {
        self.at < self.urls@.len()
    }

    /// Whether a search is at the start of a round.
    pub open spec fn is_round(self, issuer: Seq<char>, urls: Seq<Seq<char>>, retry: bool) -> bool {
        &&& self.issuer@ == issuer
        &&& text::views(self.urls@) == urls
        &&& self.retry == retry
        &&& self.at == 0
        &&& self.timeouts == (urls.len() > 0)
        &&& self.fallback is None
        &&& self.failure is None
    }

    /// Whether a step comes to where a search stands.
    pub open spec fn stands(self, progress: ServerProgress) -> bool {
        if self.at < self.urls@.len() {
            progress == ServerProgress::Ask(self)
        } else {
            match self.fallback {
                Some(document) => progress == ServerProgress::Found(document),
                None => if self.retry || !self.timeouts {
                    progress matches ServerProgress::Failed(reason) && reason@ == match self.failure {
                        Some(failure) => failure@,
                        None => NOT_FOUND@,
                    }
                } else {
                    progress matches ServerProgress::Ask(next) && next.is_round(
                        self.issuer@,
                        text::views(self.urls@),
                        true,
                    )
                },
            }
        }
    }

    fn settle(self) -> (result: ServerProgress)
        requires
            self.timeouts ==> self.urls@.len() > 0,
        ensures
            self.stands(result),
            result matches ServerProgress::Ask(next) ==> next.wf(),
    {
        if self.at < self.urls.len() {
            return ServerProgress::Ask(self);
        }
        assert(text::views(self.urls@).len() == self.urls@.len());
        match self.fallback {
            Some(document) => ServerProgress::Found(document),
            None => if self.retry || !self.timeouts {
                ServerProgress::Failed(
                    match self.failure {
                        Some(failure) => failure,
                        None => NOT_FOUND.to_owned(),
                    },
                )
            } else {
                ServerProgress::Ask(
                    ServerSearch {
                        issuer: self.issuer,
                        urls: self.urls,
                        retry: true,
                        at: 0,
                        timeouts: true,
                        fallback: None,
                        failure: None,
                    },
                )
            },
        }
    }

    /// Starts a search.
    pub fn start(issuer: &str, urls: Vec<String>) -> (result: ServerProgress)
        ensures
            exists|search: ServerSearch| #[trigger]
                search.is_round(issuer@, text::views(urls@), false) && search.stands(result),
            result matches ServerProgress::Ask(next) ==> next.wf(),
    {
        assert(text::views(urls@).len() == urls@.len());
        let timeouts = urls.len() > 0;
        let search = ServerSearch {
            issuer: issuer.to_owned(),
            urls,
            retry: false,
            at: 0,
            timeouts,
            fallback: None,
            failure: None,
        };
        assert(search.is_round(issuer@, text::views(urls@), false));
        search.settle()
    }

    /// The URL to be asked.
    pub fn url(&self) -> (result: &String)
        requires
            self.wf(),
        ensures
            *result == self.urls@[self.at as int],
    {
        &self.urls[self.at]
    }

    /// Whether a search is the one after a request that failed.
    pub open spec fn is_after_failure(self, before: ServerSearch, timed_out: bool, error: Seq<char>) -> bool {
        &&& text::view_of(self.failure) == Some(
            "OAuth authorization metadata GET "@ + before.urls@[before.at as int]@ + ": "@ + error,
        )
        &&& self == (ServerSearch {
            at: (before.at + 1) as usize,
            timeouts: before.timeouts && timed_out,
            failure: self.failure,
            ..before
        })
    }

    /// Goes on after a request that failed.
    pub fn failed(self, timed_out: bool, error: &str) -> (result: ServerProgress)
        requires
            self.wf(),
        ensures
            exists|next: ServerSearch| #[trigger]
                next.is_after_failure(self, timed_out, error@) && next.stands(result),
            result matches ServerProgress::Ask(next) ==> next.wf(),
    {
        let failure = text::cat(
            &text::cat3("OAuth authorization metadata GET ", &self.urls[self.at], ": "),
            error,
        );
        let count: usize = self.urls.len();
        assert(self.at < count);
        let next = ServerSearch {
            issuer: self.issuer,
            urls: self.urls,
            retry: self.retry,
            at: self.at + 1,
            timeouts: self.timeouts && timed_out,
            fallback: self.fallback,
            failure: Some(failure),
        };
        assert(next.is_after_failure(self, timed_out, error@));
        next.settle()
    }

    /// Whether a search is the one after an answer.
    pub open spec fn is_after_answer(self, before: ServerSearch, fetched: Fetched) -> bool {
        let url = before.urls@[before.at as int]@;
        &&& match server_fault(fetched) {
            Some(reason) => text::view_of(self.failure) == Some(reason) && self.fallback
                == before.fallback,
            None => self.failure == before.failure && match before.fallback {
                Some(_) => self.fallback == before.fallback,
                None => self.fallback matches Some(document) && is_document(document, url, fetched),
            },
        }
        &&& self == (ServerSearch {
            at: (before.at + 1) as usize,
            timeouts: false,
            failure: self.failure,
            fallback: self.fallback,
            ..before
        })
    }

    /// Goes on after an answer: the description that names the issuer is the one, or else the first.
    pub fn answered(self, fetched: Fetched) -> (result: ServerProgress)
        requires
            self.wf(),
        ensures
            ({
                let url = self.urls@[self.at as int]@;
                let named = match body_doc(fetched.body@) {
                    Some(doc) => doc.at("issuer"@) == Doc::Text(self.issuer@),
                    None => false,
                };
                if server_fault(fetched) is None && named {
                    result matches ServerProgress::Found(document) && is_document(
                        document,
                        url,
                        fetched,
                    )
                } else {
                    exists|next: ServerSearch| #[trigger]
                        next.is_after_answer(self, fetched) && next.stands(result)
                }
            }),
            result matches ServerProgress::Ask(next) ==> next.wf(),
    {
        let mut fallback = self.fallback;
        let mut failure = self.failure;
        match server(&self.urls[self.at], fetched) {
            Ok(document) => {
                let named = match document.value.get("issuer") {
                    Some(Json::Text(issuer)) => text::same(issuer, &self.issuer),
                    _ => false,
                };
                if named {
                    return ServerProgress::Found(document);
                }
                if fallback.is_none() {
                    fallback = Some(document);
                }
            },
            Err(reason) => {
                failure = Some(reason);
            },
        }
        let count: usize = self.urls.len();
        assert(self.at < count);
        let next = ServerSearch {
            issuer: self.issuer,
            urls: self.urls,
            retry: self.retry,
            at: self.at + 1,
            timeouts: false,
            fallback,
            failure,
        };
        assert(next.is_after_answer(self, fetched));
        next.settle()
    }
}

/// A description of a resource names it, is no larger than a megabyte, and names a proper server where it names one;
/// a 404 or 5xx gives none while there is another place to ask.
pub proof fn lemma_resource_described(url: Seq<char>, fetched: Fetched, last: bool)
    requires
        resource_fault(url, fetched, last) is None,
    ensures
        !fetched.too_large,
        fetched.body@.len() > 0,
        !last ==> fetched.status != 404 && !(500 <= fetched.status && fetched.status <= 599),
        body_doc(fetched.body@) is Some,
        body_doc(fetched.body@)->0.at("resource"@).text() matches Some(value) && value.len() > 0,
        issuer_of(body_doc(fetched.body@)->0) matches Some(issuer) ==> is_uri(issuer),
{
}

/// An answer that is fit as a description of a resource is taken as one.
pub proof fn lemma_resource_taken(url: Seq<char>, fetched: Fetched, last: bool)
    requires
        !fetched.too_large,
        fetched.body@.len() > 0,
        last || !(fetched.status == 404 || (500 <= fetched.status && fetched.status <= 599)),
        body_doc(fetched.body@) is Some,
        body_doc(fetched.body@)->0.at("resource"@).text() matches Some(value) && value.len() > 0,
        issuer_of(body_doc(fetched.body@)->0) matches Some(issuer) ==> is_uri(issuer),
    ensures
        resource_fault(url, fetched, last) is None,
{
}

/// A description of a server comes with 200, as JSON, no larger than a megabyte, and names its issuer; every such
/// answer is one.
pub proof fn lemma_server_described(fetched: Fetched)
    ensures
        server_fault(fetched) is None <==> fetched.status == 200 && !fetched.too_large
            && pattern::mime_essence(content_type_of(header_entries(fetched.headers))) == Some(
            "application/json"@,
        ) && body_doc(fetched.body@) is Some && (body_doc(fetched.body@)->0.at("issuer"@).text() matches Some(
            value,
        ) && value.len() > 0),
{
}

/// The next place is asked exactly after 404 and from 500 to 599, and where there is one; a search starts again only
/// where nothing answered in time in its first round.
pub proof fn lemma_search_moves(search: SearchView, fetched: Fetched, timed_out: bool, error: Seq<char>)
    requires
        0 <= search.at < search.urls.len(),
    ensures
        moves_on(fetched.status, true) == false,
        fetched.status == 404 || (500 <= fetched.status && fetched.status <= 599) <==> moves_on(
            fetched.status,
            false,
        ),
        search.at + 1 < search.urls.len() && fetched.status == 404 ==> search.after_answer(fetched).at
            == search.at + 1 && search.after_answer(fetched).missing == search.missing,
        search.after_failure(timed_out, error).at == search.at + 1,
        !search.after_failure(timed_out, error).missing,
        !timed_out ==> !search.after_failure(timed_out, error).timeouts,
        timed_out ==> search.after_failure(timed_out, error).timeouts == search.timeouts,
        !search.after_answer(fetched).timeouts,
        search.closed() is Some <==> !search.retry && search.timeouts,
        search.closed() matches Some(round) ==> round.retry && round.at == 0 && round.urls == search.urls,
        SearchView::round(search.urls, false, false).missing,
        !SearchView::round(search.urls, true, false).missing,
{
}

/// A search for a server that has asked everywhere gives the first description of another issuer, where there was one.
pub proof fn lemma_server_fallback(search: ServerSearch, progress: ServerProgress)
    requires
        search.stands(progress),
        search.at >= search.urls@.len(),
    ensures
        search.fallback matches Some(document) ==> progress == ServerProgress::Found(document),
        search.fallback is None && !search.timeouts ==> progress is Failed,
        search.fallback is None && search.retry ==> progress is Failed,
        search.fallback is None && !search.retry && search.timeouts ==> progress is Ask,
{
}

/// After an answer that is no description of a server the search keeps what it found before, and goes to the next
/// place.
pub proof fn lemma_server_goes_on(before: ServerSearch, next: ServerSearch, fetched: Fetched)
    requires
        next.is_after_answer(before, fetched),
        before.at < usize::MAX,
    ensures
        next.at == before.at + 1,
        !next.timeouts,
        server_fault(fetched) is Some ==> next.fallback == before.fallback,
        server_fault(fetched) is None && before.fallback is Some ==> next.fallback == before.fallback,
        server_fault(fetched) is None && before.fallback is None ==> next.fallback is Some,
        next.issuer == before.issuer && next.urls == before.urls && next.retry == before.retry,
{
}

} // verus!
