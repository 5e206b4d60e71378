//! The service that administers tunnels.

use vstd::prelude::*;
use crate::address::{self, url_extended, url_with_pairs};
use crate::config::values::{endpoint, endpoint_of};
use crate::control::client::{is_header_text, put_text, with_header, VERSION};
use crate::harpoon::headers::USER_AGENT;
use crate::header::{self, header_entries};
use crate::json::{self, json_text, parsed_json, Doc, Json};
use crate::management::records::{
    nullable_entry, read_nullable, read_text, text_entry,
};
use crate::net::error::{info_of, lossy, lossy_text, ErrorInfo};
use crate::text;

verus! {

/// What the service tells of a tunnel.
pub struct Tunnel {
    pub id: String,
    pub name: String,
    pub description: String,
    pub creator: String,
    pub tenant_ids: Vec<String>,
    pub workspace_ids: Vec<String>,
    pub organization_ids: Vec<String>,
    pub request_id: String,
}

/// The contents of [`Tunnel`].
#[verifier::ext_equal]
pub struct TunnelView {
    pub id: Seq<char>,
    pub name: Seq<char>,
    pub description: Seq<char>,
    pub creator: Seq<char>,
    pub tenant_ids: Seq<Seq<char>>,
    pub workspace_ids: Seq<Seq<char>>,
    pub organization_ids: Seq<Seq<char>>,
    pub request_id: Seq<char>,
}

impl View for Tunnel {
    type V = TunnelView;

    open spec fn view(&self) -> TunnelView {
        TunnelView {
            id: self.id@,
            name: self.name@,
            description: self.description@,
            creator: self.creator@,
            tenant_ids: text::views(self.tenant_ids@),
            workspace_ids: text::views(self.workspace_ids@),
            organization_ids: text::views(self.organization_ids@),
            request_id: self.request_id@,
        }
    }
}

impl TunnelView {
    /// The record without any contents.
    pub open spec fn bare() -> TunnelView {
        TunnelView {
            id: Seq::empty(),
            name: Seq::empty(),
            description: Seq::empty(),
            creator: Seq::empty(),
            tenant_ids: Seq::empty(),
            workspace_ids: Seq::empty(),
            organization_ids: Seq::empty(),
            request_id: Seq::empty(),
        }
    }

    /// What a document tells of a record, where each of its entries is of its kind. What is not there
    /// is empty.
    pub open spec fn read_of(doc: Doc) -> Option<TunnelView> {
        if doc is Object

            && text_entry(doc, "id"@) is Some
            && text_entry(doc, "name"@) is Some
            && text_entry(doc, "description"@) is Some
            && text_entry(doc, "creator"@) is Some
            && nullable_entry(doc, "tenant_ids"@) is Some
            && nullable_entry(doc, "workspace_ids"@) is Some
            && nullable_entry(doc, "organization_ids"@) is Some
            && text_entry(doc, "request_id"@) is Some
        {
            Some(TunnelView {
                id: text_entry(doc, "id"@)->0,
                name: text_entry(doc, "name"@)->0,
                description: text_entry(doc, "description"@)->0,
                creator: text_entry(doc, "creator"@)->0,
                tenant_ids: nullable_entry(doc, "tenant_ids"@)->0,
                workspace_ids: nullable_entry(doc, "workspace_ids"@)->0,
                organization_ids: nullable_entry(doc, "organization_ids"@)->0,
                request_id: text_entry(doc, "request_id"@)->0,
            })
        } else {
            None
        }
    }
}

impl Default for Tunnel {
    fn default() -> (result: Tunnel)
        ensures
            result@ == TunnelView::bare(),
    {
        let result = Tunnel {
            id: String::new(),
            name: String::new(),
            description: String::new(),
            creator: String::new(),
            tenant_ids: Vec::new(),
            workspace_ids: Vec::new(),
            organization_ids: Vec::new(),
            request_id: String::new(),
        };
        assert(result.id@ =~= Seq::<char>::empty());
        assert(result.name@ =~= Seq::<char>::empty());
        assert(result.description@ =~= Seq::<char>::empty());
        assert(result.creator@ =~= Seq::<char>::empty());
        assert(text::views(result.tenant_ids@) =~= Seq::<Seq<char>>::empty());
        assert(text::views(result.workspace_ids@) =~= Seq::<Seq<char>>::empty());
        assert(text::views(result.organization_ids@) =~= Seq::<Seq<char>>::empty());
        assert(result.request_id@ =~= Seq::<char>::empty());
        result
    }
}

impl Tunnel {
    /// A copy of the record.
    pub fn copy(&self) -> (result: Tunnel)
        ensures
            result@ == self@,
    {
        Tunnel {
            id: self.id.clone(),
            name: self.name.clone(),
            description: self.description.clone(),
            creator: self.creator.clone(),
            tenant_ids: text::copies(&self.tenant_ids),
            workspace_ids: text::copies(&self.workspace_ids),
            organization_ids: text::copies(&self.organization_ids),
            request_id: self.request_id.clone(),
        }
    }

    /// What a document tells of a record.
    pub fn read(value: &Json) -> (result: Option<Tunnel>)
        ensures
            match result {
                Some(record) => TunnelView::read_of(value.doc()) == Some(record@),
                None => TunnelView::read_of(value.doc()) is None,
            },
    {
        if !value.is_object() {
            return None;
        }
        let id = match read_text(value, "id") {
            Some(inner) => inner,
            None => {
                return None;
            },
        };
        let name = match read_text(value, "name") {
            Some(inner) => inner,
            None => {
                return None;
            },
        };
        let description = match read_text(value, "description") {
            Some(inner) => inner,
            None => {
                return None;
            },
        };
        let creator = match read_text(value, "creator") {
            Some(inner) => inner,
            None => {
                return None;
            },
        };
        let tenant_ids = match read_nullable(value, "tenant_ids") {
            Some(inner) => inner,
            None => {
                return None;
            },
        };
        let workspace_ids = match read_nullable(value, "workspace_ids") {
            Some(inner) => inner,
            None => {
                return None;
            },
        };
        let organization_ids = match read_nullable(value, "organization_ids") {
            Some(inner) => inner,
            None => {
                return None;
            },
        };
        let request_id = match read_text(value, "request_id") {
            Some(inner) => inner,
            None => {
                return None;
            },
        };
        Some(Tunnel { id, name, description, creator, tenant_ids, workspace_ids, organization_ids, request_id })
    }
}


impl Tunnel {
    /// What is told of a tunnel, without what is empty.
    pub open spec fn document_of(view: TunnelView) -> Doc {
        Doc::object().with("id"@, Doc::Text(view.id)).with("name"@, Doc::Text(view.name)).with(
            "description"@,
            Doc::Text(view.description),
        ).with_if(view.creator.len() > 0, "creator"@, Doc::Text(view.creator)).with_if(
            view.tenant_ids.len() > 0,
            "tenant_ids"@,
            json::texts(view.tenant_ids),
        ).with_if(view.workspace_ids.len() > 0, "workspace_ids"@, json::texts(view.workspace_ids)).with_if(
            view.organization_ids.len() > 0,
            "organization_ids"@,
            json::texts(view.organization_ids),
        ).with_if(view.request_id.len() > 0, "request_id"@, Doc::Text(view.request_id))
    }

    /// What is told of a tunnel, without what is empty.
    pub fn document(&self) -> (result: Json)
        ensures
            result.doc() == Self::document_of(self@),
    {
        proof {
            assert(self@.tenant_ids.len() == self.tenant_ids@.len());
            assert(self@.workspace_ids.len() == self.workspace_ids@.len());
            assert(self@.organization_ids.len() == self.organization_ids@.len());
        }
        Json::object().with("id", Json::text(&self.id)).with("name", Json::text(&self.name)).with(
            "description",
            Json::text(&self.description),
        ).with_if(!self.creator.is_empty(), "creator", Json::text(&self.creator)).with_if(
            self.tenant_ids.len() > 0,
            "tenant_ids",
            Json::texts(&self.tenant_ids),
        ).with_if(self.workspace_ids.len() > 0, "workspace_ids", Json::texts(&self.workspace_ids)).with_if(
            self.organization_ids.len() > 0,
            "organization_ids",
            Json::texts(&self.organization_ids),
        ).with_if(!self.request_id.is_empty(), "request_id", Json::text(&self.request_id))
    }
}

/// What the service tells of tunnels.
pub struct TunnelList {
    pub tunnels: Option<Vec<Tunnel>>,
    pub request_id: String,
}

/// The contents of a list of tunnels.
pub open spec fn tunnel_views(items: Seq<Tunnel>) -> Seq<TunnelView> {
    items.map_values(|item: Tunnel| item@)
}

/// What documents tell of tunnels, where each tells of one.
pub open spec fn tunnels_of(items: Seq<Doc>) -> Option<Seq<TunnelView>>
    decreases items.len(),
{
    if items.len() == 0 {
        Some(Seq::empty())
    } else {
        match (tunnels_of(items.drop_last()), TunnelView::read_of(items.last())) {
            (Some(front), Some(last)) => Some(front.push(last)),
            _ => None,
        }
    }
}

proof fn lemma_tunnels_fail(items: Seq<Doc>, at: int)
    requires
        0 <= at < items.len(),
        TunnelView::read_of(items[at]) is None,
    ensures
        tunnels_of(items) is None,
    decreases items.len(),
{
    if at < items.len() - 1 {
        lemma_tunnels_fail(items.drop_last(), at);
    }
}

fn read_tunnels(items: &Vec<Json>) -> (result: Option<Vec<Tunnel>>)
    ensures
        match result {
            Some(values) => tunnels_of(json::docs(items@)) == Some(tunnel_views(values@)),
            None => tunnels_of(json::docs(items@)) is None,
        },
{
    let ghost all = json::docs(items@);
    proof {
        json::lemma_docs(items@);
    }
    let mut result: Vec<Tunnel> = Vec::new();
    let mut index: usize = 0;
    assert(tunnel_views(result@) == Seq::<TunnelView>::empty());
    while index < items.len()
        invariant
            index <= items.len(),
            all == json::docs(items@),
            all.len() == items.len(),
            forall|i: int| 0 <= i < items@.len() ==> #[trigger] all[i] == items@[i].doc(),
            tunnels_of(all.take(index as int)) == Some(tunnel_views(result@)),
        decreases items.len() - index,
    {
        proof {
            assert(all.take(index + 1).drop_last() == all.take(index as int));
            assert(all.take(index + 1).last() == all[index as int]);
        }
        match Tunnel::read(&items[index]) {
            Some(tunnel) => {
                assert(tunnel_views(result@.push(tunnel)) == tunnel_views(result@).push(tunnel@));
                result.push(tunnel);
            },
            None => {
                proof {
                    lemma_tunnels_fail(all, index as int);
                }
                return None;
            },
        }
        index = index + 1;
    }
    assert(all.take(all.len() as int) == all);
    Some(result)
}

impl TunnelList {
    /// Whether a document tells of the list.
    pub open spec fn is_read(self, doc: Doc) -> bool {
        &&& doc is Object
        &&& text_entry(doc, "request_id"@) == Some(self.request_id@)
        &&& match (doc.at("tunnels"@), self.tunnels) {
            (Doc::Null, None) => true,
            (Doc::List(items), Some(tunnels)) => tunnels_of(items) == Some(tunnel_views(tunnels@)),
            _ => false,
        }
    }

    /// Whether a document tells of no list.
    pub open spec fn is_malformed(doc: Doc) -> bool {
        ||| !(doc is Object)
        ||| text_entry(doc, "request_id"@) is None
        ||| match doc.at("tunnels"@) {
            Doc::Null => false,
            Doc::List(items) => tunnels_of(items) is None,
            _ => true,
        }
    }

    /// What a document tells of tunnels.
    pub fn read(value: &Json) -> (result: Option<TunnelList>)
        ensures
            match result {
                Some(list) => list.is_read(value.doc()),
                None => Self::is_malformed(value.doc()),
            },
    {
        if !value.is_object() {
            return None;
        }
        let request_id = match read_text(value, "request_id") {
            Some(inner) => inner,
            None => {
                return None;
            },
        };
        match value.get("tunnels") {
            None => Some(TunnelList { tunnels: None, request_id }),
            Some(Json::Null) => Some(TunnelList { tunnels: None, request_id }),
            Some(Json::List(items)) => match read_tunnels(items) {
                Some(tunnels) => Some(TunnelList { tunnels: Some(tunnels), request_id }),
                None => None,
            },
            Some(_) => None,
        }
    }
}

/// Why a request to the service failed.
pub struct RequestError {
    pub method: String,
    pub path: String,
    pub status_code: u16,
    pub response_body: String,
    pub request_id: String,
    pub code: String,
    pub kind: String,
    pub message: String,
    pub mitigation: String,
}

impl RequestError {
    /// Whether the service does not know how to delete.
    pub open spec fn lacks_delete(self) -> bool {
        self.method@ == "DELETE"@ && self.status_code == 404 && text::occurs(
            self.response_body@,
            "Invalid URL"@,
        )
    }

    /// What the service tells of the error.
    pub open spec fn detail(self) -> Seq<char> {
        if self.lacks_delete() {
            "delete is not exposed on this control-plane base URL yet; get/list/create/update may still work ("@
                + self.response_body@ + ")"@
        } else {
            let front = if self.code@.len() == 0 {
                Seq::empty()
            } else {
                self.code@ + ": "@
            };
            let told = if self.message@.len() == 0 {
                self.response_body@
            } else {
                self.message@
            };
            let back = if self.mitigation@.len() == 0 {
                Seq::empty()
            } else {
                " mitigation: "@ + self.mitigation@
            };
            front + told + back
        }
    }

    /// The text of the error.
    pub open spec fn text_of(self) -> Seq<char> {
        let front = "request "@ + self.method@ + " "@ + self.path@ + " failed: "@
            + text::decimal_of(self.status_code as nat) + " "@;
        front + self.detail() + (if self.request_id@.len() == 0 {
            Seq::empty()
        } else {
            " (x-request-id: "@ + self.request_id@ + ")"@
        })
    }

    fn describe(&self) -> (result: String)
        ensures
            result@ == self.detail(),
    {
        if text::same(&self.method, "DELETE") && self.status_code == 404 && text::contains_text(
            &self.response_body,
            "Invalid URL",
        ) {
            return text::cat3(
                "delete is not exposed on this control-plane base URL yet; get/list/create/update may still work (",
                &self.response_body,
                ")",
            );
        }
        let front = if self.code.is_empty() {
            String::new()
        } else {
            text::cat(&self.code, ": ")
        };
        let back = if self.mitigation.is_empty() {
            String::new()
        } else {
            text::cat(" mitigation: ", &self.mitigation)
        };
        proof {
            assert(self.code@.len() == 0 ==> front@ =~= Seq::<char>::empty());
            assert(self.mitigation@.len() == 0 ==> back@ =~= Seq::<char>::empty());
        }
        if self.message.is_empty() {
            text::cat3(&front, &self.response_body, &back)
        } else {
            text::cat3(&front, &self.message, &back)
        }
    }

    /// The text of the error.
    pub fn text(&self) -> (result: String)
        ensures
            result@ == self.text_of(),
    {
        let front = text::cat5("request ", &self.method, " ", &self.path, " failed: ");
        let head = text::cat3(&front, &text::decimal(self.status_code as u64), " ");
        let tail = if self.request_id.is_empty() {
            String::new()
        } else {
            text::cat3(" (x-request-id: ", &self.request_id, ")")
        };
        assert(self.request_id@.len() == 0 ==> tail@ =~= Seq::<char>::empty());
        text::cat3(&head, &self.describe(), &tail)
    }

    /// What is told of the error as a document.
    pub open spec fn payload_doc(self) -> Doc {
        Doc::object().with(
            "error"@,
            Doc::object().with("message"@, Doc::Text(self.text_of())).with(
                "method"@,
                Doc::Text(self.method@),
            ).with("path"@, Doc::Text(self.path@)).with(
                "status_code"@,
                Doc::number(self.status_code as nat),
            ).with_if(self.request_id@.len() > 0, "request_id"@, Doc::Text(self.request_id@)).with_if(
                self.code@.len() > 0,
                "code"@,
                Doc::Text(self.code@),
            ).with_if(self.kind@.len() > 0, "type"@, Doc::Text(self.kind@)).with_if(
                self.mitigation@.len() > 0,
                "mitigation"@,
                Doc::Text(self.mitigation@),
            ),
        )
    }

    /// What is told of the error as a document.
    pub fn payload(&self) -> (result: Json)
        ensures
            result.doc() == self.payload_doc(),
    {
        let inner = Json::object().with("message", Json::text(&self.text())).with(
            "method",
            Json::text(&self.method),
        ).with("path", Json::text(&self.path)).with(
            "status_code",
            Json::number(self.status_code as u64),
        ).with_if(!self.request_id.is_empty(), "request_id", Json::text(&self.request_id)).with_if(
            !self.code.is_empty(),
            "code",
            Json::text(&self.code),
        ).with_if(!self.kind.is_empty(), "type", Json::text(&self.kind)).with_if(
            !self.mitigation.is_empty(),
            "mitigation",
            Json::text(&self.mitigation),
        );
        Json::object().with("error", inner)
    }

    /// The error that an answer tells of.
    pub fn read(method: &str, path: &str, status_code: u16, body: &Vec<u8>, request_id: &str) -> (result:
        RequestError)
        ensures
            ({
                let raw = text::trim_of(lossy_text(body@));
                let info = info_of(raw);
                &&& result.method@ == method@
                &&& result.path@ == path@
                &&& result.status_code == status_code
                &&& result.response_body@ == raw
                &&& result.request_id@ == request_id@
                &&& result.code@ == info.code
                &&& result.kind@ == info.kind
                &&& result.message@ == info.message
                &&& result.mitigation@ == info.mitigation
            }),
    {
        let info = ErrorInfo::parse(body);
        RequestError {
            method: method.to_owned(),
            path: path.to_owned(),
            status_code,
            response_body: text::trim(&lossy(body)),
            request_id: request_id.to_owned(),
            code: info.code,
            kind: info.kind,
            message: info.message,
            mitigation: info.mitigation,
        }
    }
}

/// How much of an answer that tells of an error is read.
pub const MAX_ERROR: usize = 4096;

/// How much of a further part of such an answer is read.
pub fn error_part(size: usize, part: usize) -> (result: usize)
    ensures
        result == (if size >= MAX_ERROR {
            0int
        } else if part <= MAX_ERROR - size {
            part as int
        } else {
            MAX_ERROR - size
        }),
{
    if size >= MAX_ERROR {
        0
    } else if part <= MAX_ERROR - size {
        part
    } else {
        MAX_ERROR - size
    }
}

/// Where requests to the service go, and what they carry.
pub struct Client {
    pub root: String,
    pub headers: header::Headers,
}

/// What every request carries.
pub open spec fn headers_of(key: Seq<char>, instance: Seq<char>) -> Map<Seq<char>, Seq<Seq<u8>>> {
    let first = with_header(
        with_header(header::no_entries(), "authorization"@, "Bearer "@ + key),
        "accept"@,
        "application/json"@,
    );
    let second = with_header(
        with_header(first, "user-agent"@, USER_AGENT@),
        "x-tunnel-client-name"@,
        "otunnel"@,
    );
    with_header(
        with_header(second, "x-tunnel-client-version"@, VERSION@),
        "x-tunnel-client-instance-id"@,
        instance,
    )
}

/// Why there is no way to the service, if so.
pub open spec fn client_fault(
    base: Seq<char>,
    prefix: Seq<char>,
    key: Seq<char>,
    instance: Seq<char>,
) -> Option<Seq<char>> {
    if key.len() == 0 {
        Some("admin key is required"@)
    } else {
        match endpoint_of(base, prefix, "v1/tunnels"@) {
            Err(reason) => Some(reason),
            Ok(_) => if is_header_text("Bearer "@ + key) && is_header_text(instance) {
                None
            } else {
                Some("failed to parse header value"@)
            },
        }
    }
}

proof fn lemma_names()
    ensures
        forall|name: Seq<char>|
            name == "authorization"@ || name == "accept"@ || name == "user-agent"@ || name
                == "x-tunnel-client-name"@ || name == "x-tunnel-client-version"@ || name
                == "x-tunnel-client-instance-id"@ || name == "content-type"@
                ==> #[trigger] header::is_name(name) && text::lowercase_of(name) == name,
        is_header_text("application/json"@),
        is_header_text(USER_AGENT@),
        is_header_text("otunnel"@),
        is_header_text(VERSION@),
{
    reveal_strlit("authorization");
    reveal_strlit("accept");
    reveal_strlit("user-agent");
    reveal_strlit("x-tunnel-client-name");
    reveal_strlit("x-tunnel-client-version");
    reveal_strlit("x-tunnel-client-instance-id");
    reveal_strlit("content-type");
    reveal_strlit("application/json");
    reveal_strlit("otunnel/0.1.0");
    reveal_strlit("otunnel");
    reveal_strlit("0.1.0");
    assert(text::lowercase_of("authorization"@) =~= "authorization"@);
    assert(text::lowercase_of("accept"@) =~= "accept"@);
    assert(text::lowercase_of("user-agent"@) =~= "user-agent"@);
    assert(text::lowercase_of("x-tunnel-client-name"@) =~= "x-tunnel-client-name"@);
    assert(text::lowercase_of("x-tunnel-client-version"@) =~= "x-tunnel-client-version"@);
    assert(text::lowercase_of("x-tunnel-client-instance-id"@) =~= "x-tunnel-client-instance-id"@);
    assert(text::lowercase_of("content-type"@) =~= "content-type"@);
    header::lemma_plain_value("application/json"@);
    header::lemma_plain_value(USER_AGENT@);
    header::lemma_plain_value("otunnel"@);
    header::lemma_plain_value(VERSION@);
}

impl Client {
    /// The way to the service.
    pub fn new(base: &str, prefix: &str, key: &str, instance: &str) -> (result: Result<
        Client,
        String,
    >)
        ensures
            match result {
                Ok(client) => client_fault(base@, prefix@, key@, instance@) is None && endpoint_of(
                    base@,
                    prefix@,
                    "v1/tunnels"@,
                ) == Ok::<Seq<char>, Seq<char>>(client.root@) && header_entries(client.headers)
                    == headers_of(key@, instance@),
                Err(reason) => client_fault(base@, prefix@, key@, instance@) == Some(reason@),
            },
    {
        if key.is_empty() {
            return Err("admin key is required".to_owned());
        }
        let root = match endpoint(base, prefix, "v1/tunnels") {
            Ok(root) => root,
            Err(reason) => {
                return Err(reason);
            },
        };
        proof {
            lemma_names();
            assert(header::is_name("authorization"@));
            assert(header::is_name("accept"@));
            assert(header::is_name("user-agent"@));
            assert(header::is_name("x-tunnel-client-name"@));
            assert(header::is_name("x-tunnel-client-version"@));
            assert(header::is_name("x-tunnel-client-instance-id"@));
        }
        let mut headers = header::empty();
        let ghost none = header_entries(headers);
        let bearer = text::cat("Bearer ", key);
        assert(none.dom().len() == 0 && none.dom().finite());
        if !put_text(&mut headers, "authorization", &bearer) {
            return Err("failed to parse header value".to_owned());
        }
        let _ = put_text(&mut headers, "accept", "application/json");
        let _ = put_text(&mut headers, "user-agent", USER_AGENT);
        let _ = put_text(&mut headers, "x-tunnel-client-name", "otunnel");
        let _ = put_text(&mut headers, "x-tunnel-client-version", VERSION);
        if !put_text(&mut headers, "x-tunnel-client-instance-id", instance) {
            return Err("failed to parse header value".to_owned());
        }
        Ok(Client { root, headers })
    }

    /// The URL of a request, or why there is none.
    pub open spec fn url_of(self, id: Option<Seq<char>>, query: Seq<(Seq<char>, Seq<char>)>) -> Result<
        Seq<char>,
        Seq<char>,
    > {
        let base = match id {
            None => Ok(self.root@),
            Some(id) => if id.len() == 0 {
                Err("tunnel id is required"@)
            } else if text::byte_len(self.root@) > address::LARGEST || text::byte_len(id) > address::LARGEST {
                Err("admin URL is too long"@)
            } else {
                match url_extended(self.root@, seq![id]) {
                    Some(url) => Ok(url),
                    None => Err("invalid admin endpoint"@),
                }
            },
        };
        match base {
            Err(reason) => Err(reason),
            Ok(url) => if query.len() == 0 {
                Ok(url)
            } else if text::byte_len(url) > address::LARGEST || query.len() > address::LARGEST
                || address::pairs_size(query) > address::LARGEST {
                Err("admin URL is too long"@)
            } else {
                match url_with_pairs(url, query) {
                    Some(url) => Ok(url),
                    None => Err("invalid admin endpoint"@),
                }
            },
        }
    }

    /// The URL of a request. What would take up more than sixteen megabytes is refused.
    pub fn url(&self, id: Option<&str>, query: &Vec<(String, String)>) -> (result: Result<
        String,
        String,
    >)
        ensures
            crate::config::reference::gives(
                result,
                self.url_of(text::str_view(id), address::pair_views(query@)),
            ),
    {
        let base = match id {
            None => self.root.clone(),
            Some(id) => {
                if id.is_empty() {
                    return Err("tunnel id is required".to_owned());
                }
                if !text::fits(&self.root, address::LARGEST) || !text::fits(id, address::LARGEST) {
                    return Err("admin URL is too long".to_owned());
                }
                let mut segments: Vec<String> = Vec::new();
                segments.push(id.to_owned());
                proof {
                    let items = text::views(segments@);
                    assert(items =~= seq![id@]);
                    assert(items.drop_last() =~= Seq::<Seq<char>>::empty());
                    assert(text::total_bytes(items.drop_last()) == 0);
                    assert(text::total_bytes(items) == text::byte_len(id@));
                }
                match address::extended(&self.root, &segments) {
                    Some(url) => url,
                    None => {
                        return Err("invalid admin endpoint".to_owned());
                    },
                }
            },
        };
        assert(address::pair_views(query@).len() == query@.len());
        if query.len() == 0 {
            return Ok(base);
        }
        if !text::fits(&base, address::LARGEST) || query.len() > address::LARGEST || !address::pairs_fit(
            query,
            address::LARGEST,
        ) {
            return Err("admin URL is too long".to_owned());
        }
        match address::with_pairs(&base, query) {
            Some(url) => Ok(url),
            None => Err("invalid admin endpoint".to_owned()),
        }
    }

    /// The headers of a request, and its body.
    pub fn body(&self, value: Option<Json>) -> (result: (header::Headers, Vec<u8>))
        requires
            header::has_room(header_entries(self.headers)),
        ensures
            match value {
                Some(value) => header_entries(result.0) == with_header(
                    header_entries(self.headers),
                    "content-type"@,
                    "application/json"@,
                ) && result.1@ == vstd::utf8::encode_utf8(json_text(value.doc())),
                None => header_entries(result.0) == header_entries(self.headers) && result.1@.len()
                    == 0,
            },
    {
        let mut headers = header::duplicate(&self.headers);
        match value {
            Some(value) => {
                proof {
                    lemma_names();
                    assert(header::is_name("content-type"@));
                }
                let _ = put_text(&mut headers, "content-type", "application/json");
                (headers, text::bytes(&json::write(value)))
            },
            None => (headers, Vec::new()),
        }
    }
}

/// The pairs of a query for tunnels: what is given of the scope.
pub open spec fn scope_pairs(
    organization: Seq<char>,
    workspace: Seq<char>,
    tenant: Seq<char>,
) -> Seq<(Seq<char>, Seq<char>)> {
    let first = if organization.len() == 0 {
        Seq::empty()
    } else {
        seq![("organization_id"@, organization)]
    };
    let second = if workspace.len() == 0 {
        first
    } else {
        first.push(("workspace_id"@, workspace))
    };
    if tenant.len() == 0 {
        second
    } else {
        second.push(("tenant_id"@, tenant))
    }
}

/// The pairs of a query for tunnels.
pub fn scope(organization: &str, workspace: &str, tenant: &str) -> (result: Vec<(String, String)>)
    ensures
        address::pair_views(result@) == scope_pairs(organization@, workspace@, tenant@),
{
    let mut result: Vec<(String, String)> = Vec::new();
    if !organization.is_empty() {
        result.push(("organization_id".to_owned(), organization.to_owned()));
    }
    if !workspace.is_empty() {
        result.push(("workspace_id".to_owned(), workspace.to_owned()));
    }
    if !tenant.is_empty() {
        result.push(("tenant_id".to_owned(), tenant.to_owned()));
    }
    assert(address::pair_views(result@) =~= scope_pairs(organization@, workspace@, tenant@));
    result
}

/// The document of an answer with the identity of its request; nothing for an empty one.
pub open spec fn answer_doc(body: Seq<u8>, request_id: Seq<char>) -> Result<Option<Doc>, Seq<char>> {
    if body.len() == 0 {
        Ok(None)
    } else {
        match text::utf8_text(body) {
            Some(value) => match parsed_json(value) {
                Some(doc) => Ok(
                    Some(
                        doc.with_if(request_id.len() > 0, "request_id"@, Doc::Text(request_id)),
                    ),
                ),
                None => Err("decode response"@),
            },
            None => Err("decode response"@),
        }
    }
}

fn answer(body: &Vec<u8>, request_id: &str) -> (result: Result<Option<Json>, String>)
    ensures
        match (result, answer_doc(body@, request_id@)) {
            (Ok(Some(value)), Ok(Some(doc))) => value.doc() == doc,
            (Ok(None), Ok(None)) => true,
            (Err(reason), Err(expected)) => reason@ == expected,
            _ => false,
        },
{
    if body.len() == 0 {
        return Ok(None);
    }
    if let Some(value) = text::from_utf8(body) {
        if let Some(value) = json::parse(&value) {
            return Ok(
                Some(
                    value.with_if(!request_id.is_empty(), "request_id", Json::text(request_id)),
                ),
            );
        }
    }
    Err("decode response".to_owned())
}

/// The tunnel that an answer tells of.
pub fn tunnel(body: &Vec<u8>, request_id: &str) -> (result: Result<Tunnel, String>)
    ensures
        match (result, answer_doc(body@, request_id@)) {
            (Ok(tunnel), Ok(None)) => tunnel@ == TunnelView::bare(),
            (Ok(tunnel), Ok(Some(doc))) => TunnelView::read_of(doc) == Some(tunnel@),
            (Err(reason), Ok(Some(doc))) => TunnelView::read_of(doc) is None && reason@
                == "decode response"@,
            (Err(reason), Err(expected)) => reason@ == expected,
            _ => false,
        },
{
    match answer(body, request_id) {
        Err(reason) => Err(reason),
        Ok(None) => Ok(Tunnel::default()),
        Ok(Some(value)) => match Tunnel::read(&value) {
            Some(tunnel) => Ok(tunnel),
            None => Err("decode response".to_owned()),
        },
    }
}

/// The tunnels that an answer tells of.
pub fn tunnels(body: &Vec<u8>, request_id: &str) -> (result: Result<TunnelList, String>)
    ensures
        match (result, answer_doc(body@, request_id@)) {
            (Ok(list), Ok(None)) => list.tunnels is None && list.request_id@.len() == 0,
            (Ok(list), Ok(Some(doc))) => list.is_read(doc),
            (Err(reason), Ok(Some(doc))) => TunnelList::is_malformed(doc) && reason@
                == "decode response"@,
            (Err(reason), Err(expected)) => reason@ == expected,
            _ => false,
        },
{
    match answer(body, request_id) {
        Err(reason) => Err(reason),
        Ok(None) => Ok(TunnelList { tunnels: None, request_id: String::new() }),
        Ok(Some(value)) => match TunnelList::read(&value) {
            Some(list) => Ok(list),
            None => Err("decode response".to_owned()),
        },
    }
}

/// A tunnel is read with each of its fields from the entry of the same name; its lists may be null.
pub proof fn lemma_tunnel_read(map: Map<Seq<char>, Doc>, read: TunnelView)
    requires
        TunnelView::read_of(Doc::Object(map)) == Some(read),
    ensures
        map.dom().contains("id"@) ==> map["id"@] == Doc::Text(read.id),
        !map.dom().contains("id"@) ==> read.id.len() == 0,
        map.dom().contains("name"@) ==> map["name"@] == Doc::Text(read.name),
        !map.dom().contains("name"@) ==> read.name.len() == 0,
        map.dom().contains("description"@) ==> map["description"@] == Doc::Text(read.description),
        !map.dom().contains("description"@) ==> read.description.len() == 0,
        map.dom().contains("creator"@) ==> map["creator"@] == Doc::Text(read.creator),
        !map.dom().contains("creator"@) ==> read.creator.len() == 0,
        map.dom().contains("request_id"@) ==> map["request_id"@] == Doc::Text(read.request_id),
        !map.dom().contains("request_id"@) ==> read.request_id.len() == 0,
        map.dom().contains("tenant_ids"@) && !(map["tenant_ids"@] is Null) ==> (map["tenant_ids"@] matches Doc::List(items)
            && crate::management::records::texts_of(items) == Some(read.tenant_ids)),
        !map.dom().contains("tenant_ids"@) || map["tenant_ids"@] is Null ==> read.tenant_ids.len() == 0,
        map.dom().contains("workspace_ids"@) && !(map["workspace_ids"@] is Null) ==> (map["workspace_ids"@] matches Doc::List(items)
            && crate::management::records::texts_of(items) == Some(read.workspace_ids)),
        !map.dom().contains("workspace_ids"@) || map["workspace_ids"@] is Null ==> read.workspace_ids.len() == 0,
        map.dom().contains("organization_ids"@) && !(map["organization_ids"@] is Null) ==> (map["organization_ids"@] matches Doc::List(items)
            && crate::management::records::texts_of(items) == Some(read.organization_ids)),
        !map.dom().contains("organization_ids"@) || map["organization_ids"@] is Null ==> read.organization_ids.len() == 0,
{
}

/// A tunnel is told with its identity, its name and its description always, and with the rest where there is any.
pub proof fn lemma_tunnel_told(view: TunnelView)
    ensures
        ({
            let doc = Tunnel::document_of(view);
            &&& doc.at("id"@) == Doc::Text(view.id)
            &&& doc.at("name"@) == Doc::Text(view.name)
            &&& doc.at("description"@) == Doc::Text(view.description)
            &&& view.creator.len() > 0 ==> doc.at("creator"@) == Doc::Text(view.creator)
            &&& view.creator.len() == 0 ==> doc.at("creator"@) == Doc::Null
            &&& view.request_id.len() > 0 ==> doc.at("request_id"@) == Doc::Text(view.request_id)
            &&& view.request_id.len() == 0 ==> doc.at("request_id"@) == Doc::Null
            &&& view.tenant_ids.len() > 0 ==> doc.at("tenant_ids"@) == json::texts(view.tenant_ids)
            &&& view.tenant_ids.len() == 0 ==> doc.at("tenant_ids"@) == Doc::Null
            &&& view.workspace_ids.len() > 0 ==> doc.at("workspace_ids"@) == json::texts(view.workspace_ids)
            &&& view.workspace_ids.len() == 0 ==> doc.at("workspace_ids"@) == Doc::Null
            &&& view.organization_ids.len() > 0 ==> doc.at("organization_ids"@) == json::texts(view.organization_ids)
            &&& view.organization_ids.len() == 0 ==> doc.at("organization_ids"@) == Doc::Null
        }),
{
    reveal_strlit("id");
    reveal_strlit("name");
    reveal_strlit("description");
    reveal_strlit("creator");
    reveal_strlit("request_id");
    reveal_strlit("tenant_ids");
    reveal_strlit("workspace_ids");
    reveal_strlit("organization_ids");
    assert("id"@.len() == 2);
    assert("name"@.len() == 4);
    assert("description"@.len() == 11);
    assert("creator"@.len() == 7);
    assert("request_id"@.len() == 10 && "request_id"@[0] == 'r');
    assert("tenant_ids"@.len() == 10 && "tenant_ids"@[0] == 't');
    assert("workspace_ids"@.len() == 13);
    assert("organization_ids"@.len() == 16);
}

/// The tunnels of a list are read in order, all or none of them.
pub proof fn lemma_tunnels_read(items: Seq<Doc>, at: int)
    ensures
        tunnels_of(items) matches Some(found) ==> found.len() == items.len() && (0 <= at < items.len()
            ==> TunnelView::read_of(items[at]) == Some(found[at])),
        0 <= at < items.len() && TunnelView::read_of(items[at]) is None ==> tunnels_of(items) is None,
    decreases items.len(),
{
    if items.len() > 0 {
        lemma_tunnels_read(items.drop_last(), at);
        if 0 <= at < items.len() - 1 {
            assert(items.drop_last()[at] == items[at]);
        }
    }
}

/// A list of tunnels is an object; what is no list of tunnels is malformed.
pub proof fn lemma_list_read(list: TunnelList, doc: Doc)
    ensures
        list.is_read(doc) ==> !TunnelList::is_malformed(doc),
        list.is_read(doc) && doc.at("tunnels"@) is Null ==> list.tunnels is None,
        list.is_read(doc) ==> (doc.at("tunnels"@) matches Doc::List(items) ==> list.tunnels is Some
            && list.tunnels->0@.len() == items.len()),
        !(doc is Object) ==> TunnelList::is_malformed(doc),
        doc.at("tunnels"@) is Text || doc.at("tunnels"@) is Number ==> TunnelList::is_malformed(doc),
{
    if doc.at("tunnels"@) is List {
        lemma_tunnels_read(doc.at("tunnels"@)->List_0, 0);
        if list.tunnels is Some {
            assert(tunnel_views(list.tunnels->0@).len() == list.tunnels->0@.len());
        }
    }
}

/// A refusal is told with what was asked, the status, the words of the service, and the request.
pub proof fn lemma_refusal_told(error: RequestError)
    ensures
        error.lacks_delete() <==> error.method@ == "DELETE"@ && error.status_code == 404 && text::occurs(
            error.response_body@,
            "Invalid URL"@,
        ),
        !error.lacks_delete() && error.code@.len() > 0 && error.message@.len() > 0 && error.mitigation@.len() > 0
            ==> error.detail() == error.code@ + ": "@ + error.message@ + (" mitigation: "@ + error.mitigation@),
        !error.lacks_delete() && error.code@.len() == 0 && error.message@.len() == 0 && error.mitigation@.len()
            == 0 ==> error.detail() == error.response_body@,
        error.lacks_delete() ==> error.detail()
            == "delete is not exposed on this control-plane base URL yet; get/list/create/update may still work ("@
            + error.response_body@ + ")"@,
        error.request_id@.len() > 0 ==> error.text_of() == "request "@ + error.method@ + " "@ + error.path@
            + " failed: "@ + text::decimal_of(error.status_code as nat) + " "@ + error.detail() + (
        " (x-request-id: "@ + error.request_id@ + ")"@),
        error.request_id@.len() == 0 ==> error.text_of() == "request "@ + error.method@ + " "@ + error.path@
            + " failed: "@ + text::decimal_of(error.status_code as nat) + " "@ + error.detail(),
{
    let front = "request "@ + error.method@ + " "@ + error.path@ + " failed: "@ + text::decimal_of(
        error.status_code as nat,
    ) + " "@;
    assert(front + error.detail() + Seq::<char>::empty() =~= front + error.detail());
    let bare = Seq::<char>::empty();
    assert(bare + error.response_body@ + bare =~= error.response_body@);
}

/// A refusal as a document.
pub proof fn lemma_refusal_document(error: RequestError)
    ensures
        ({
            let doc = error.payload_doc().at("error"@);
            &&& doc.at("message"@) == Doc::Text(error.text_of())
            &&& doc.at("method"@) == Doc::Text(error.method@)
            &&& doc.at("path"@) == Doc::Text(error.path@)
            &&& doc.at("status_code"@) == Doc::number(error.status_code as nat)
            &&& error.request_id@.len() > 0 ==> doc.at("request_id"@) == Doc::Text(error.request_id@)
            &&& error.code@.len() > 0 ==> doc.at("code"@) == Doc::Text(error.code@)
            &&& error.kind@.len() > 0 ==> doc.at("type"@) == Doc::Text(error.kind@)
            &&& error.mitigation@.len() > 0 ==> doc.at("mitigation"@) == Doc::Text(error.mitigation@)
            &&& error.code@.len() == 0 ==> doc.at("code"@) == Doc::Null
        }),
{
    reveal_strlit("error");
    reveal_strlit("message");
    reveal_strlit("method");
    reveal_strlit("path");
    reveal_strlit("status_code");
    reveal_strlit("request_id");
    reveal_strlit("code");
    reveal_strlit("type");
    reveal_strlit("mitigation");
    assert("error"@.len() == 5);
    assert("message"@.len() == 7);
    assert("method"@.len() == 6);
    assert("path"@.len() == 4 && "path"@[0] == 'p');
    assert("status_code"@.len() == 11);
    assert("request_id"@.len() == 10 && "request_id"@[0] == 'r');
    assert("code"@.len() == 4 && "code"@[0] == 'c');
    assert("type"@.len() == 4 && "type"@[0] == 't');
    assert("mitigation"@.len() == 10 && "mitigation"@[0] == 'm');
}

/// A client needs a key, an address, and values that a header can carry.
pub proof fn lemma_client_made(base: Seq<char>, prefix: Seq<char>, key: Seq<char>, instance: Seq<char>)
    ensures
        client_fault(base, prefix, key, instance) is None ==> key.len() > 0 && endpoint_of(
            base,
            prefix,
            "v1/tunnels"@,
        ) is Ok && is_header_text("Bearer "@ + key) && is_header_text(instance),
        key.len() > 0 && endpoint_of(base, prefix, "v1/tunnels"@) is Ok && is_header_text("Bearer "@ + key)
            && is_header_text(instance) ==> client_fault(base, prefix, key, instance) is None,
{
}

/// Each request of an operator tells its key, what it accepts and which client asks.
pub proof fn lemma_admin_headers(key: Seq<char>, instance: Seq<char>)
    ensures
        ({
            let sent = headers_of(key, instance);
            &&& sent["authorization"@] == seq![vstd::utf8::encode_utf8("Bearer "@ + key)]
            &&& sent["accept"@] == seq![vstd::utf8::encode_utf8("application/json"@)]
            &&& sent["x-tunnel-client-name"@] == seq![vstd::utf8::encode_utf8("otunnel"@)]
            &&& sent["x-tunnel-client-version"@] == seq![vstd::utf8::encode_utf8("0.1.0"@)]
            &&& sent["x-tunnel-client-instance-id"@] == seq![vstd::utf8::encode_utf8(instance)]
            &&& sent.dom().contains("authorization"@) && sent.dom().contains("user-agent"@)
        }),
{
    reveal_strlit("authorization");
    reveal_strlit("accept");
    reveal_strlit("user-agent");
    reveal_strlit("x-tunnel-client-name");
    reveal_strlit("x-tunnel-client-version");
    reveal_strlit("x-tunnel-client-instance-id");
    assert("authorization"@.len() == 13);
    assert("accept"@.len() == 6);
    assert("user-agent"@.len() == 10);
    assert("x-tunnel-client-name"@.len() == 20);
    assert("x-tunnel-client-version"@.len() == 23);
    assert("x-tunnel-client-instance-id"@.len() == 27);
}

/// A scope is asked for with each of its parts under its own name.
pub proof fn lemma_scope_asked(organization: Seq<char>, workspace: Seq<char>, tenant: Seq<char>)
    ensures
        organization.len() > 0 && workspace.len() > 0 && tenant.len() > 0 ==> scope_pairs(
            organization,
            workspace,
            tenant,
        ) == seq![
            ("organization_id"@, organization),
            ("workspace_id"@, workspace),
            ("tenant_id"@, tenant),
        ],
        organization.len() > 0 ==> scope_pairs(organization, workspace, tenant)[0] == ("organization_id"@, organization),
        organization.len() == 0 && workspace.len() > 0 ==> scope_pairs(organization, workspace, tenant)[0] == (
            "workspace_id"@,
            workspace,
        ),
        organization.len() == 0 && workspace.len() == 0 && tenant.len() > 0 ==> scope_pairs(
            organization,
            workspace,
            tenant,
        ) == seq![("tenant_id"@, tenant)],
        organization.len() == 0 && workspace.len() == 0 && tenant.len() == 0 ==> scope_pairs(
            organization,
            workspace,
            tenant,
        ).len() == 0,
{
}

/// A tunnel is asked for at its own address; one without an identity is refused.
pub proof fn lemma_admin_urls(client: Client, id: Seq<char>)
    ensures
        client.url_of(None, Seq::empty()) == Ok::<Seq<char>, Seq<char>>(client.root@),
        id.len() == 0 ==> client.url_of(Some(id), Seq::empty()) is Err,
        id.len() > 0 ==> (client.url_of(Some(id), Seq::empty()) matches Ok(url) ==> address::url_extended(
            client.root@,
            seq![id],
        ) == Some(url)),
{
}

/// An answer is read as a document, with the request that the service names; an empty one holds none.
pub proof fn lemma_answer_read(body: Seq<u8>, request_id: Seq<char>, value: Seq<char>, map: Map<Seq<char>, Doc>)
    ensures
        body.len() == 0 ==> answer_doc(body, request_id) == Ok::<Option<Doc>, Seq<char>>(None),
        body.len() > 0 && text::utf8_text(body) is None ==> answer_doc(body, request_id) is Err,
        body.len() > 0 && text::utf8_text(body) == Some(value) && parsed_json(value) is None ==> answer_doc(
            body,
            request_id,
        ) is Err,
        body.len() > 0 && text::utf8_text(body) == Some(value) && parsed_json(value) == Some(Doc::Object(map)) ==> {
            &&& answer_doc(body, request_id) matches Ok(Some(doc))
            &&& request_id.len() > 0 ==> doc.at("request_id"@) == Doc::Text(request_id)
            &&& request_id.len() == 0 ==> doc == Doc::Object(map)
        },
{
}

} // verus!
