//! The authorization that servers ask for: where it is described, and what is learned from that.

pub mod search;

use vstd::prelude::*;
use crate::address::{
    self, is_bare, is_web, joined_url, one_origin, same_origin, url_bare, web, web_of, Address, Parts,
};
use crate::harpoon::registry::{Harpoon, Target, TargetInfo};
use crate::header::{self, ascii_text, header_entries, Headers};
use crate::json::{self, Doc, Json};
use crate::oauth::search::Document;
use crate::pattern::{self, regex_groups};
use crate::protocol::{self, lists_of, passed, Reply};
use crate::{digest, text};

verus! {

/// An address that was learned.
pub struct Record {
    pub raw: String,
    pub role: String,
    pub description: String,
    pub index: usize,
    pub group: Option<String>,
}

/// The contents of [`Record`].
#[verifier::ext_equal]
pub struct RecordView {
    pub raw: Seq<char>,
    pub role: Seq<char>,
    pub description: Seq<char>,
    pub index: usize,
    pub group: Option<Seq<char>>,
}

impl View for Record {
    type V = RecordView;

    open spec fn view(&self) -> RecordView {
        RecordView {
            raw: self.raw@,
            role: self.role@,
            description: self.description@,
            index: self.index,
            group: text::view_of(self.group),
        }
    }
}

impl RecordView {
    /// An address that was learned, of no group.
    pub open spec fn of(raw: Seq<char>, role: Seq<char>, description: Seq<char>) -> RecordView {
        RecordView { raw, role, description, index: 0, group: None }
    }

    /// The address as one of a group.
    pub open spec fn grouped(self, group: Seq<char>) -> RecordView {
        RecordView { group: Some(group), ..self }
    }
}

impl Record {
    /// An address that was learned, of no group.
    pub fn new(raw: &str, role: &str, description: &str) -> (result: Record)
        ensures
            result@ == RecordView::of(raw@, role@, description@),
    {
        Record {
            raw: raw.to_owned(),
            role: role.to_owned(),
            description: description.to_owned(),
            index: 0,
            group: None,
        }
    }

    /// The address as one of a group.
    pub fn group(self, group: &str) -> (result: Record)
        ensures
            result@ == self@.grouped(group@),
    {
        Record {
            raw: self.raw,
            role: self.role,
            description: self.description,
            index: self.index,
            group: Some(group.to_owned()),
        }
    }
}

/// The group of the addresses that were learned from a URL.
pub open spec fn auth_group_of(source: Seq<char>) -> Seq<char> {
    "auth-server:"@ + digest::hex_of(digest::sha256_of(vstd::utf8::encode_utf8(source))).take(12)
        + ":0"@
}

/// The group of the addresses that were learned from a URL.
pub fn auth_group(source: &str) -> (result: String)
    ensures
        result@ == auth_group_of(source@),
{
    let bytes = digest::sha256(&text::bytes(source));
    let all = digest::hex(&bytes);
    proof {
        digest::lemma_hex_len(bytes@);
    }
    let code = text::piece(&text::chars(&all), 0, 12);
    assert(code@ =~= all@.take(12));
    text::cat3("auth-server:", &code, ":0")
}

/// The tags of a role.
pub open spec fn tags_for(role: Seq<char>) -> Seq<Seq<char>> {
    if role == "prmd-resource"@ {
        seq!["protected-resource-metadata"@, "resource"@]
    } else if role == "prmd-auth-server"@ {
        seq!["authorization-server"@, "protected-resource-metadata"@]
    } else if role == "prmd-source"@ {
        seq!["protected-resource-metadata"@, "source-url"@]
    } else if role == "auth-server-metadata"@ {
        seq!["auth-server-metadata"@]
    } else {
        seq!["auth-server-metadata"@, role]
    }
}

/// The tags of a role.
pub fn role_tags(role: &str) -> (result: Vec<String>)
    ensures
        text::views(result@) == tags_for(role@),
{
    let mut tags: Vec<String> = Vec::new();
    if text::same(role, "prmd-resource") {
        tags.push("protected-resource-metadata".to_owned());
        tags.push("resource".to_owned());
    } else if text::same(role, "prmd-auth-server") {
        tags.push("authorization-server".to_owned());
        tags.push("protected-resource-metadata".to_owned());
    } else if text::same(role, "prmd-source") {
        tags.push("protected-resource-metadata".to_owned());
        tags.push("source-url".to_owned());
    } else if text::same(role, "auth-server-metadata") {
        tags.push("auth-server-metadata".to_owned());
    } else {
        tags.push("auth-server-metadata".to_owned());
        tags.push(role.to_owned());
    }
    assert(text::views(tags@) =~= tags_for(role@));
    tags
}

/// The pieces of a challenge from a place on: it is cut at each comma that is not quoted.
pub open spec fn cut_of(value: Seq<char>, at: int, start: int, quoted: bool, escaped: bool) -> Seq<
    Seq<char>,
>
    decreases value.len() - at,
{
    if at < 0 || at >= value.len() {
        seq![value.subrange(start, value.len() as int)]
    } else if escaped {
        cut_of(value, at + 1, start, quoted, false)
    } else if quoted && value[at] == '\\' {
        cut_of(value, at + 1, start, quoted, true)
    } else if value[at] == '"' {
        cut_of(value, at + 1, start, !quoted, false)
    } else if value[at] == ',' && !quoted {
        seq![value.subrange(start, at)] + cut_of(value, at + 1, at + 1, false, false)
    } else {
        cut_of(value, at + 1, start, quoted, false)
    }
}

fn cut(value: &str) -> (result: Vec<String>)
    ensures
        text::views(result@) == cut_of(value@, 0, 0, false, false),
{
    let all = text::chars(value);
    let mut result: Vec<String> = Vec::new();
    let mut start: usize = 0;
    let mut quoted = false;
    let mut escaped = false;
    let mut index: usize = 0;
    assert(text::views(result@) + cut_of(value@, 0, 0, false, false) =~= cut_of(
        value@,
        0,
        0,
        false,
        false,
    ));
    while index < all.len()
        invariant
            start <= index <= all.len(),
            all@ == value@,
            cut_of(value@, 0, 0, false, false) == text::views(result@) + cut_of(
                value@,
                index as int,
                start as int,
                quoted,
                escaped,
            ),
        decreases all.len() - index,
    {
        let ch = all[index];
        if escaped {
            escaped = false;
        } else if quoted && ch == '\\' {
            escaped = true;
        } else if ch == '"' {
            quoted = !quoted;
        } else if ch == ',' && !quoted {
            let piece = text::piece(&all, start, index);
            let ghost before = text::views(result@);
            let ghost rest = cut_of(value@, index + 1, index + 1, false, false);
            assert(text::views(result@.push(piece)) =~= before.push(piece@));
            assert(before + (seq![piece@] + rest) =~= before.push(piece@) + rest);
            result.push(piece);
            start = index + 1;
        }
        index = index + 1;
    }
    let piece = text::piece(&all, start, all.len());
    assert(text::views(result@.push(piece)) =~= text::views(result@) + seq![piece@]);
    result.push(piece);
    result
}

/// The place of the first white space, from one on.
pub open spec fn space_from(value: Seq<char>, at: int) -> int
    decreases value.len() - at,
{
    if at < 0 || at >= value.len() || text::is_space(value[at]) {
        at
    } else {
        space_from(value, at + 1)
    }
}

/// The scheme that a piece of a challenge names, where it names one, and its parameters.
pub open spec fn piece_of(value: Seq<char>) -> (Option<Seq<char>>, Seq<char>) {
    let at = space_from(value, 0);
    if at < value.len() && !value.take(at).contains('=') {
        (Some(value.take(at)), text::trim_of(value.skip(at)))
    } else {
        (None, value)
    }
}

fn piece(value: &str) -> (result: (Option<String>, String))
    ensures
        text::view_of(result.0) == piece_of(value@).0,
        result.1@ == piece_of(value@).1,
{
    let all = text::chars(value);
    let mut index: usize = 0;
    while index < all.len() && !text::space(all[index])
        invariant
            index <= all.len(),
            all@ == value@,
            space_from(value@, 0) == space_from(value@, index as int),
        decreases all.len() - index,
    {
        index = index + 1;
    }
    if index < all.len() {
        let front = text::piece(&all, 0, index);
        assert(front@ =~= value@.take(index as int));
        if !text::contains_char(&front, '=') {
            let rest = text::piece(&all, index, all.len());
            assert(rest@ =~= value@.skip(index as int));
            return (Some(front), text::trim(&rest));
        }
    }
    (None, value.to_owned())
}

/// The parameter of a challenge with the address of the description of the resource.
pub const PARAMETER: &'static str = "(?i)(?:^|[\\s,])resource_metadata\\s*=\\s*(?:\"([^\"]*)\"|([^,\\s]+))";

/// The first of two groups that is there.
pub open spec fn group_of(groups: Seq<Option<Seq<char>>>) -> Option<Seq<char>> {
    if groups.len() > 0 && groups[0] is Some {
        groups[0]
    } else if groups.len() > 1 {
        groups[1]
    } else {
        None
    }
}

/// The address in the pieces of a challenge, from one on, where a scheme was named before.
pub open spec fn metadata_from(pieces: Seq<Seq<char>>, at: int, scheme: Seq<char>) -> Option<Seq<char>>
    decreases pieces.len() - at,
{
    if at < 0 || at >= pieces.len() {
        None
    } else {
        let trimmed = text::trim_of(pieces[at]);
        let (given, parameters) = piece_of(trimmed);
        let named = match given {
            Some(given) => given,
            None => scheme,
        };
        if trimmed.len() == 0 {
            metadata_from(pieces, at + 1, scheme)
        } else if !text::same_folded(named, "bearer"@) {
            metadata_from(pieces, at + 1, named)
        } else {
            match regex_groups(PARAMETER@, parameters) {
                Some(groups) => group_of(groups),
                None => metadata_from(pieces, at + 1, named),
            }
        }
    }
}

/// The address of the description of a resource in a challenge.
pub open spec fn metadata_of(challenge: Seq<char>) -> Option<Seq<char>> {
    metadata_from(cut_of(challenge, 0, 0, false, false), 0, ""@)
}

fn group_found(groups: Vec<Option<String>>) -> (result: Option<String>)
    ensures
        text::view_of(result) == group_of(
            groups@.map_values(|group: Option<String>| text::view_of(group)),
        ),
{
    let ghost all = groups@.map_values(|group: Option<String>| text::view_of(group));
    if groups.len() > 0 {
        assert(all[0] == text::view_of(groups@[0]));
        if let Some(value) = &groups[0] {
            return Some(value.clone());
        }
    }
    if groups.len() > 1 {
        assert(all[1] == text::view_of(groups@[1]));
        return text::copy_option(&groups[1]);
    }
    None
}

/// The address of the description of a resource in a challenge.
pub fn resource_metadata(challenge: &str) -> (result: Option<String>)
    ensures
        text::view_of(result) == metadata_of(challenge@),
{
    let pieces = cut(challenge);
    let ghost all = text::views(pieces@);
    let mut scheme = "".to_owned();
    let mut index: usize = 0;
    while index < pieces.len()
        invariant
            index <= pieces.len(),
            all == text::views(pieces@),
            metadata_of(challenge@) == metadata_from(all, index as int, scheme@),
        decreases pieces.len() - index,
    {
        assert(all[index as int] == pieces@[index as int]@);
        let trimmed = text::trim(&pieces[index]);
        if !trimmed.is_empty() {
            let (given, parameters) = piece(&trimmed);
            if let Some(given) = given {
                scheme = given;
            }
            if text::same_ignoring_case(&scheme, "bearer") {
                if let Some(groups) = pattern::groups_in(PARAMETER, &parameters) {
                    return group_found(groups);
                }
            }
        }
        index = index + 1;
    }
    None
}

/// The values that are text, with commas between them.
pub open spec fn shown_of(values: Seq<Seq<u8>>) -> Seq<Seq<char>>
    decreases values.len(),
{
    if values.len() == 0 {
        Seq::empty()
    } else {
        let before = shown_of(values.drop_last());
        match ascii_text(values.last()) {
            Some(value) => before.push(value),
            None => before,
        }
    }
}

/// The challenge of an answer: its values that are text, with commas between them.
pub open spec fn challenge_of(entries: Map<Seq<char>, Seq<Seq<u8>>>) -> Seq<char> {
    text::joined(shown_of(header::values_in(entries, "www-authenticate"@)), ", "@)
}

fn challenge(headers: &Headers) -> (result: String)
    ensures
        result@ == challenge_of(header_entries(*headers)),
{
    proof {
        reveal_strlit("www-authenticate");
    }
    assert(text::lowercase_of("www-authenticate"@) =~= "www-authenticate"@);
    let values = header::values(headers, "www-authenticate");
    let ghost all = header::byte_views(values@);
    let mut shown: Vec<String> = Vec::new();
    let mut index: usize = 0;
    assert(text::views(shown@) =~= shown_of(all.take(0)));
    while index < values.len()
        invariant
            index <= values.len(),
            all == header::byte_views(values@),
            text::views(shown@) == shown_of(all.take(index as int)),
        decreases values.len() - index,
    {
        proof {
            assert(all[index as int] == values@[index as int]@);
            assert(all.take(index + 1).drop_last() == all.take(index as int));
            assert(all.take(index + 1).last() == values@[index as int]@);
        }
        if let Some(value) = header::ascii(&values[index]) {
            assert(text::views(shown@.push(value)) =~= text::views(shown@).push(value@));
            shown.push(value);
        }
        index = index + 1;
    }
    assert(all.take(all.len() as int) == all);
    text::join(&shown, ", ")
}

/// The URL of the description of a resource that an answer names.
pub open spec fn advertised_of(status: u16, entries: Map<Seq<char>, Seq<Seq<u8>>>) -> Option<Parts> {
    if status != 401 {
        None
    } else {
        match metadata_of(challenge_of(entries)) {
            Some(raw) => web_of(raw),
            None => None,
        }
    }
}

/// The URL of the description of a resource that an answer names.
pub fn advertised(status: u16, headers: &Headers) -> (result: Option<Address>)
    ensures
        address::parts_of(result) == advertised_of(status, header_entries(*headers)),
{
    if status != 401 {
        return None;
    }
    match resource_metadata(&challenge(headers)) {
        Some(raw) => web(&raw),
        None => None,
    }
}

/// The path at which resources are described.
pub const RESOURCE: &'static str = "/.well-known/oauth-protected-resource";

/// A text without slashes around it.
pub open spec fn unslashed(value: Seq<char>) -> Seq<char> {
    text::trim_end_char_of(text::trim_start_char_of(value, '/'), '/')
}

fn unslash(value: &str) -> (result: String)
    ensures
        result@ == unslashed(value@),
{
    text::trim_end_char(&text::trim_start_char(value, '/'), '/')
}

/// The path at which the resource of a path is described.
pub open spec fn resource_path(suffix: Seq<char>) -> Seq<char> {
    if ".well-known/oauth-protected-resource"@.is_prefix_of(suffix) {
        "/"@ + suffix
    } else {
        RESOURCE@ + "/"@ + suffix
    }
}

/// The URL as it is, where there is one.
pub open spec fn some_of(value: Option<Seq<char>>) -> Seq<Seq<char>> {
    match value {
        Some(url) => seq![url],
        None => Seq::empty(),
    }
}

/// The URLs at which the resource of a URL may be described, in the order in which they are asked.
pub open spec fn candidates_of(url: Parts, advertised: Option<Seq<char>>) -> Seq<Seq<char>> {
    let suffix = unslashed(url.path);
    let own = if suffix.len() == 0 {
        Seq::empty()
    } else {
        some_of(url_bare(url.text, resource_path(suffix)))
    };
    text::distinct_of(some_of(advertised) + own + some_of(url_bare(url.text, RESOURCE@)))
}

fn push_some(items: &mut Vec<String>, value: Option<String>)
    ensures
        text::views(final(items)@) == text::views(old(items)@) + some_of(text::view_of(value)),
{
    if let Some(value) = value {
        items.push(value);
    }
    assert(text::views(items@) =~= text::views(old(items)@) + some_of(text::view_of(value)));
}

/// Whether a URL is the advertised one, or carries no credentials, no query and no fragment of another one.
pub open spec fn is_candidate(
    value: Seq<char>,
    advertised: Option<Seq<char>>,
    base: Seq<char>,
) -> bool {
    advertised == Some(value) || (is_web(base) ==> is_bare(value, base))
}

/// The URLs at which the resource of a URL may be described, in the order in which they are asked. Of
/// those that are made up, none carries credentials, a query or a fragment of the URL.
pub fn candidates(url: &Address, advertised: &Option<String>) -> (result: Vec<String>)
    ensures
        text::views(result@) == candidates_of(url.parts(), text::view_of(*advertised)),
        forall|i: int|
            0 <= i < result@.len() ==> is_candidate(
                (#[trigger] result@[i])@,
                text::view_of(*advertised),
                url.text@,
            ),
{
    let mut all: Vec<String> = Vec::new();
    assert(text::views(all@) =~= Seq::<Seq<char>>::empty());
    push_some(&mut all, text::copy_option(advertised));
    let suffix = unslash(&url.path);
    let ghost told = text::view_of(*advertised);
    let ghost before = text::views(all@);
    assert(before =~= some_of(told));
    if !suffix.is_empty() {
        let path = if text::starts_with(&suffix, ".well-known/oauth-protected-resource") {
            text::cat("/", &suffix)
        } else {
            text::cat3(RESOURCE, "/", &suffix)
        };
        push_some(&mut all, address::bare(&url.text, &path));
    } else {
        assert(before + Seq::<Seq<char>>::empty() =~= before);
    }
    let ghost middle = text::views(all@);
    assert(forall|i: int| 0 <= i < middle.len() ==> is_candidate(#[trigger] middle[i], told, url.text@));
    push_some(&mut all, address::bare(&url.text, RESOURCE));
    let ghost found = text::views(all@);
    assert(forall|i: int| 0 <= i < found.len() ==> is_candidate(#[trigger] found[i], told, url.text@));
    let result = text::distinct(&all);
    proof {
        text::lemma_distinct(found);
        let kept = text::views(result@);
        assert forall|i: int| 0 <= i < result@.len() implies is_candidate(
            (#[trigger] result@[i])@,
            told,
            url.text@,
        ) by {
            assert(kept[i] == result@[i]@);
            assert(kept.contains(kept[i]));
            let at = choose|at: int| 0 <= at < found.len() && found[at] == kept[i];
            assert(is_candidate(found[at], told, url.text@));
        }
    }
    result
}

/// The references to where the server of an issuer may be described.
pub open spec fn references_of(path: Seq<char>) -> Seq<Seq<char>> {
    if path.len() == 0 {
        seq![
            "/.well-known/"@ + "oauth-authorization-server"@,
            "/.well-known/"@ + "openid-configuration"@,
        ]
    } else {
        seq![
            "/"@ + path + "/.well-known/"@ + "oauth-authorization-server"@,
            "/.well-known/"@ + "oauth-authorization-server"@ + "/"@ + path,
            "/"@ + path + "/.well-known/"@ + "openid-configuration"@,
            "/.well-known/"@ + "openid-configuration"@ + "/"@ + path,
        ]
    }
}

fn references(path: &str) -> (result: Vec<String>)
    ensures
        text::views(result@) == references_of(path@),
{
    let first = "oauth-authorization-server";
    let second = "openid-configuration";
    let mut result: Vec<String> = Vec::new();
    if path.is_empty() {
        result.push(text::cat("/.well-known/", first));
        result.push(text::cat("/.well-known/", second));
    } else {
        result.push(text::cat(&text::cat3("/", path, "/.well-known/"), first));
        result.push(text::cat(&text::cat3("/.well-known/", first, "/"), path));
        result.push(text::cat(&text::cat3("/", path, "/.well-known/"), second));
        result.push(text::cat(&text::cat3("/.well-known/", second, "/"), path));
    }
    assert(text::views(result@) =~= references_of(path@));
    result
}

/// The URLs of the first references against a base, or why one is none.
pub open spec fn joins_of(base: Seq<char>, references: Seq<Seq<char>>, count: int) -> Result<
    Seq<Seq<char>>,
    Seq<char>,
>
    decreases count,
{
    if count <= 0 {
        Ok(Seq::empty())
    } else {
        match joins_of(base, references, count - 1) {
            Err(reason) => Err(reason),
            Ok(before) => match joined_url(base, references[count - 1]) {
                Err(reason) => Err(reason),
                Ok(url) => Ok(before.push(url)),
            },
        }
    }
}

proof fn lemma_joins_fail(base: Seq<char>, references: Seq<Seq<char>>, at: int, count: int)
    requires
        0 <= at <= count,
        joins_of(base, references, at) is Err,
    ensures
        joins_of(base, references, count) == joins_of(base, references, at),
    decreases count - at,
{
    if at < count {
        lemma_joins_fail(base, references, at, count - 1);
    }
}

/// The URLs at which the server of an issuer may be described, in the order in which they are asked.
pub fn authorization_candidates(issuer: &Address) -> (result: Result<Vec<String>, String>)
    ensures
        ({
            let references = references_of(unslashed(issuer.path@));
            match (
                result,
                joins_of(issuer.text@, references, references.len() as int),
            ) {
                (Ok(urls), Ok(expected)) => text::views(urls@) == text::distinct_of(expected),
                (Err(reason), Err(expected)) => reason@ == expected,
                _ => false,
            }
        }),
{
    let items = references(&unslash(&issuer.path));
    let ghost all = text::views(items@);
    let mut urls: Vec<String> = Vec::new();
    let mut index: usize = 0;
    assert(text::views(urls@) =~= Seq::<Seq<char>>::empty());
    while index < items.len()
        invariant
            index <= items.len(),
            all == text::views(items@),
            all.len() == items@.len(),
            all == references_of(unslashed(issuer.path@)),
            joins_of(issuer.text@, all, index as int) == Ok::<Seq<Seq<char>>, Seq<char>>(
                text::views(urls@),
            ),
        decreases items.len() - index,
    {
        assert(all[index as int] == items@[index as int]@);
        match address::join(&issuer.text, &items[index]) {
            Ok(url) => {
                assert(text::views(urls@.push(url)) =~= text::views(urls@).push(url@));
                urls.push(url);
            },
            Err(reason) => {
                proof {
                    lemma_joins_fail(issuer.text@, all, index + 1, all.len() as int);
                }
                return Err(reason);
            },
        }
        index = index + 1;
    }
    Ok(text::distinct(&urls))
}

/// The issuer that a description of a resource names first.
pub open spec fn issuer_of(doc: Doc) -> Option<Seq<char>> {
    match doc.at("authorization_servers"@) {
        Doc::List(items) => if items.len() > 0 {
            items[0].text()
        } else {
            None
        },
        _ => None,
    }
}

/// The issuer that a description of a resource names first.
pub fn issuer(value: &Json) -> (result: Option<String>)
    ensures
        text::view_of(result) == issuer_of(value.doc()),
{
    match value.get("authorization_servers") {
        Some(Json::List(items)) => {
            proof {
                json::lemma_docs(items@);
            }
            if items.len() > 0 {
                assert(json::docs(items@)[0] == items@[0].doc());
                match &items[0] {
                    Json::Text(issuer) => Some(issuer.clone()),
                    _ => None,
                }
            } else {
                None
            }
        },
        _ => None,
    }
}

/// What is learned from a description of a resource.
pub open spec fn resource_records(url: Seq<char>, doc: Doc) -> Seq<RecordView> {
    let resource = match doc.at("resource"@).text() {
        Some(raw) => seq![RecordView::of(raw, "prmd-resource"@, "PRMD resource"@)],
        None => Seq::empty(),
    };
    let server = match issuer_of(doc) {
        Some(raw) => seq![
            RecordView::of(raw, "prmd-auth-server"@, "PRMD authorization server"@).grouped(
                auth_group_of(url),
            ),
        ],
        None => Seq::empty(),
    };
    resource + server + seq![RecordView::of(url, "prmd-source"@, "PRMD source URL"@)]
}

/// An address that is learned from an entry of a description of a server.
pub open spec fn entry_record(
    doc: Doc,
    key: Seq<char>,
    role: Seq<char>,
    description: Seq<char>,
    group: Seq<char>,
) -> Seq<RecordView> {
    match doc.at(key).text() {
        Some(raw) => seq![RecordView::of(raw, role, description).grouped(group)],
        None => Seq::empty(),
    }
}

/// What is learned from a description of a server.
pub open spec fn server_records(url: Seq<char>, doc: Doc, group: Seq<char>) -> Seq<RecordView> {
    seq![
        RecordView::of(url, "auth-server-metadata"@, "Auth server metadata URL"@).grouped(group),
    ] + entry_record(doc, "issuer"@, "issuer"@, "Auth server issuer"@, group) + entry_record(
        doc,
        "token_endpoint"@,
        "token-endpoint"@,
        "Auth server token endpoint"@,
        group,
    ) + entry_record(doc, "jwks_uri"@, "jwks-uri"@, "Auth server JWKS URI"@, group) + entry_record(
        doc,
        "introspection_endpoint"@,
        "introspection-endpoint"@,
        "Auth server introspection endpoint"@,
        group,
    ) + entry_record(
        doc,
        "registration_endpoint"@,
        "registration-endpoint"@,
        "Auth server registration endpoint"@,
        group,
    ) + entry_record(
        doc,
        "revocation_endpoint"@,
        "revocation-endpoint"@,
        "Auth server revocation endpoint"@,
        group,
    )
}

/// The contents of addresses that were learned.
pub open spec fn record_views(items: Seq<Record>) -> Seq<RecordView> {
    items.map_values(|item: Record| item@)
}

fn push_record(items: &mut Vec<Record>, item: Record)
    ensures
        record_views(final(items)@) == record_views(old(items)@) + seq![item@],
{
    items.push(item);
    assert(record_views(items@) =~= record_views(old(items)@) + seq![item@]);
}

fn push_entry(
    items: &mut Vec<Record>,
    value: &Json,
    key: &str,
    role: &str,
    description: &str,
    group: &str,
)
    ensures
        record_views(final(items)@) == record_views(old(items)@) + entry_record(
            value.doc(),
            key@,
            role@,
            description@,
            group@,
        ),
{
    match value.get_text(key) {
        Some(raw) => push_record(items, Record::new(&raw, role, description).group(group)),
        None => {
            assert(record_views(items@) =~= record_views(old(items)@) + Seq::<RecordView>::empty());
        },
    }
}

/// What is learned from the description of a resource, and from that of its server.
pub open spec fn records_of(
    url: Seq<char>,
    doc: Doc,
    server: Option<(Seq<char>, Doc)>,
) -> Seq<RecordView> {
    resource_records(url, doc) + match server {
        Some((place, inner)) => server_records(place, inner, auth_group_of(url)),
        None => Seq::empty(),
    }
}

/// What a description says, and where.
pub open spec fn described(document: Option<Document>) -> Option<(Seq<char>, Doc)> {
    match document {
        Some(document) => Some((document.url@, document.value.doc())),
        None => None,
    }
}

fn learned_here(url: &str, value: &Json, group: &str) -> (result: Vec<Record>)
    requires
        group@ == auth_group_of(url@),
    ensures
        record_views(result@) == resource_records(url@, value.doc()),
{
    let mut items: Vec<Record> = Vec::new();
    assert(record_views(items@) =~= Seq::<RecordView>::empty());
    if let Some(raw) = value.get_text("resource") {
        push_record(&mut items, Record::new(&raw, "prmd-resource", "PRMD resource"));
    }
    let ghost first = record_views(items@);
    if let Some(raw) = issuer(value) {
        push_record(
            &mut items,
            Record::new(&raw, "prmd-auth-server", "PRMD authorization server").group(group),
        );
    } else {
        assert(first + Seq::<RecordView>::empty() =~= first);
    }
    push_record(&mut items, Record::new(url, "prmd-source", "PRMD source URL"));
    assert(record_views(items@) =~= resource_records(url@, value.doc()));
    items
}

fn learn_server(items: &mut Vec<Record>, url: &str, value: &Json, group: &str)
    ensures
        record_views(final(items)@) == record_views(old(items)@) + server_records(
            url@,
            value.doc(),
            group@,
        ),
{
    push_record(
        items,
        Record::new(url, "auth-server-metadata", "Auth server metadata URL").group(group),
    );
    push_entry(items, value, "issuer", "issuer", "Auth server issuer", group);
    push_entry(
        items,
        value,
        "token_endpoint",
        "token-endpoint",
        "Auth server token endpoint",
        group,
    );
    push_entry(items, value, "jwks_uri", "jwks-uri", "Auth server JWKS URI", group);
    push_entry(
        items,
        value,
        "introspection_endpoint",
        "introspection-endpoint",
        "Auth server introspection endpoint",
        group,
    );
    push_entry(
        items,
        value,
        "registration_endpoint",
        "registration-endpoint",
        "Auth server registration endpoint",
        group,
    );
    push_entry(
        items,
        value,
        "revocation_endpoint",
        "revocation-endpoint",
        "Auth server revocation endpoint",
        group,
    );
    assert(record_views(items@) =~= record_views(old(items)@) + server_records(
        url@,
        value.doc(),
        group@,
    ));
}

/// What is learned from the description of a resource, and from that of its server.
pub fn records(resource: &Document, server: &Option<Document>) -> (result: Vec<Record>)
    ensures
        record_views(result@) == records_of(
            resource.url@,
            resource.value.doc(),
            described(*server),
        ),
{
    let group = auth_group(&resource.url);
    let mut items = learned_here(&resource.url, &resource.value, &group);
    match server {
        Some(server) => learn_server(&mut items, &server.url, &server.value, &group),
        None => {
            assert(record_views(items@) + Seq::<RecordView>::empty() =~= record_views(items@));
        },
    }
    items
}

/// Whether an address that was learned shows that the server speaks for its own origin.
pub open spec fn vouches(record: RecordView, url: Parts) -> bool {
    (record.role == "prmd-resource"@ || record.role == "prmd-source"@) && match web_of(record.raw) {
        Some(parts) => same_origin(parts, url),
        None => false,
    }
}

/// Whether the server speaks for its own origin.
pub open spec fn trusts(records: Seq<RecordView>, url: Parts) -> bool {
    exists|i: int| 0 <= i < records.len() && vouches(#[trigger] records[i], url)
}

/// Whether the server speaks for its own origin.
pub fn trusted(records: &Vec<Record>, url: &Address) -> (result: bool)
    ensures
        result == trusts(record_views(records@), url.parts()),
{
    let ghost all = record_views(records@);
    let mut index: usize = 0;
    while index < records.len()
        invariant
            index <= records.len(),
            all == record_views(records@),
            forall|i: int| 0 <= i < index ==> !vouches(#[trigger] all[i], url.parts()),
        decreases records.len() - index,
    {
        assert(all[index as int] == records@[index as int]@);
        let record = &records[index];
        if text::same(&record.role, "prmd-resource") || text::same(&record.role, "prmd-source") {
            if let Some(parts) = web(&record.raw) {
                if one_origin(&parts, url) {
                    return true;
                }
            }
        }
        index = index + 1;
    }
    false
}

/// The tags of an address that was learned.
pub open spec fn record_tags(record: RecordView) -> Seq<Seq<char>> {
    match record.group {
        Some(group) => tags_for(record.role).push("group="@ + group),
        None => tags_for(record.role),
    }
}

fn all_tags(record: &Record) -> (result: Vec<String>)
    ensures
        text::views(result@) == record_tags(record@),
{
    let mut tags = role_tags(&record.role);
    if let Some(group) = &record.group {
        let tag = text::cat("group=", group);
        assert(text::views(tags@.push(tag)) =~= text::views(tags@).push(tag@));
        tags.push(tag);
    }
    tags
}

/// The base of the label of an address that was learned.
pub open spec fn label_base(record: RecordView) -> Seq<char> {
    "oauth-"@ + record.role + "-"@ + text::decimal_of(record.index as nat)
}

/// Whether a target is that of an address that was learned.
pub open spec fn is_learned(target: Target, record: RecordView, label: Seq<char>, socket: Option<Seq<char>>) -> bool {
    &&& target.info.label@ == label
    &&& target.info.description@ == record.description
    &&& target.info.category@ == "oauth"@
    &&& target.info.source@ == "oauth"@
    &&& text::views(target.info.tags@) == record_tags(record)
    &&& text::views(target.info.allowed_methods@) == seq!["GET"@, "POST"@, "PUT"@]
    &&& target.info.template_version is None
    &&& target.info.parameters_schema is None
    &&& target.info.invocation is None
    &&& Some(target.url.parts()) == web_of(record.raw)
    &&& target.original_url@ == record.raw
    &&& text::view_of(target.unix_socket) == socket
    &&& target.template is None
}

impl Harpoon {
    /// Whether an address that was learned may be called: it has the origin of the server, and the
    /// server speaks for it, or it is private.
    pub open spec fn learns(self, record: RecordView, url: Parts, trusted: bool) -> bool {
        match web_of(record.raw) {
            Some(parts) => same_origin(parts, url) && (trusted || self.is_private(parts)),
            None => false,
        }
    }

    /// The target of an address that was learned, or why it has none; nothing where it may not be
    /// called.
    pub fn learned(&self, record: &Record, url: &Address, trusted: bool, socket: &Option<String>) -> (result:
        Result<Option<Target>, String>)
        requires
            self.wf(),
        ensures
            ({
                let free = self.free_from(label_base(record@), 0);
                match result {
                    Ok(None) => !self.learns(record@, url.parts(), trusted),
                    Ok(Some(target)) => self.learns(record@, url.parts(), trusted) && free is Some
                        && is_learned(target, record@, free->Some_0, text::view_of(*socket)),
                    Err(reason) => self.learns(record@, url.parts(), trusted) && free is None
                        && reason@ == "Harpoon target label namespace is exhausted"@,
                }
            }),
    {
        let parts = match web(&record.raw) {
            Some(parts) => parts,
            None => {
                return Ok(None);
            },
        };
        if !one_origin(&parts, url) || (!trusted && !self.private(&parts)) {
            return Ok(None);
        }
        let base = text::cat(
            &text::cat3("oauth-", &record.role, "-"),
            &text::decimal(record.index as u64),
        );
        assert(base@ == label_base(record@));
        let label = match self.label(&base) {
            Ok(label) => label,
            Err(reason) => {
                return Err(reason);
            },
        };
        let mut methods: Vec<String> = Vec::new();
        methods.push("GET".to_owned());
        methods.push("POST".to_owned());
        methods.push("PUT".to_owned());
        assert(text::views(methods@) =~= seq!["GET"@, "POST"@, "PUT"@]);
        let info = TargetInfo {
            label,
            description: record.description.clone(),
            category: "oauth".to_owned(),
            source: "oauth".to_owned(),
            tags: all_tags(record),
            allowed_methods: methods,
            template_version: None,
            parameters_schema: None,
            invocation: None,
        };
        Ok(
            Some(
                Target {
                    info,
                    url: parts,
                    original_url: record.raw.clone(),
                    unix_socket: text::copy_option(socket),
                    template: None,
                },
            ),
        )
    }
}

/// What is answered to a question about the authorization of a server.
pub fn reply(resource: Document) -> (result: Reply)
    ensures
        text::view_of(result.message) == Some(json::json_text(resource.value.doc())),
        lists_of(result.headers@) == passed(header_entries(resource.headers), true),
        result.status == resource.status,
        result.kind@ == "oauth_discovery_response"@,
{
    let headers = protocol::wire_headers(&resource.headers, true);
    Reply {
        message: Some(json::write(resource.value)),
        headers,
        status: resource.status,
        kind: "oauth_discovery_response".to_owned(),
    }
}

/// No address of another origin than that of the server is ever learned.
pub proof fn lemma_learned_near(harpoon: Harpoon, record: RecordView, url: Parts, trusted: bool)
    requires
        harpoon.learns(record, url, trusted),
    ensures
        web_of(record.raw) is Some,
        same_origin(web_of(record.raw)->Some_0, url),
{
}

proof fn lemma_joins(base: Seq<char>, references: Seq<Seq<char>>, count: int, at: int)
    requires
        0 <= at < count <= references.len(),
        joins_of(base, references, count) is Ok,
    ensures
        joined_url(base, references[at]) is Ok,
        joins_of(base, references, count)->Ok_0.len() == count,
        joins_of(base, references, count)->Ok_0[at] == joined_url(base, references[at])->Ok_0,
    decreases count,
{
    if at < count - 1 {
        lemma_joins(base, references, count - 1, at);
    } else if count > 1 {
        lemma_joins(base, references, count - 1, 0);
    }
}

proof fn lemma_distinct_first(items: Seq<Seq<char>>)
    requires
        items.len() > 0,
    ensures
        text::distinct_of(items).len() > 0,
        text::distinct_of(items)[0] == items[0],
    decreases items.len(),
{
    if items.len() > 1 {
        lemma_distinct_first(items.drop_last());
    } else {
        assert(text::distinct_of(items.drop_last()).len() == 0);
    }
}

proof fn lemma_unslashed(path: Seq<char>)
    ensures
        unslashed(Seq::empty()).len() == 0,
        unslashed("/"@).len() == 0,
        path.len() > 0 && path[0] != '/' && path.last() != '/' ==> unslashed("/"@ + path) == path && unslashed(
            "/"@ + path + "/"@,
        ) == path,
{
    reveal_strlit("/");
    reveal_with_fuel(text::trim_start_char_of, 3);
    reveal_with_fuel(text::trim_end_char_of, 3);
    let one = "/"@;
    assert(one.skip(1) =~= Seq::<char>::empty());
    let empty = Seq::<char>::empty();
    assert(text::trim_start_char_of(one, '/') == text::trim_start_char_of(one.skip(1), '/'));
    if path.len() > 0 && path[0] != '/' && path.last() != '/' {
        let front = one + path;
        assert(front[0] == '/');
        assert(front.skip(1) =~= path);
        assert(text::trim_start_char_of(path, '/') == path);
        assert(text::trim_end_char_of(path, '/') == path);
        let both = front + one;
        assert(both[0] == '/');
        assert(both.skip(1) =~= path + one);
        assert((path + one)[0] == path[0]);
        assert(text::trim_start_char_of(path + one, '/') == path + one);
        assert((path + one).last() == '/');
        assert((path + one).drop_last() =~= path);
    }
}

/// The server of an issuer is asked for its OAuth description and for its OpenID one, at the root of its origin; the
/// former comes first.
pub proof fn lemma_issuer_asked(issuer: Address, urls: Seq<Seq<char>>)
    requires
        issuer.path@.len() == 0 || issuer.path@ == "/"@,
        joins_of(
            issuer.text@,
            references_of(unslashed(issuer.path@)),
            references_of(unslashed(issuer.path@)).len() as int,
        ) is Ok,
        urls == text::distinct_of(
            joins_of(
                issuer.text@,
                references_of(unslashed(issuer.path@)),
                references_of(unslashed(issuer.path@)).len() as int,
            )->Ok_0,
        ),
    ensures
        joined_url(issuer.text@, "/.well-known/"@ + "oauth-authorization-server"@) is Ok,
        joined_url(issuer.text@, "/.well-known/"@ + "openid-configuration"@) is Ok,
        urls.len() > 0,
        urls[0] == joined_url(issuer.text@, "/.well-known/"@ + "oauth-authorization-server"@)->Ok_0,
        urls.contains(joined_url(issuer.text@, "/.well-known/"@ + "openid-configuration"@)->Ok_0),
{
    lemma_unslashed(Seq::empty());
    if issuer.path@.len() == 0 {
        assert(issuer.path@ =~= Seq::<char>::empty());
    }
    let references = references_of(unslashed(issuer.path@));
    let joins = joins_of(issuer.text@, references, references.len() as int)->Ok_0;
    let first = "/.well-known/"@ + "oauth-authorization-server"@;
    let second = "/.well-known/"@ + "openid-configuration"@;
    assert(references[0] == first);
    lemma_joins(issuer.text@, references, references.len() as int, 0);
    lemma_distinct_first(joins);
    text::lemma_distinct(joins);
    assert(references[1] == second);
    lemma_joins(issuer.text@, references, references.len() as int, 1);
    assert(joins.contains(joins[1]));
}

/// The server of an issuer with a path is asked for both descriptions, each with the path in front and behind; the
/// OAuth one comes first.
pub proof fn lemma_issuer_path_asked(issuer: Address, path: Seq<char>, urls: Seq<Seq<char>>)
    requires
        path.len() > 0,
        path[0] != '/',
        path.last() != '/',
        issuer.path@ == "/"@ + path || issuer.path@ == "/"@ + path + "/"@,
        joins_of(
            issuer.text@,
            references_of(unslashed(issuer.path@)),
            references_of(unslashed(issuer.path@)).len() as int,
        ) is Ok,
        urls == text::distinct_of(
            joins_of(
                issuer.text@,
                references_of(unslashed(issuer.path@)),
                references_of(unslashed(issuer.path@)).len() as int,
            )->Ok_0,
        ),
    ensures
        urls.len() > 0,
        joined_url(
            issuer.text@,
            "/"@ + path + "/.well-known/"@ + "oauth-authorization-server"@,
        ) == Ok::<Seq<char>, Seq<char>>(urls[0]),
        joined_url(
            issuer.text@,
            "/.well-known/"@ + "oauth-authorization-server"@ + "/"@ + path,
        ) matches Ok(url) && urls.contains(url),
        joined_url(
            issuer.text@,
            "/"@ + path + "/.well-known/"@ + "openid-configuration"@,
        ) matches Ok(url) && urls.contains(url),
        joined_url(
            issuer.text@,
            "/.well-known/"@ + "openid-configuration"@ + "/"@ + path,
        ) matches Ok(url) && urls.contains(url),
{
    lemma_unslashed(path);
    let references = references_of(unslashed(issuer.path@));
    let count = references.len() as int;
    let joins = joins_of(issuer.text@, references, count)->Ok_0;
    assert(references[0] == "/"@ + path + "/.well-known/"@ + "oauth-authorization-server"@);
    lemma_joins(issuer.text@, references, count, 0);
    lemma_distinct_first(joins);
    text::lemma_distinct(joins);
    assert(references[1] == "/.well-known/"@ + "oauth-authorization-server"@ + "/"@ + path);
    lemma_joins(issuer.text@, references, count, 1);
    assert(joins.contains(joins[1]));
    assert(references[2] == "/"@ + path + "/.well-known/"@ + "openid-configuration"@);
    lemma_joins(issuer.text@, references, count, 2);
    assert(joins.contains(joins[2]));
    assert(references[3] == "/.well-known/"@ + "openid-configuration"@ + "/"@ + path);
    lemma_joins(issuer.text@, references, count, 3);
    assert(joins.contains(joins[3]));
}

/// A resource is asked for first where the server says so, then with its own path behind the well-known one, and at
/// last at the root of its origin.
pub proof fn lemma_resource_asked(url: Parts, advertised: Option<Seq<char>>, path: Seq<char>)
    requires
        url.path == "/"@ + path,
        path.len() == 0 || (path[0] != '/' && path.last() != '/'),
    ensures
        advertised matches Some(told) ==> candidates_of(url, advertised).len() > 0 && candidates_of(
            url,
            advertised,
        )[0] == told,
        url_bare(url.text, "/.well-known/oauth-protected-resource"@) matches Some(root)
            ==> candidates_of(url, advertised).contains(root),
        path.len() > 0 && !".well-known/oauth-protected-resource"@.is_prefix_of(path) ==> (url_bare(
            url.text,
            "/.well-known/oauth-protected-resource"@ + "/"@ + path,
        ) matches Some(own) ==> candidates_of(url, advertised).contains(own)),
        path.len() == 0 && advertised is None ==> candidates_of(url, advertised).len() <= 1,
{
    lemma_unslashed(path);
    assert("/"@ + Seq::<char>::empty() =~= "/"@);
    if path.len() == 0 {
        assert(path =~= Seq::<char>::empty());
    }
    let suffix = unslashed(url.path);
    let own = if suffix.len() == 0 {
        Seq::empty()
    } else {
        some_of(url_bare(url.text, resource_path(suffix)))
    };
    let root = some_of(url_bare(url.text, RESOURCE@));
    let all = some_of(advertised) + own + root;
    text::lemma_distinct(all);
    if advertised is Some {
        assert(all[0] == advertised->0);
        lemma_distinct_first(all);
    }
    if url_bare(url.text, RESOURCE@) is Some {
        assert(all.last() == url_bare(url.text, RESOURCE@)->0);
        assert(all.contains(all[all.len() - 1]));
    }
    if path.len() > 0 && url_bare(url.text, resource_path(path)) is Some {
        let at = some_of(advertised).len() as int;
        assert(all[at] == url_bare(url.text, resource_path(path))->0);
        assert(all.contains(all[at]));
    }
    if path.len() == 0 && advertised is None {
        assert(all =~= root);
        reveal_with_fuel(text::distinct_of, 3);
    }
}

/// Only an answer that asks for authorization tells where the resource is described.
pub proof fn lemma_only_unauthorized(status: u16, entries: Map<Seq<char>, Seq<Seq<u8>>>)
    ensures
        status != 401 ==> advertised_of(status, entries) is None,
        status == 401 ==> (metadata_of(challenge_of(entries)) matches Some(raw) ==> advertised_of(
            status,
            entries,
        ) == web_of(raw)),
        !entries.dom().contains("www-authenticate"@) ==> challenge_of(entries).len() == 0,
{
}

proof fn lemma_uncut(value: Seq<char>, at: int)
    requires
        0 <= at <= value.len(),
        !value.contains(','),
        !value.contains('"'),
    ensures
        cut_of(value, at, 0, false, false) == seq![value],
    decreases value.len() - at,
{
    if at < value.len() {
        assert(value[at] != ',' && value[at] != '"');
        lemma_uncut(value, at + 1);
    } else {
        assert(value.subrange(0, value.len() as int) =~= value);
    }
}

/// A bearer challenge tells where the resource is described by its parameter, whatever the case of the scheme; a
/// challenge of another scheme tells nothing.
pub proof fn lemma_bearer_only(challenge: Seq<char>, scheme: Seq<char>, parameters: Seq<char>)
    requires
        !challenge.contains(','),
        !challenge.contains('"'),
        text::trim_of(challenge).len() > 0,
        piece_of(text::trim_of(challenge)) == (Some(scheme), parameters),
    ensures
        text::lowercase_of(scheme) == text::lowercase_of("bearer"@) ==> (match regex_groups(
            "(?i)(?:^|[\\s,])resource_metadata\\s*=\\s*(?:\"([^\"]*)\"|([^,\\s]+))"@,
            parameters,
        ) {
            Some(groups) => metadata_of(challenge) == group_of(groups),
            None => metadata_of(challenge) is None,
        }),
        text::lowercase_of(scheme) != text::lowercase_of("bearer"@) ==> metadata_of(challenge) is None,
{
    lemma_uncut(challenge, 0);
    reveal_with_fuel(metadata_from, 2);
    assert(seq![challenge][0] == challenge);
}

/// A scheme ends at the first white space, and a piece with an equals sign before that has none.
pub proof fn lemma_scheme_read(value: Seq<char>)
    ensures
        piece_of(value).0 matches Some(scheme) ==> !scheme.contains('='),
        piece_of(value).0 is None ==> piece_of(value).1 == value,
{
}

/// What is learned from a description of a resource: the resource and the first server where they are named, and
/// always where the description was.
pub proof fn lemma_resource_learned(url: Seq<char>, doc: Doc, server: Option<(Seq<char>, Doc)>)
    ensures
        records_of(url, doc, server).contains(RecordView::of(url, "prmd-source"@, "PRMD source URL"@)),
        doc.at("resource"@).text() matches Some(raw) ==> records_of(url, doc, server).contains(
            RecordView::of(raw, "prmd-resource"@, "PRMD resource"@),
        ),
        issuer_of(doc) matches Some(raw) ==> records_of(url, doc, server).contains(
            RecordView {
                raw,
                role: "prmd-auth-server"@,
                description: "PRMD authorization server"@,
                index: 0,
                group: Some(auth_group_of(url)),
            },
        ),
        server is None ==> records_of(url, doc, server).len() <= 3,
{
    let resource = match doc.at("resource"@).text() {
        Some(raw) => seq![RecordView::of(raw, "prmd-resource"@, "PRMD resource"@)],
        None => Seq::empty(),
    };
    let named = match issuer_of(doc) {
        Some(raw) => seq![
            RecordView::of(raw, "prmd-auth-server"@, "PRMD authorization server"@).grouped(
                auth_group_of(url),
            ),
        ],
        None => Seq::empty(),
    };
    let all = records_of(url, doc, server);
    let at = (resource.len() + named.len()) as int;
    assert(all[at] == RecordView::of(url, "prmd-source"@, "PRMD source URL"@));
    if doc.at("resource"@).text() is Some {
        assert(all[0] == resource[0]);
    }
    if issuer_of(doc) is Some {
        assert(all[resource.len() as int] == named[0]);
    }
}

/// What is learned from a description of a server: where it was, and each of its endpoints under its own role.
pub proof fn lemma_server_learned(url: Seq<char>, doc: Doc, group: Seq<char>, key: Seq<char>, role: Seq<char>, raw: Seq<char>)
    requires
        (key == "issuer"@ && role == "issuer"@) || (key == "token_endpoint"@ && role == "token-endpoint"@)
            || (key == "jwks_uri"@ && role == "jwks-uri"@) || (key == "introspection_endpoint"@ && role
            == "introspection-endpoint"@) || (key == "registration_endpoint"@ && role
            == "registration-endpoint"@) || (key == "revocation_endpoint"@ && role == "revocation-endpoint"@),
        doc.at(key).text() == Some(raw),
    ensures
        exists|i: int|
            0 <= i < server_records(url, doc, group).len() && (#[trigger] server_records(
                url,
                doc,
                group,
            )[i]).raw == raw && server_records(url, doc, group)[i].role == role && server_records(
                url,
                doc,
                group,
            )[i].group == Some(group),
        server_records(url, doc, group)[0].raw == url && server_records(url, doc, group)[0].role
            == "auth-server-metadata"@ && server_records(url, doc, group)[0].group == Some(group),
{
    let all = server_records(url, doc, group);
    let first = seq![
        RecordView::of(url, "auth-server-metadata"@, "Auth server metadata URL"@).grouped(group),
    ];
    let one = entry_record(doc, "issuer"@, "issuer"@, "Auth server issuer"@, group);
    let two = entry_record(
        doc,
        "token_endpoint"@,
        "token-endpoint"@,
        "Auth server token endpoint"@,
        group,
    );
    let three = entry_record(doc, "jwks_uri"@, "jwks-uri"@, "Auth server JWKS URI"@, group);
    let four = entry_record(
        doc,
        "introspection_endpoint"@,
        "introspection-endpoint"@,
        "Auth server introspection endpoint"@,
        group,
    );
    let five = entry_record(
        doc,
        "registration_endpoint"@,
        "registration-endpoint"@,
        "Auth server registration endpoint"@,
        group,
    );
    let six = entry_record(
        doc,
        "revocation_endpoint"@,
        "revocation-endpoint"@,
        "Auth server revocation endpoint"@,
        group,
    );
    let start = first.len() as int;
    let after_one = start + one.len();
    let after_two = after_one + two.len();
    let after_three = after_two + three.len();
    let after_four = after_three + four.len();
    let after_five = after_four + five.len();
    assert(all == first + one + two + three + four + five + six);
    assert(all[0] == first[0]);
    if key == "issuer"@ && role == "issuer"@ {
        assert(all[start] == one[0]);
    } else if key == "token_endpoint"@ && role == "token-endpoint"@ {
        assert(all[after_one] == two[0]);
    } else if key == "jwks_uri"@ && role == "jwks-uri"@ {
        assert(all[after_two] == three[0]);
    } else if key == "introspection_endpoint"@ && role == "introspection-endpoint"@ {
        assert(all[after_three] == four[0]);
    } else if key == "registration_endpoint"@ && role == "registration-endpoint"@ {
        assert(all[after_four] == five[0]);
    } else {
        assert(all[after_five] == six[0]);
    }
}

/// A server speaks for its origin only through a resource or a source of that origin; an address is learned only where
/// it has the origin of the server, and the server speaks for it or it is private.
pub proof fn lemma_learned_trusted(harpoon: Harpoon, records: Seq<RecordView>, url: Parts, at: int, record: RecordView)
    ensures
        0 <= at < records.len() && (records[at].role == "prmd-resource"@ || records[at].role
            == "prmd-source"@) && (web_of(records[at].raw) matches Some(parts) && same_origin(parts, url))
            ==> trusts(records, url),
        trusts(records, url) ==> exists|i: int|
            0 <= i < records.len() && ((#[trigger] records[i]).role == "prmd-resource"@ || records[i].role
                == "prmd-source"@) && web_of(records[i].raw) is Some && same_origin(
                web_of(records[i].raw)->0,
                url,
            ),
        harpoon.learns(record, url, false) ==> harpoon.is_private(web_of(record.raw)->0),
        harpoon.learns(record, url, true) <==> web_of(record.raw) is Some && same_origin(
            web_of(record.raw)->0,
            url,
        ),
{
    if trusts(records, url) {
        let i = choose|i: int| 0 <= i < records.len() && vouches(#[trigger] records[i], url);
        assert(vouches(records[i], url));
    }
    if 0 <= at < records.len() && vouches(records[at], url) {
        assert(trusts(records, url));
    }
}

/// The tags of what is learned tell what it was learned as, and with which server.
pub proof fn lemma_learned_tags(record: RecordView, group: Seq<char>)
    ensures
        record.role == "prmd-resource"@ ==> tags_for(record.role) == seq![
            "protected-resource-metadata"@,
            "resource"@,
        ],
        record.role == "prmd-auth-server"@ ==> tags_for(record.role) == seq![
            "authorization-server"@,
            "protected-resource-metadata"@,
        ],
        record.role == "prmd-source"@ ==> tags_for(record.role) == seq![
            "protected-resource-metadata"@,
            "source-url"@,
        ],
        record.role == "auth-server-metadata"@ ==> tags_for(record.role) == seq!["auth-server-metadata"@],
        record.role == "token-endpoint"@ ==> tags_for(record.role) == seq![
            "auth-server-metadata"@,
            "token-endpoint"@,
        ],
        record.role == "issuer"@ ==> tags_for(record.role) == seq!["auth-server-metadata"@, "issuer"@],
        record.group is None ==> record_tags(record) == tags_for(record.role),
        record.group == Some(group) ==> record_tags(record) == tags_for(record.role).push("group="@ + group),
        label_base(record) == "oauth-"@ + record.role + "-"@ + text::decimal_of(record.index as nat),
{
    reveal_strlit("prmd-resource");
    reveal_strlit("prmd-auth-server");
    reveal_strlit("prmd-source");
    reveal_strlit("auth-server-metadata");
    reveal_strlit("token-endpoint");
    reveal_strlit("issuer");
    assert("prmd-resource"@.len() == 13);
    assert("prmd-auth-server"@.len() == 16);
    assert("prmd-source"@.len() == 11);
    assert("auth-server-metadata"@.len() == 20);
    assert("token-endpoint"@.len() == 14);
    assert("issuer"@.len() == 6);
}

/// A target that is learned is one of its own kind, with every method, and leads where its record says.
pub proof fn lemma_learned_target(target: Target, record: RecordView, label: Seq<char>, socket: Option<Seq<char>>)
    requires
        is_learned(target, record, label, socket),
    ensures
        target.info.category@ == "oauth"@ && target.info.source@ == "oauth"@,
        target.original_url@ == record.raw,
        target.template is None,
        text::views(target.info.allowed_methods@) == seq!["GET"@, "POST"@, "PUT"@],
        web_of(record.raw) == Some(target.url.parts()),
        text::views(target.info.tags@) == record_tags(record),
{
}

/// A challenge is cut at commas outside quotes; a backslash in quotes keeps the next character.
pub proof fn lemma_challenge_cut(value: Seq<char>, at: int, start: int, quoted: bool)
    requires
        0 <= start <= at < value.len(),
    ensures
        value[at] == ',' && !quoted ==> cut_of(value, at, start, quoted, false) == seq![value.subrange(start, at)]
            + cut_of(value, at + 1, at + 1, false, false),
        value[at] == ',' && quoted ==> cut_of(value, at, start, quoted, false) == cut_of(
            value,
            at + 1,
            start,
            quoted,
            false,
        ),
        value[at] == '"' ==> cut_of(value, at, start, quoted, false) == cut_of(
            value,
            at + 1,
            start,
            !quoted,
            false,
        ),
        value[at] == '\\' && quoted ==> cut_of(value, at, start, quoted, false) == cut_of(
            value,
            at + 1,
            start,
            quoted,
            true,
        ),
        cut_of(value, at, start, quoted, true) == cut_of(value, at + 1, start, quoted, false),
{
}

/// All challenges that can be read are looked at as one.
pub proof fn lemma_challenges_joined(values: Seq<Seq<u8>>, last: Seq<u8>)
    ensures
        ascii_text(last) matches Some(value) ==> shown_of(values.push(last)) == shown_of(values).push(value),
        ascii_text(last) is None ==> shown_of(values.push(last)) == shown_of(values),
        shown_of(Seq::empty()).len() == 0,
{
    assert(values.push(last).drop_last() =~= values);
}

/// The group of what is learned of a server is named by where the resource was described.
pub proof fn lemma_group_named(source: Seq<char>)
    ensures
        auth_group_of(source) == "auth-server:"@ + digest::hex_of(
            digest::sha256_of(vstd::utf8::encode_utf8(source)),
        ).take(12) + ":0"@,
        "auth-server:"@.is_prefix_of(auth_group_of(source)),
{
    let whole = auth_group_of(source);
    assert(whole.subrange(0, "auth-server:"@.len() as int) =~= "auth-server:"@);
}

} // verus!
