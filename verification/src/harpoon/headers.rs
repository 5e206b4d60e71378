//! Which headers a caller may send to a target, and how they are written.

use vstd::prelude::*;
use crate::{header, protocol, table::Table, text};

verus! {

/// The user agent of outgoing requests.
pub const USER_AGENT: &'static str = "otunnel/0.1.0";

/// The names that callers may not send, and the empty name.
pub open spec fn is_blocked(name: Seq<char>) -> bool {
    ||| name.len() == 0
    ||| name == "accept-encoding"@
    ||| name == "cf-connecting-ip"@
    ||| name == "connection"@
    ||| name == "content-length"@
    ||| name == "cookie"@
    ||| name == "forwarded"@
    ||| name == "host"@
    ||| name == "keep-alive"@
    ||| name == "proxy-authenticate"@
    ||| name == "proxy-authorization"@
    ||| name == "proxy-connection"@
    ||| name == "te"@
    ||| name == "trailer"@
    ||| name == "transfer-encoding"@
    ||| name == "true-client-ip"@
    ||| name == "upgrade"@
    ||| name == "user-agent"@
    ||| name == "via"@
    ||| name == "x-client-ip"@
    ||| name == "x-cluster-client-ip"@
    ||| name == "x-custom-cf-witness-actor"@
    ||| name == "x-custom-cf-witness-authorization"@
    ||| name == "x-envoy-external-address"@
    ||| name == "x-forwarded-for"@
    ||| name == "x-forwarded-host"@
    ||| name == "x-forwarded-port"@
    ||| name == "x-forwarded-proto"@
    ||| name == "x-http-method"@
    ||| name == "x-http-method-override"@
    ||| name == "x-method-override"@
    ||| name == "x-openai-actor-authorization"@
    ||| name == "x-openai-authorization"@
    ||| name == "x-openai-authorization-error"@
    ||| name == "x-openai-internal-caller"@
    ||| name == "x-openai-skip-auth"@
    ||| name == "x-original-forwarded-for"@
    ||| name == "x-real-ip"@
    ||| name == "x-tunnel-traffic-source"@
}

/// Whether callers may not send the header.
pub fn blocked(name: &str) -> (result: bool)
    ensures
        result == is_blocked(name@),
{
    name.is_empty() || text::same(name, "accept-encoding") ||
        text::same(name, "cf-connecting-ip") ||
        text::same(name, "connection") ||
        text::same(name, "content-length") ||
        text::same(name, "cookie") ||
        text::same(name, "forwarded") ||
        text::same(name, "host") ||
        text::same(name, "keep-alive") ||
        text::same(name, "proxy-authenticate") ||
        text::same(name, "proxy-authorization") ||
        text::same(name, "proxy-connection") ||
        text::same(name, "te") ||
        text::same(name, "trailer") ||
        text::same(name, "transfer-encoding") ||
        text::same(name, "true-client-ip") ||
        text::same(name, "upgrade") ||
        text::same(name, "user-agent") ||
        text::same(name, "via") ||
        text::same(name, "x-client-ip") ||
        text::same(name, "x-cluster-client-ip") ||
        text::same(name, "x-custom-cf-witness-actor") ||
        text::same(name, "x-custom-cf-witness-authorization") ||
        text::same(name, "x-envoy-external-address") ||
        text::same(name, "x-forwarded-for") ||
        text::same(name, "x-forwarded-host") ||
        text::same(name, "x-forwarded-port") ||
        text::same(name, "x-forwarded-proto") ||
        text::same(name, "x-http-method") ||
        text::same(name, "x-http-method-override") ||
        text::same(name, "x-method-override") ||
        text::same(name, "x-openai-actor-authorization") ||
        text::same(name, "x-openai-authorization") ||
        text::same(name, "x-openai-authorization-error") ||
        text::same(name, "x-openai-internal-caller") ||
        text::same(name, "x-openai-skip-auth") ||
        text::same(name, "x-original-forwarded-for") ||
        text::same(name, "x-real-ip") ||
        text::same(name, "x-tunnel-traffic-source")
}

/// The name as it is compared: trimmed and without capitals.
pub open spec fn plain_name(name: Seq<char>) -> Seq<char> {
    text::lowercase_of(text::trim_of(name))
}

/// Whether the list of a `Connection` header names the header.
pub open spec fn nominated_by(list: Seq<char>, name: Seq<char>) -> bool {
    exists|i: int|
        0 <= i < text::split_of(list, ',').len() && plain_name(
            #[trigger] text::split_of(list, ',')[i],
        ) == name
}

/// Whether some `Connection` header names the header.
pub open spec fn is_nominated(keys: Seq<Seq<char>>, values: Seq<String>, name: Seq<char>) -> bool {
    exists|i: int|
        0 <= i < keys.len() && plain_name(#[trigger] keys[i]) == "connection"@ && nominated_by(
            values[i]@,
            name,
        )
}

fn nominates(list: &str, name: &str) -> (result: bool)
    ensures
        result == nominated_by(list@, name@),
{
    let parts = text::split(list, ',');
    let mut index: usize = 0;
    while index < parts.len()
        invariant
            index <= parts.len(),
            text::views(parts@) == text::split_of(list@, ','),
            forall|i: int|
                0 <= i < index ==> plain_name(#[trigger] text::split_of(list@, ',')[i]) != name@,
        decreases parts.len() - index,
    {
        assert(text::split_of(list@, ',')[index as int] == parts@[index as int]@);
        if text::same(&text::lowercase(&text::trim(&parts[index])), name) {
            return true;
        }
        index = index + 1;
    }
    false
}

fn nominated(values: &Table<String>, name: &str) -> (result: bool)
    ensures
        result == is_nominated(values.keys(), values.values(), name@),
{
    let count: usize = values.len();
    let mut index: usize = 0;
    while index < count
        invariant
            index <= count,
            count == values.keys().len(),
            forall|i: int|
                0 <= i < index ==> !(plain_name(#[trigger] values.keys()[i]) == "connection"@
                    && nominated_by(values.values()[i]@, name@)),
        decreases count - index,
    {
        if text::same(&text::lowercase(&text::trim(values.key(index))), "connection") {
            if nominates(values.value(index), name) {
                return true;
            }
        }
        index = index + 1;
    }
    false
}

/// What the first headers of a request become: those that are neither blocked nor nominated, under
/// their plain names.
pub open spec fn outbound_of(
    keys: Seq<Seq<char>>,
    values: Seq<String>,
    count: int,
) -> Result<Map<Seq<char>, Seq<Seq<u8>>>, Seq<char>>
    decreases count,
{
    if count <= 0 {
        Ok(header::no_entries())
    } else {
        match outbound_of(keys, values, count - 1) {
            Ok(map) => {
                let name = plain_name(keys[count - 1]);
                let value = vstd::utf8::encode_utf8(values[count - 1]@);
                if is_blocked(name) || is_nominated(keys, values, name) {
                    Ok(map)
                } else if !header::is_name(name) {
                    Err("invalid HTTP header name"@)
                } else if !header::is_value(value) {
                    Err("failed to parse header value"@)
                } else {
                    Ok(map.insert(name, seq![value]))
                }
            },
            Err(reason) => Err(reason),
        }
    }
}

/// No header that is blocked or nominated for a hop reaches a target.
pub proof fn lemma_blocked_kept(
    keys: Seq<Seq<char>>,
    values: Seq<String>,
    count: int,
    name: Seq<char>,
)
    requires
        outbound_of(keys, values, count) is Ok,
        outbound_of(keys, values, count)->Ok_0.dom().contains(name),
    ensures
        !is_blocked(name),
        !is_nominated(keys, values, name),
    decreases count,
{
    if count > 0 && outbound_of(keys, values, count - 1)->Ok_0.dom().contains(name) {
        lemma_blocked_kept(keys, values, count - 1, name);
    }
}

/// The headers of an outgoing request: what the caller sends but for blocked and nominated names,
/// and the user agent.
pub fn outbound(values: &Table<String>) -> (result: Result<header::Headers, String>)
    requires
        values.keys().len() < header::ROOM,
    ensures
        match (result, outbound_of(values.keys(), values.values(), values.keys().len() as int)) {
            (Ok(map), Ok(expected)) => header::header_entries(map) == expected.insert(
                "user-agent"@,
                seq![vstd::utf8::encode_utf8(USER_AGENT@)],
            ),
            (Err(reason), Err(expected)) => reason@ == expected,
            _ => false,
        },
        result matches Ok(map) ==> header::header_entries(map).dom().finite()
            && header::header_entries(map).dom().len() <= values.keys().len() + 1,
{
    let count: usize = values.len();
    let ghost keys = values.keys();
    let ghost items = values.values();
    let mut map = header::empty();
    let mut index: usize = 0;
    while index < count
        invariant
            index <= count,
            count == keys.len(),
            count < header::ROOM,
            keys == values.keys(),
            items == values.values(),
            outbound_of(keys, items, index as int) == Ok::<Map<Seq<char>, Seq<Seq<u8>>>, Seq<char>>(
                header::header_entries(map),
            ),
            header::header_entries(map).dom().finite(),
            header::header_entries(map).dom().len() <= index,
        decreases count - index,
    {
        let name = text::lowercase(&text::trim(values.key(index)));
        proof {
            lemma_failing(keys, items, index + 1, count as int);
        }
        if !blocked(&name) && !nominated(values, &name) {
            if header::name(&name).is_none() {
                return Err("invalid HTTP header name".to_owned());
            }
            let value = text::bytes(values.value(index));
            if !header::valid_value(&value) {
                return Err("failed to parse header value".to_owned());
            }
            proof {
                text::lemma_lowercase_again(text::trim_of(keys[index as int]));
            }
            header::put(&mut map, &name, value);
        }
        index = index + 1;
    }
    proof {
        lemma_user_agent_name();
    }
    header::put(&mut map, "user-agent", text::bytes(USER_AGENT));
    Ok(map)
}

proof fn lemma_user_agent_name()
    ensures
        header::is_name("user-agent"@),
        text::lowercase_of("user-agent"@) == "user-agent"@,
{
    reveal_strlit("user-agent");
    assert(text::lowercase_of("user-agent"@) =~= "user-agent"@);
}

/// Once a header is refused, the rest is.
proof fn lemma_failing(keys: Seq<Seq<char>>, values: Seq<String>, count: int, all: int)
    requires
        0 <= count <= all,
    ensures
        outbound_of(keys, values, count) is Err ==> outbound_of(keys, values, all) == outbound_of(
            keys,
            values,
            count,
        ),
    decreases all - count,
{
    if count < all {
        lemma_failing(keys, values, count, all - 1);
    }
}

/// A name that tells a server where a request came from or who sent it.
pub open spec fn is_routing(name: Seq<char>) -> bool {
    ||| "x-forwarded-"@.is_prefix_of(name)
    ||| "x-envoy-"@.is_prefix_of(name)
    ||| "x-original-"@.is_prefix_of(name)
    ||| "x-rewrite-"@.is_prefix_of(name)
    ||| "x-auth-request-"@.is_prefix_of(name)
    ||| name == "remote-user"@
    ||| name == "x-remote-user"@
    ||| name == "x-authenticated-user"@
}

/// Why a name may not stand in a template, if so.
pub open spec fn template_name_fault(name: Seq<char>) -> Option<Seq<char>> {
    let normalized = text::lowercase_of(name);
    if text::byte_len(name) > 128 || is_blocked(normalized) {
        Some("invalid or forbidden template header name"@)
    } else if is_routing(normalized) {
        Some("routing and identity headers are forbidden for templates"@)
    } else if !header::is_name(name) {
        Some("invalid HTTP header name"@)
    } else {
        None
    }
}

/// The name of a template header without capitals.
pub fn template_name(name: &str) -> (result: Result<String, String>)
    ensures
        match result {
            Ok(value) => template_name_fault(name@) is None && value@ == text::lowercase_of(name@),
            Err(reason) => template_name_fault(name@) == Some(reason@),
        },
{
    let normalized = text::lowercase(name);
    if !text::fits(name, 128) || blocked(&normalized) {
        return Err("invalid or forbidden template header name".to_owned());
    }
    if text::starts_with(&normalized, "x-forwarded-") || 
        text::starts_with(&normalized, "x-envoy-") || 
        text::starts_with(&normalized, "x-original-") || 
        text::starts_with(&normalized, "x-rewrite-") || 
        text::starts_with(&normalized, "x-auth-request-")
        || text::same(&normalized, "remote-user") || text::same(&normalized, "x-remote-user")
        || text::same(&normalized, "x-authenticated-user") {
        return Err("routing and identity headers are forbidden for templates".to_owned());
    }
    match header::name(name) {
        Some(value) => Ok(value),
        None => Err("invalid HTTP header name".to_owned()),
    }
}

/// A character that parts the words of a header name.
pub open spec fn is_separator(ch: char) -> bool {
    ch == '-' || ch == '_' || ch == '.'
}

/// The text with every separator made a dash.
pub open spec fn dashed(value: Seq<char>) -> Seq<char> {
    value.map_values(|ch: char| if is_separator(ch) {
        '-'
    } else {
        ch
    })
}

/// The text without separators.
pub open spec fn compact(value: Seq<char>) -> Seq<char> {
    value.filter(|ch: char| !is_separator(ch))
}

/// A word that marks a header as a credential.
pub open spec fn is_credential_word(word: Seq<char>) -> bool {
    ||| word == "authorization"@
    ||| word == "cookie"@
    ||| word == "key"@
    ||| word == "secret"@
    ||| word == "token"@
    ||| word == "password"@
}

/// A run of letters that marks a header as a credential.
pub open spec fn holds_credential(value: Seq<char>) -> bool {
    ||| text::occurs(value, "apikey"@)
    ||| text::occurs(value, "apitoken"@)
    ||| text::occurs(value, "apisecret"@)
    ||| text::occurs(value, "authtoken"@)
    ||| text::occurs(value, "accesstoken"@)
    ||| text::occurs(value, "refreshtoken"@)
    ||| text::occurs(value, "idtoken"@)
    ||| text::occurs(value, "sessiontoken"@)
    ||| text::occurs(value, "bearertoken"@)
    ||| text::occurs(value, "clientsecret"@)
    ||| text::occurs(value, "clientpassword"@)
    ||| text::occurs(value, "clienttoken"@)
    ||| text::occurs(value, "clientkey"@)
    ||| text::occurs(value, "accesskey"@)
    ||| text::occurs(value, "secretkey"@)
    ||| text::occurs(value, "sessionkey"@)
    ||| text::occurs(value, "privatekey"@)
    ||| text::occurs(value, "authkey"@)
    ||| text::occurs(value, "authsecret"@)
    ||| text::occurs(value, "signingkey"@)
    ||| text::occurs(value, "authorization"@)
    ||| text::occurs(value, "authentication"@)
    ||| text::occurs(value, "credential"@)
}

/// Whether the name is one of a credential.
pub open spec fn is_credential(name: Seq<char>) -> bool {
    let normalized = text::lowercase_of(name);
    ||| exists|i: int|
        0 <= i < text::split_of(dashed(normalized), '-').len() && is_credential_word(
            #[trigger] text::split_of(dashed(normalized), '-')[i],
        )
    ||| holds_credential(compact(normalized))
}

fn credential_word(word: &str) -> (result: bool)
    ensures
        result == is_credential_word(word@),
{
    text::same(word, "authorization") ||
        text::same(word, "cookie") ||
        text::same(word, "key") ||
        text::same(word, "secret") ||
        text::same(word, "token") ||
        text::same(word, "password")
}

fn credential_run(value: &str) -> (result: bool)
    ensures
        result == holds_credential(value@),
{
    text::contains_text(value, "apikey") ||
        text::contains_text(value, "apitoken") ||
        text::contains_text(value, "apisecret") ||
        text::contains_text(value, "authtoken") ||
        text::contains_text(value, "accesstoken") ||
        text::contains_text(value, "refreshtoken") ||
        text::contains_text(value, "idtoken") ||
        text::contains_text(value, "sessiontoken") ||
        text::contains_text(value, "bearertoken") ||
        text::contains_text(value, "clientsecret") ||
        text::contains_text(value, "clientpassword") ||
        text::contains_text(value, "clienttoken") ||
        text::contains_text(value, "clientkey") ||
        text::contains_text(value, "accesskey") ||
        text::contains_text(value, "secretkey") ||
        text::contains_text(value, "sessionkey") ||
        text::contains_text(value, "privatekey") ||
        text::contains_text(value, "authkey") ||
        text::contains_text(value, "authsecret") ||
        text::contains_text(value, "signingkey") ||
        text::contains_text(value, "authorization") ||
        text::contains_text(value, "authentication") ||
        text::contains_text(value, "credential")
}

/// Whether the name is one of a credential.
pub fn credential(name: &str) -> (result: bool)
    ensures
        result == is_credential(name@),
{
    let normalized = text::lowercase(name);
    let all = text::chars(&normalized);
    let mut with_dashes = String::new();
    let mut without = String::new();
    let mut index: usize = 0;
    let ghost test = |ch: char| !is_separator(ch);
    assert(without@ == all@.take(0).filter(test)) by {
        assert(all@.take(0) == Seq::<char>::empty());
    }
    while index < all.len()
        invariant
            index <= all.len(),
            test == (|ch: char| !is_separator(ch)),
            with_dashes@ == dashed(all@.take(index as int)),
            without@ == all@.take(index as int).filter(test),
        decreases all.len() - index,
    {
        let ch = all[index];
        proof {
            let front = all@.take(index as int);
            assert(all@.take(index + 1) == front.push(ch));
            assert(dashed(front.push(ch)) == dashed(front).push(if is_separator(ch) {
                '-'
            } else {
                ch
            }));
            assert(front.push(ch).drop_last() == front);
            reveal(Seq::filter);
        }
        if ch == '-' || ch == '_' || ch == '.' {
            with_dashes.push('-');
        } else {
            with_dashes.push(ch);
            without.push(ch);
        }
        index = index + 1;
    }
    assert(all@.take(all@.len() as int) == all@);
    let parts = text::split(&with_dashes, '-');
    let mut at: usize = 0;
    while at < parts.len()
        invariant
            at <= parts.len(),
            text::views(parts@) == text::split_of(dashed(text::lowercase_of(name@)), '-'),
            forall|i: int|
                0 <= i < at ==> !is_credential_word(
                    #[trigger] text::split_of(dashed(text::lowercase_of(name@)), '-')[i],
                ),
        decreases parts.len() - at,
    {
        assert(text::split_of(dashed(text::lowercase_of(name@)), '-')[at as int] == parts@[at as int]@);
        if credential_word(&parts[at]) {
            return true;
        }
        at = at + 1;
    }
    credential_run(&without)
}

/// A character that may stand in a text without controls.
pub open spec fn is_printable(ch: char) -> bool {
    ch >= ' ' && ch != '\u{7f}'
}

/// Why a value may not stand in a template header, if so.
pub open spec fn template_value_fault(value: Seq<char>) -> Option<Seq<char>> {
    if text::byte_len(value) > 8192 || !text::every(value, |ch: char| is_printable(ch)) {
        Some("invalid template header value"@)
    } else {
        None
    }
}

/// Checks the value of a template header.
pub fn template_value(value: &str) -> (result: Result<(), String>)
    ensures
        match result {
            Ok(()) => template_value_fault(value@) is None,
            Err(reason) => template_value_fault(value@) == Some(reason@),
        },
{
    if !text::fits(value, 8192) || !printable(value) {
        return Err("invalid template header value".to_owned());
    }
    Ok(())
}

/// Whether the text holds no control character of ASCII.
pub fn printable(value: &str) -> (result: bool)
    ensures
        result == text::every(value@, |ch: char| is_printable(ch)),
{
    let all = text::chars(value);
    let mut index: usize = 0;
    while index < all.len()
        invariant
            index <= all.len(),
            all@ == value@,
            forall|i: int| 0 <= i < index ==> is_printable(#[trigger] value@[i]),
        decreases all.len() - index,
    {
        if !(all[index] >= ' ' && all[index] != '\u{7f}') {
            let ghost test = |ch: char| is_printable(ch);
            assert(!test(value@[index as int]));
            return false;
        }
        index = index + 1;
    }
    true
}

/// The bytes that the headers of a template request take, the user agent counted in.
pub open spec fn template_bytes(map: Map<Seq<char>, Seq<Seq<u8>>>) -> nat {
    header::map_size(map) + if map.dom().contains("user-agent"@) {
        0
    } else {
        10 + text::byte_len(USER_AGENT@)
    }
}

/// Why the headers of a template request are too many or too large, if so.
pub open spec fn template_size_fault(map: Map<Seq<char>, Seq<Seq<u8>>>) -> Option<Seq<char>> {
    if map.dom().len() > 33 {
        Some("too many template headers"@)
    } else if template_bytes(map) > 8192 {
        Some("template headers exceed size limit"@)
    } else {
        None
    }
}

/// Checks the number and the size of the headers of a template request.
pub fn template_size(map: &header::Headers) -> (result: Result<(), String>)
    ensures
        match result {
            Ok(()) => template_size_fault(header::header_entries(*map)) is None,
            Err(reason) => template_size_fault(header::header_entries(*map)) == Some(reason@),
        },
{
    let all = header::names(map);
    let ghost entries = header::header_entries(*map);
    assert(text::views(all@).len() == all@.len());
    if all.len() > 33 {
        return Err("too many template headers".to_owned());
    }
    let agent = text::contains_string(&all, "user-agent");
    proof {
        if agent {
            let i = choose|i: int| 0 <= i < all@.len() && #[trigger] all@[i]@ == "user-agent"@;
            assert(text::views(all@)[i] == "user-agent"@);
            assert(text::views(all@).contains("user-agent"@));
        } else if entries.dom().contains("user-agent"@) {
            assert(text::views(all@).contains("user-agent"@));
            let i = choose|i: int|
                0 <= i < text::views(all@).len() && text::views(all@)[i] == "user-agent"@;
            assert(all@[i]@ == "user-agent"@);
        }
        reveal_strlit("otunnel/0.1.0");
        text::lemma_byte_len_bounds(USER_AGENT@);
    }
    let extra: usize = if agent {
        0
    } else {
        10 + text::bytes(USER_AGENT).len()
    };
    if !header::within(map, 8192 - extra) {
        return Err("template headers exceed size limit".to_owned());
    }
    Ok(())
}

/// The name with a capital at the start of each word.
pub open spec fn canonical_of(name: Seq<char>) -> Seq<char> {
    Seq::new(
        name.len(),
        |i: int| if i == 0 || name[i - 1] == '-' {
            text::upper_of(name[i])
        } else {
            name[i]
        },
    )
}

/// The name with a capital at the start of each word.
pub fn canonical(name: &str) -> (result: String)
    ensures
        result@ == canonical_of(name@),
{
    let all = text::chars(name);
    let mut result = String::new();
    let mut index: usize = 0;
    let mut start = true;
    while index < all.len()
        invariant
            index <= all.len(),
            all@ == name@,
            start == (index == 0 || name@[index - 1] == '-'),
            result@ == canonical_of(name@).take(index as int),
        decreases all.len() - index,
    {
        let ch = all[index];
        proof {
            assert(canonical_of(name@).take(index + 1) == canonical_of(name@).take(
                index as int,
            ).push(canonical_of(name@)[index as int]));
        }
        if start && 'a' <= ch && ch <= 'z' {
            let code: u8 = ch as u8;
            result.push((code - 32) as char);
        } else {
            result.push(ch);
        }
        start = ch == '-';
        index = index + 1;
    }
    assert(canonical_of(name@).take(name@.len() as int) == canonical_of(name@));
    result
}

/// Writing a canonical name canonically changes nothing.
pub proof fn lemma_canonical_again(name: Seq<char>)
    ensures
        canonical_of(canonical_of(name)) == canonical_of(name),
{
    assert(canonical_of(canonical_of(name)) =~= canonical_of(name));
}

/// The small form of a canonical name is the small form of the name.
pub proof fn lemma_canonical_small(name: Seq<char>)
    ensures
        text::lowercase_of(canonical_of(name)) == text::lowercase_of(name),
{
    assert(text::lowercase_of(canonical_of(name)) =~= text::lowercase_of(name));
}

/// Names that differ in nothing but capitals have the same canonical form of their small forms, and
/// only those.
pub proof fn lemma_canonical_folds(left: Seq<char>, right: Seq<char>)
    ensures
        canonical_of(text::lowercase_of(left)) == canonical_of(text::lowercase_of(right))
            <==> text::same_folded(left, right),
{
    let a = text::lowercase_of(left);
    let b = text::lowercase_of(right);
    if canonical_of(a) == canonical_of(b) {
        assert(a.len() == canonical_of(a).len());
        assert(b.len() == canonical_of(b).len());
        assert forall|i: int| 0 <= i < a.len() implies a[i] == b[i] by {
            assert(canonical_of(a)[i] == canonical_of(b)[i]);
            assert(a[i] == text::lower_of(left[i]));
            assert(b[i] == text::lower_of(right[i]));
            if i > 0 {
                assert(canonical_of(a)[i - 1] == canonical_of(b)[i - 1]);
                assert(a[i - 1] == text::lower_of(left[i - 1]));
                assert(b[i - 1] == text::lower_of(right[i - 1]));
            }
        }
        assert(a =~= b);
    }
}

/// The headers of an answer that a caller is told of, under canonical names.
pub open spec fn wired(entries: Map<Seq<char>, Seq<Seq<u8>>>) -> Map<Seq<char>, Seq<Seq<char>>> {
    let passed = protocol::passed(entries, false);
    Map::new(
        |name: Seq<char>| passed.dom().contains(text::lowercase_of(name))
            && name == canonical_of(text::lowercase_of(name)),
        |name: Seq<char>| passed[text::lowercase_of(name)],
    )
}

/// The headers of an answer that a caller is told of, under canonical names.
pub fn wire(headers: &header::Headers) -> (result: Table<Vec<String>>)
    ensures
        protocol::lists_of(result@) == wired(header::header_entries(*headers)),
{
    let ghost entries = header::header_entries(*headers);
    let ghost target = wired(entries);
    let names = header::names(headers);
    let ghost all = text::views(names@);
    let passed = protocol::wire_headers(headers, false);
    let count: usize = passed.len();
    let ghost keys = passed.keys();
    let mut result: Table<Vec<String>> = Table::new();
    let mut index: usize = 0;
    while index < count
        invariant
            index <= count,
            count == keys.len(),
            keys == passed.keys(),
            target == wired(entries),
            all == text::views(names@),
            header::lists_names(all, entries),
            protocol::lists_of(passed@) == protocol::passed(entries, false),
            forall|i: int| 0 <= i < count ==> passed@.dom().contains(#[trigger] keys[i]),
            forall|name: Seq<char>| passed@.dom().contains(name) <==> #[trigger] keys.contains(name),
            forall|name: Seq<char>| #[trigger]
                result@.dom().contains(name) ==> target.dom().contains(name) && text::views(
                    result@[name]@,
                ) == target[name],
            forall|i: int|
                0 <= i < index ==> result@.dom().contains(canonical_of(#[trigger] keys[i])),
        decreases count - index,
    {
        let name = passed.key(index);
        let values = passed.value(index);
        let shown = canonical(name);
        proof {
            let map = protocol::lists_of(passed@);
            assert(map.dom().contains(name@));
            assert(protocol::passed(entries, false).dom().contains(name@));
            assert(entries.dom().contains(name@));
            assert(all.contains(name@));
            let i = choose|i: int| 0 <= i < all.len() && all[i] == name@;
            assert(text::lowercase_of(all[i]) == all[i]);
            lemma_canonical_small(name@);
            assert(map[name@] == text::views(values@));
            assert(target.dom().contains(shown@));
        }
        result = result.insert(shown, text::copies(values));
        index = index + 1;
    }
    proof {
        let left = protocol::lists_of(result@);
        assert forall|name: Seq<char>| left.dom().contains(name) == target.dom().contains(name) by {
            if target.dom().contains(name) {
                let small = text::lowercase_of(name);
                assert(protocol::lists_of(passed@).dom().contains(small));
                assert(keys.contains(small));
                let i = choose|i: int| 0 <= i < keys.len() && keys[i] == small;
                assert(result@.dom().contains(canonical_of(keys[i])));
            }
        }
        assert(left =~= target);
    }
    result
}

proof fn lemma_outbound_open(keys: Seq<Seq<char>>, values: Seq<String>, count: int, name: Seq<char>)
    requires
        outbound_of(keys, values, count) is Ok,
        is_blocked(name) || is_nominated(keys, values, name),
    ensures
        !outbound_of(keys, values, count)->Ok_0.dom().contains(name),
    decreases count,
{
    if count > 0 {
        lemma_outbound_open(keys, values, count - 1, name);
    }
}

/// The headers of a connection and of its transport never leave.
pub proof fn lemma_hops_kept(keys: Seq<Seq<char>>, values: Seq<String>, count: int, name: Seq<char>)
    requires
        outbound_of(keys, values, count) is Ok,
    ensures
        name == "accept-encoding"@ ==> !outbound_of(keys, values, count)->Ok_0.dom().contains(name),
        name == "connection"@ ==> !outbound_of(keys, values, count)->Ok_0.dom().contains(name),
        name == "content-length"@ ==> !outbound_of(keys, values, count)->Ok_0.dom().contains(name),
        name == "host"@ ==> !outbound_of(keys, values, count)->Ok_0.dom().contains(name),
        name == "keep-alive"@ ==> !outbound_of(keys, values, count)->Ok_0.dom().contains(name),
        name == "proxy-authenticate"@ ==> !outbound_of(keys, values, count)->Ok_0.dom().contains(name),
        name == "proxy-authorization"@ ==> !outbound_of(keys, values, count)->Ok_0.dom().contains(name),
        name == "proxy-connection"@ ==> !outbound_of(keys, values, count)->Ok_0.dom().contains(name),
        name == "te"@ ==> !outbound_of(keys, values, count)->Ok_0.dom().contains(name),
        name == "trailer"@ ==> !outbound_of(keys, values, count)->Ok_0.dom().contains(name),
        name == "transfer-encoding"@ ==> !outbound_of(keys, values, count)->Ok_0.dom().contains(name),
        name == "upgrade"@ ==> !outbound_of(keys, values, count)->Ok_0.dom().contains(name),
{
    if is_blocked(name) {
        lemma_outbound_open(keys, values, count, name);
    }
}

/// Headers that tell who calls or from where, cookies, and those that change the method never leave.
pub proof fn lemma_identity_kept(keys: Seq<Seq<char>>, values: Seq<String>, count: int, name: Seq<char>)
    requires
        outbound_of(keys, values, count) is Ok,
    ensures
        name == "cf-connecting-ip"@ ==> !outbound_of(keys, values, count)->Ok_0.dom().contains(name),
        name == "cookie"@ ==> !outbound_of(keys, values, count)->Ok_0.dom().contains(name),
        name == "forwarded"@ ==> !outbound_of(keys, values, count)->Ok_0.dom().contains(name),
        name == "true-client-ip"@ ==> !outbound_of(keys, values, count)->Ok_0.dom().contains(name),
        name == "user-agent"@ ==> !outbound_of(keys, values, count)->Ok_0.dom().contains(name),
        name == "via"@ ==> !outbound_of(keys, values, count)->Ok_0.dom().contains(name),
        name == "x-client-ip"@ ==> !outbound_of(keys, values, count)->Ok_0.dom().contains(name),
        name == "x-cluster-client-ip"@ ==> !outbound_of(keys, values, count)->Ok_0.dom().contains(name),
        name == "x-custom-cf-witness-actor"@ ==> !outbound_of(keys, values, count)->Ok_0.dom().contains(name),
        name == "x-custom-cf-witness-authorization"@ ==> !outbound_of(keys, values, count)->Ok_0.dom().contains(name),
        name == "x-envoy-external-address"@ ==> !outbound_of(keys, values, count)->Ok_0.dom().contains(name),
        name == "x-forwarded-for"@ ==> !outbound_of(keys, values, count)->Ok_0.dom().contains(name),
        name == "x-forwarded-host"@ ==> !outbound_of(keys, values, count)->Ok_0.dom().contains(name),
        name == "x-forwarded-port"@ ==> !outbound_of(keys, values, count)->Ok_0.dom().contains(name),
        name == "x-forwarded-proto"@ ==> !outbound_of(keys, values, count)->Ok_0.dom().contains(name),
        name == "x-http-method"@ ==> !outbound_of(keys, values, count)->Ok_0.dom().contains(name),
        name == "x-http-method-override"@ ==> !outbound_of(keys, values, count)->Ok_0.dom().contains(name),
        name == "x-method-override"@ ==> !outbound_of(keys, values, count)->Ok_0.dom().contains(name),
        name == "x-openai-actor-authorization"@ ==> !outbound_of(keys, values, count)->Ok_0.dom().contains(name),
        name == "x-openai-authorization"@ ==> !outbound_of(keys, values, count)->Ok_0.dom().contains(name),
        name == "x-openai-authorization-error"@ ==> !outbound_of(keys, values, count)->Ok_0.dom().contains(name),
        name == "x-openai-internal-caller"@ ==> !outbound_of(keys, values, count)->Ok_0.dom().contains(name),
        name == "x-openai-skip-auth"@ ==> !outbound_of(keys, values, count)->Ok_0.dom().contains(name),
        name == "x-original-forwarded-for"@ ==> !outbound_of(keys, values, count)->Ok_0.dom().contains(name),
        name == "x-real-ip"@ ==> !outbound_of(keys, values, count)->Ok_0.dom().contains(name),
        name == "x-tunnel-traffic-source"@ ==> !outbound_of(keys, values, count)->Ok_0.dom().contains(name),
{
    if is_blocked(name) {
        lemma_outbound_open(keys, values, count, name);
    }
}

/// A header that the connection nominates never leaves, whatever its case.
pub proof fn lemma_nominated_kept(
    keys: Seq<Seq<char>>,
    values: Seq<String>,
    count: int,
    at: int,
    part: int,
    name: Seq<char>,
)
    requires
        outbound_of(keys, values, count) is Ok,
        0 <= at < keys.len(),
        text::lowercase_of(text::trim_of(keys[at])) == "connection"@,
        0 <= part < text::split_of(values[at]@, ',').len(),
        text::lowercase_of(text::trim_of(text::split_of(values[at]@, ',')[part])) == name,
    ensures
        !outbound_of(keys, values, count)->Ok_0.dom().contains(name),
{
    assert(plain_name(text::split_of(values[at]@, ',')[part]) == name);
    assert(nominated_by(values[at]@, name));
    assert(plain_name(keys[at]) == "connection"@);
    assert(is_nominated(keys, values, name));
    lemma_outbound_open(keys, values, count, name);
}

/// A header of another name leaves, in small letters and with the last value that it was given.
pub proof fn lemma_others_leave(keys: Seq<Seq<char>>, values: Seq<String>, count: int, at: int)
    requires
        outbound_of(keys, values, count) is Ok,
        0 <= at < count,
        !is_blocked(text::lowercase_of(text::trim_of(keys[at]))),
        !is_nominated(keys, values, text::lowercase_of(text::trim_of(keys[at]))),
        forall|i: int|
            at < i < count ==> text::lowercase_of(text::trim_of(#[trigger] keys[i])) != text::lowercase_of(
                text::trim_of(keys[at]),
            ),
    ensures
        ({
            let name = text::lowercase_of(text::trim_of(keys[at]));
            let sent = outbound_of(keys, values, count)->Ok_0;
            sent.dom().contains(name) && sent[name] == seq![vstd::utf8::encode_utf8(values[at]@)]
        }),
    decreases count,
{
    if at < count - 1 {
        lemma_others_leave(keys, values, count - 1, at);
        assert(plain_name(keys[count - 1]) != plain_name(keys[at]));
    }
}

/// A header of a template is none that is kept here, and none that tells of routes or of who calls.
pub proof fn lemma_template_names(name: Seq<char>, small: Seq<char>)
    requires
        small == text::lowercase_of(name),
        template_name_fault(name) is None,
    ensures
        text::byte_len(name) <= 128,
        1 <= name.len() <= 65535,
        header::is_name(name),
        !"x-forwarded-"@.is_prefix_of(small),
        !"x-envoy-"@.is_prefix_of(small),
        !"x-original-"@.is_prefix_of(small),
        !"x-rewrite-"@.is_prefix_of(small),
        !"x-auth-request-"@.is_prefix_of(small),
        small != "remote-user"@,
        small != "x-remote-user"@,
        small != "x-authenticated-user"@,
        small != "host"@,
        small != "connection"@,
        small != "content-length"@,
        small != "transfer-encoding"@,
        small != "te"@,
        small != "trailer"@,
        small != "upgrade"@,
        small != "cookie"@,
        small != "forwarded"@,
        small != "via"@,
        small != "user-agent"@,
        small != "proxy-authorization"@,
        small != "proxy-authenticate"@,
        small != "x-real-ip"@,
        small != "x-http-method-override"@,
        small != "x-openai-authorization"@,
        small != "x-tunnel-traffic-source"@,
{
}

/// A name with one of these words between its separators carries a credential.
pub proof fn lemma_credential_words(name: Seq<char>, at: int)
    requires
        0 <= at < text::split_of(dashed(text::lowercase_of(name)), '-').len(),
    ensures
        ({
            let word = text::split_of(dashed(text::lowercase_of(name)), '-')[at];
            word == "authorization"@ || word == "cookie"@ || word == "key"@ || word == "secret"@ || word
                == "token"@ || word == "password"@ ==> is_credential(name)
        }),
{
    let words = text::split_of(dashed(text::lowercase_of(name)), '-');
    if is_credential_word(words[at]) {
        assert(is_credential(name));
    }
}

/// A name that holds one of these words without its separators carries a credential.
pub proof fn lemma_credential_inside(name: Seq<char>, plain: Seq<char>)
    requires
        plain == text::lowercase_of(name).filter(|ch: char| !(ch == '-' || ch == '_' || ch == '.')),
    ensures
        text::occurs(plain, "apikey"@) ==> is_credential(name),
        text::occurs(plain, "apitoken"@) ==> is_credential(name),
        text::occurs(plain, "apisecret"@) ==> is_credential(name),
        text::occurs(plain, "authtoken"@) ==> is_credential(name),
        text::occurs(plain, "accesstoken"@) ==> is_credential(name),
        text::occurs(plain, "refreshtoken"@) ==> is_credential(name),
        text::occurs(plain, "idtoken"@) ==> is_credential(name),
        text::occurs(plain, "sessiontoken"@) ==> is_credential(name),
        text::occurs(plain, "bearertoken"@) ==> is_credential(name),
        text::occurs(plain, "clientsecret"@) ==> is_credential(name),
        text::occurs(plain, "clientpassword"@) ==> is_credential(name),
        text::occurs(plain, "clienttoken"@) ==> is_credential(name),
        text::occurs(plain, "clientkey"@) ==> is_credential(name),
        text::occurs(plain, "accesskey"@) ==> is_credential(name),
        text::occurs(plain, "secretkey"@) ==> is_credential(name),
        text::occurs(plain, "sessionkey"@) ==> is_credential(name),
        text::occurs(plain, "privatekey"@) ==> is_credential(name),
        text::occurs(plain, "authkey"@) ==> is_credential(name),
        text::occurs(plain, "authsecret"@) ==> is_credential(name),
        text::occurs(plain, "signingkey"@) ==> is_credential(name),
        text::occurs(plain, "authorization"@) ==> is_credential(name),
        text::occurs(plain, "authentication"@) ==> is_credential(name),
        text::occurs(plain, "credential"@) ==> is_credential(name),
{
    let small = text::lowercase_of(name);
    assert(plain =~= compact(small)) by {
        let one = |ch: char| !(ch == '-' || ch == '_' || ch == '.');
        let other = |ch: char| !is_separator(ch);
        assert(one =~= other);
    }
}

/// The values of a template have no control characters and fit, and so do all of its headers together.
pub proof fn lemma_template_sizes(value: Seq<char>, map: Map<Seq<char>, Seq<Seq<u8>>>, at: int)
    ensures
        template_value_fault(value) is None && 0 <= at < value.len() ==> value[at] >= ' ' && value[at]
            != '\u{7f}',
        template_value_fault(value) is None ==> text::byte_len(value) <= 8192,
        template_size_fault(map) is None ==> map.dom().len() <= 33 && header::map_size(map) <= 8192,
        template_size_fault(map) is None && !map.dom().contains("user-agent"@) ==> header::map_size(map)
            + 23 <= 8192,
{
    reveal_strlit("otunnel/0.1.0");
    text::lemma_byte_len_bounds(USER_AGENT@);
    if template_value_fault(value) is None && 0 <= at < value.len() {
        let test = |ch: char| is_printable(ch);
        assert(text::every(value, test));
        assert(test(value[at]));
    }
}

} // verus!
