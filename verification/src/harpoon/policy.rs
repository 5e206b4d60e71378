//! Labels that are bound to the policy of a template.

use vstd::prelude::*;
use crate::config::reference::{self, resolved_of, Sources};
use crate::config::settings::{ControlPlane, ControlPlaneView};
use crate::harpoon::label::{is_label, valid_label};
use crate::{digest, text};

verus! {

/// The bytes that a code covers: each text with a zero byte behind it.
pub open spec fn covered(values: Seq<Seq<char>>) -> Seq<u8>
    decreases values.len(),
{
    if values.len() == 0 {
        Seq::empty()
    } else {
        (covered(values.drop_last()) + vstd::utf8::encode_utf8(values.last())).push(0)
    }
}

fn cover(values: &Vec<String>) -> (result: Vec<u8>)
    ensures
        result@ == covered(text::views(values@)),
{
    let ghost all = text::views(values@);
    let mut result: Vec<u8> = Vec::new();
    let mut index: usize = 0;
    while index < values.len()
        invariant
            index <= values.len(),
            all == text::views(values@),
            result@ == covered(all.take(index as int)),
        decreases values.len() - index,
    {
        proof {
            assert(all.take(index + 1).drop_last() == all.take(index as int));
            assert(all.take(index + 1).last() == values@[index as int]@);
        }
        let mut bytes = text::bytes(&values[index]);
        result.append(&mut bytes);
        result.push(0);
        index = index + 1;
    }
    assert(all.take(all.len() as int) == all);
    result
}

fn pair(first: &str, second: &str) -> (result: Vec<String>)
    ensures
        text::views(result@) == seq![first@, second@],
{
    let mut result: Vec<String> = Vec::new();
    result.push(first.to_owned());
    result.push(second.to_owned());
    assert(text::views(result@) =~= seq![first@, second@]);
    result
}

/// The key of the codes of a tunnel, or why there is none: the one that the API key gives, or a given
/// one where the tunnel has no name.
pub open spec fn key_for(control: ControlPlaneView, fresh: Seq<u8>, sources: Sources) -> Result<
    Seq<u8>,
    Seq<char>,
> {
    if control.api_key.len() == 0 || control.tunnel_id.len() == 0 {
        Ok(fresh)
    } else {
        match resolved_of("configuration value"@, control.api_key, sources) {
            Err(reason) => Err(reason),
            Ok(key) => Ok(
                digest::hmac_of(
                    vstd::utf8::encode_utf8(key),
                    covered(seq!["tunnel-client/harpoon/header-rules/key/v1"@, control.tunnel_id]),
                ),
            ),
        }
    }
}

/// The key of the codes of a tunnel. The fresh key is used where the tunnel has no name.
pub fn key(control: &ControlPlane, fresh: Vec<u8>, sources: &Sources) -> (result: Result<
    Vec<u8>,
    String,
>)
    ensures
        match (result, key_for(control@, fresh@, *sources)) {
            (Ok(found), Ok(expected)) => found@ == expected,
            (Err(reason), Err(expected)) => reason@ == expected,
            _ => false,
        },
{
    if control.api_key.is_empty() || control.tunnel_id.is_empty() {
        return Ok(fresh);
    }
    match reference::resolve(&control.api_key, sources) {
        Err(reason) => Err(reason),
        Ok(key) => {
            let message = cover(
                &pair("tunnel-client/harpoon/header-rules/key/v1", &control.tunnel_id),
            );
            Ok(digest::hmac(&text::bytes(&key), &message))
        },
    }
}

/// Whether the text is a digest: sixty-four small hexadecimal digits.
pub open spec fn is_digest(value: Seq<char>) -> bool {
    value.len() == 64 && text::every(
        value,
        |ch: char| text::is_digit(ch) || ('a' <= ch && ch <= 'f'),
    )
}

/// The value of a small hexadecimal digit.
pub open spec fn nibble_of(ch: char) -> int {
    if text::is_digit(ch) {
        ch as int - 48
    } else {
        ch as int - 87
    }
}

/// The bytes that a digest stands for.
pub open spec fn digest_bytes(value: Seq<char>) -> Seq<u8> {
    Seq::new(
        (value.len() / 2) as nat,
        |i: int| (nibble_of(value[2 * i]) * 16 + nibble_of(value[2 * i + 1])) as u8,
    )
}

/// The name and the code that a bound label holds.
pub open spec fn bound_of(label: Seq<char>) -> Option<(Seq<char>, Seq<u8>)> {
    match text::after_prefix(label, "hr1:"@) {
        None => None,
        Some(rest) => match text::split_once_of(rest, ':') {
            None => None,
            Some((code, name)) => if is_digest(code) && is_label(name) {
                Some((name, digest_bytes(code)))
            } else {
                None
            },
        },
    }
}

fn nibble(ch: char) -> (result: Option<u8>)
    ensures
        match result {
            Some(value) => (text::is_digit(ch) || ('a' <= ch && ch <= 'f')) && value == nibble_of(ch)
                && value < 16,
            None => !(text::is_digit(ch) || ('a' <= ch && ch <= 'f')),
        },
{
    if text::digit(ch) {
        Some(ch as u8 - 48)
    } else if 'a' <= ch && ch <= 'f' {
        Some(ch as u8 - 87)
    } else {
        None
    }
}

fn read_digest(value: &str) -> (result: Option<Vec<u8>>)
    ensures
        match result {
            Some(bytes) => is_digest(value@) && bytes@ == digest_bytes(value@),
            None => !is_digest(value@),
        },
{
    let all = text::chars(value);
    if all.len() != 64 {
        return None;
    }
    let ghost test = |ch: char| text::is_digit(ch) || ('a' <= ch && ch <= 'f');
    let mut bytes: Vec<u8> = Vec::new();
    let mut index: usize = 0;
    while index < 32
        invariant
            index <= 32,
            all@ == value@,
            all@.len() == 64,
            test == (|ch: char| text::is_digit(ch) || ('a' <= ch && ch <= 'f')),
            bytes@ == digest_bytes(value@).take(index as int),
            forall|i: int| 0 <= i < 2 * index ==> test(#[trigger] value@[i]),
        decreases 32 - index,
    {
        let high = match nibble(all[2 * index]) {
            Some(high) => high,
            None => {
                assert(!test(value@[2 * index as int]));
                return None;
            },
        };
        let low = match nibble(all[2 * index + 1]) {
            Some(low) => low,
            None => {
                assert(!test(value@[2 * index + 1]));
                return None;
            },
        };
        let ghost whole = digest_bytes(value@);
        proof {
            assert(test(value@[2 * index as int]));
            assert(test(value@[2 * index + 1]));
            assert(whole[index as int] == high * 16 + low);
            assert(whole.take(index + 1) == whole.take(index as int).push((high * 16 + low) as u8));
        }
        bytes.push(high * 16 + low);
        index = index + 1;
    }
    proof {
        assert(digest_bytes(value@).take(32) == digest_bytes(value@));
        assert forall|i: int| 0 <= i < value@.len() implies test(#[trigger] value@[i]) by {
            assert(i < 64);
        }
    }
    Some(bytes)
}

/// The name and the code that a bound label holds.
pub fn bound(label: &str) -> (result: Option<(String, Vec<u8>)>)
    ensures
        match (result, bound_of(label@)) {
            (Some((name, code)), Some((expected, bytes))) => name@ == expected && code@ == bytes,
            (None, None) => true,
            _ => false,
        },
{
    let rest = match text::strip_prefix(label, "hr1:") {
        Some(rest) => rest,
        None => {
            return None;
        },
    };
    let (code, name) = match text::split_once(&rest, ':') {
        Some(pair) => pair,
        None => {
            return None;
        },
    };
    if !valid_label(&name) {
        return None;
    }
    match read_digest(&code) {
        Some(bytes) => Some((name, bytes)),
        None => None,
    }
}

/// What a code for a template covers.
pub open spec fn invocation_message(name: Seq<char>, policy: Seq<char>) -> Seq<u8> {
    covered(seq!["tunnel-client/harpoon/header-rules/invocation/v1"@, name, policy])
}

fn cover_invocation(name: &str, policy: &str) -> (result: Vec<u8>)
    ensures
        result@ == invocation_message(name@, policy@),
{
    let mut values: Vec<String> = Vec::new();
    values.push("tunnel-client/harpoon/header-rules/invocation/v1".to_owned());
    values.push(name.to_owned());
    values.push(policy.to_owned());
    assert(text::views(values@) =~= seq![
        "tunnel-client/harpoon/header-rules/invocation/v1"@,
        name@,
        policy@,
    ]);
    cover(&values)
}

/// The label by which a template is called: its name, bound to its policy where some of its rules are
/// more than bare names.
pub open spec fn invocation_label_of(key: Seq<u8>, name: Seq<char>, policy: Seq<char>, rich: bool) -> Seq<
    char,
> {
    if rich {
        "hr1:"@ + digest::hex_of(digest::hmac_of(key, invocation_message(name, policy))) + ":"@
            + name
    } else {
        name
    }
}

/// The label by which a template is called.
pub fn invocation_label(key: &Vec<u8>, name: &str, policy: &str, rich: bool) -> (result: String)
    ensures
        result@ == invocation_label_of(key@, name@, policy@, rich),
        rich && is_label(name@) ==> opens(key@, name@, policy@, result@),
{
    if rich {
        let bytes = digest::hmac(key, &cover_invocation(name, policy));
        let code = digest::hex(&bytes);
        proof {
            if is_label(name@) {
                lemma_label_opens(key@, name@, policy@);
            }
        }
        text::cat(&text::cat3("hr1:", &code, ":"), name)
    } else {
        name.to_owned()
    }
}

/// Whether a code is the one of a template.
pub open spec fn is_code(key: Seq<u8>, name: Seq<char>, policy: Seq<char>, code: Seq<u8>) -> bool {
    digest::hmac_of(key, invocation_message(name, policy)) == code
}

/// Whether a code is the one of a template.
pub fn matches_code(key: &Vec<u8>, name: &str, policy: &str, code: &Vec<u8>) -> (result: bool)
    ensures
        result == is_code(key@, name@, policy@, code@),
{
    digest::hmac_matches(key, &cover_invocation(name, policy), code)
}

/// The digits of a digest stand for its bytes.
proof fn lemma_hex_reads_back(value: Seq<u8>)
    ensures
        text::every(
            digest::hex_of(value),
            |ch: char| text::is_digit(ch) || ('a' <= ch && ch <= 'f'),
        ),
        digest::hex_of(value).len() == 2 * value.len(),
        digest_bytes(digest::hex_of(value)) == value,
    decreases value.len(),
{
    let test = |ch: char| text::is_digit(ch) || ('a' <= ch && ch <= 'f');
    let whole = digest::hex_of(value);
    if value.len() > 0 {
        let front = digest::hex_of(value.drop_last());
        lemma_hex_reads_back(value.drop_last());
        let last = value.last();
        assert(whole == front.push(digest::hex_digit(last as int / 16)).push(
            digest::hex_digit(last as int % 16),
        ));
        assert forall|i: int| 0 <= i < whole.len() implies test(#[trigger] whole[i]) by {
            if i < front.len() {
                assert(test(front[i]));
                assert(whole[i] == front[i]);
            }
        }
        let read = digest_bytes(whole);
        assert forall|i: int| 0 <= i < value.len() implies read[i] == value[i] by {
            if i < value.len() - 1 {
                assert(digest_bytes(front)[i] == value.drop_last()[i]);
                assert(whole[2 * i] == front[2 * i]);
                assert(whole[2 * i + 1] == front[2 * i + 1]);
            } else {
                assert(whole[2 * i] == digest::hex_digit(last as int / 16));
                assert(whole[2 * i + 1] == digest::hex_digit(last as int % 16));
            }
        }
        assert(read =~= value);
    } else {
        assert(digest_bytes(whole) =~= value);
    }
}

/// Whether a label holds the name of a template and a code that is its own.
pub open spec fn opens(key: Seq<u8>, name: Seq<char>, policy: Seq<char>, label: Seq<char>) -> bool {
    match bound_of(label) {
        Some((found, code)) => found == name && is_code(key, name, policy, code),
        None => false,
    }
}

proof fn lemma_label_opens(key: Seq<u8>, name: Seq<char>, policy: Seq<char>)
    requires
        is_label(name),
        digest::hmac_of(key, invocation_message(name, policy)).len() == 32,
    ensures
        opens(key, name, policy, invocation_label_of(key, name, policy, true)),
{
    let bytes = digest::hmac_of(key, invocation_message(name, policy));
    let code = digest::hex_of(bytes);
    let label = invocation_label_of(key, name, policy, true);
    let rest = code + ":"@ + name;
    reveal_strlit("hr1:");
    reveal_strlit(":");
    lemma_hex_reads_back(bytes);
    assert(label =~= "hr1:"@ + rest);
    assert("hr1:"@.is_prefix_of(label));
    assert(text::after_prefix(label, "hr1:"@)->0 =~= rest);
    text::lemma_index_in(rest, ':');
    let test = |ch: char| text::is_digit(ch) || ('a' <= ch && ch <= 'f');
    let at = text::index_in(rest, ':');
    assert(rest[64] == ':');
    if at < 64 {
        assert(rest[at] == code[at]);
        assert(test(code[at]));
    }
    assert(at == 64);
    assert(rest.take(64) =~= code);
    assert(rest.skip(65) =~= name);
}

/// The key that binds labels is made from the key of the runtime and its tunnel; without one of them a fresh one is
/// used.
pub proof fn lemma_binding_key(control: ControlPlaneView, fresh: Seq<u8>, sources: Sources, key: Seq<char>)
    ensures
        control.api_key.len() == 0 || control.tunnel_id.len() == 0 ==> key_for(control, fresh, sources) == Ok::<
            Seq<u8>,
            Seq<char>,
        >(fresh),
        control.api_key.len() > 0 && control.tunnel_id.len() > 0 && resolved_of(
            "configuration value"@,
            control.api_key,
            sources,
        ) == Ok::<Seq<char>, Seq<char>>(key) ==> key_for(control, fresh, sources) == Ok::<Seq<u8>, Seq<char>>(
            digest::hmac_of(
                vstd::utf8::encode_utf8(key),
                covered(seq!["tunnel-client/harpoon/header-rules/key/v1"@, control.tunnel_id]),
            ),
        ),
        control.api_key.len() > 0 && control.tunnel_id.len() > 0 && resolved_of(
            "configuration value"@,
            control.api_key,
            sources,
        ) is Err ==> key_for(control, fresh, sources) is Err,
{
}

/// What is covered by a code is each value in turn, with a zero byte behind it.
pub proof fn lemma_covered(values: Seq<Seq<char>>, last: Seq<char>)
    ensures
        covered(values.push(last)) == (covered(values) + vstd::utf8::encode_utf8(last)).push(0),
        covered(Seq::empty()).len() == 0,
{
    assert(values.push(last).drop_last() =~= values);
}

/// A bound label holds a code of sixty-four small digits and a label behind it.
pub proof fn lemma_bound_label(label: Seq<char>, name: Seq<char>, code: Seq<u8>)
    ensures
        bound_of(label) == Some((name, code)) ==> "hr1:"@.is_prefix_of(label) && is_label(name),
        !("hr1:"@.is_prefix_of(label)) ==> bound_of(label) is None,
{
}

/// A code is made of such digits, two a byte.
pub proof fn lemma_codes(value: Seq<char>, at: int)
    ensures
        is_digest(value) ==> value.len() == 64,
        is_digest(value) && 0 <= at < 64 ==> ('0' <= value[at] <= '9') || ('a' <= value[at] <= 'f'),
        value.len() == 64 ==> digest_bytes(value).len() == 32,
        nibble_of('0') == 0 && nibble_of('9') == 9 && nibble_of('a') == 10 && nibble_of('f') == 15,
{
    let test = |ch: char| text::is_digit(ch) || ('a' <= ch && ch <= 'f');
    if is_digest(value) && 0 <= at < 64 {
        assert(test(value[at]));
    }
}

/// The label of a target with rules is bound to its name and its policy; that of another is its name.
pub proof fn lemma_label_bound(key: Seq<u8>, name: Seq<char>, policy: Seq<char>)
    ensures
        invocation_label_of(key, name, policy, false) == name,
        invocation_label_of(key, name, policy, true) == "hr1:"@ + digest::hex_of(
            digest::hmac_of(
                key,
                covered(seq!["tunnel-client/harpoon/header-rules/invocation/v1"@, name, policy]),
            ),
        ) + ":"@ + name,
{
}

/// A bound label opens its target only, and only with the code for its policy.
pub proof fn lemma_label_opening(key: Seq<u8>, name: Seq<char>, policy: Seq<char>, label: Seq<char>)
    ensures
        opens(key, name, policy, label) ==> (bound_of(label) matches Some((found, code)) && found == name
            && digest::hmac_of(
            key,
            covered(seq!["tunnel-client/harpoon/header-rules/invocation/v1"@, name, policy]),
        ) == code),
        bound_of(label) matches Some((found, code)) ==> (found == name && digest::hmac_of(
            key,
            covered(seq!["tunnel-client/harpoon/header-rules/invocation/v1"@, name, policy]),
        ) == code ==> opens(key, name, policy, label)),
        bound_of(label) is None ==> !opens(key, name, policy, label),
{
}

} // verus!
