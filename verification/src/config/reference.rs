//! References to environment variables and files in configuration values.

use vstd::prelude::*;
use crate::checks::{fault_from, first_fault, tells, unless};
use crate::{harpoon::headers, header, table::Table, text};

verus! {

/// The environment variables and the files that a configuration can refer to, read beforehand.
pub struct Sources {
    pub variables: Table<String>,
    pub files: Table<Vec<u8>>,
}

/// The message of a bad reference.
pub open spec fn bad_reference(source: Seq<char>, value: Seq<char>, what: Seq<char>) -> Seq<char> {
    "invalid "@ + source + " reference "@ + text::debug_text(value) + what
}

fn bad(source: &str, value: &str, what: &str) -> (result: String)
    ensures
        result@ == bad_reference(source@, value@, what@),
{
    text::cat5("invalid ", source, " reference ", &text::quoted(value), what)
}

/// What a value refers to: the text of an environment variable, of a file, or the value itself.
pub open spec fn resolved_of(source: Seq<char>, value: Seq<char>, sources: Sources) -> Result<
    Seq<char>,
    Seq<char>,
> {
    let trimmed = text::trim_of(value);
    if trimmed.len() == 0 {
        Err(source + " cannot be empty"@)
    } else {
        match text::split_once_of(trimmed, ':') {
            None => Ok(trimmed),
            Some((kind, rest)) => {
                let name = text::trim_of(rest);
                if kind == "env"@ {
                    if name.len() == 0 {
                        Err(
                            bad_reference(
                                source,
                                trimmed,
                                ": environment variable name is required"@,
                            ),
                        )
                    } else if !sources.variables@.dom().contains(name) {
                        Err(
                            bad_reference(
                                source,
                                trimmed,
                                ": environment variable "@ + text::debug_text(name)
                                    + " is not set"@,
                            ),
                        )
                    } else {
                        let found = text::trim_of(sources.variables@[name]@);
                        if found.len() == 0 {
                            Err(
                                bad_reference(
                                    source,
                                    trimmed,
                                    ": environment variable "@ + text::debug_text(name)
                                        + " is empty"@,
                                ),
                            )
                        } else {
                            Ok(found)
                        }
                    }
                } else if kind == "file"@ {
                    if name.len() == 0 {
                        Err(bad_reference(source, trimmed, ": file path is required"@))
                    } else if !sources.files@.dom().contains(name) || text::utf8_text(
                        sources.files@[name]@,
                    ) is None {
                        Err(bad_reference(source, trimmed, ": read file"@))
                    } else {
                        let found = text::trim_of(text::utf8_text(sources.files@[name]@)->0);
                        if found.len() == 0 {
                            Err(bad_reference(source, trimmed, ": file is empty"@))
                        } else {
                            Ok(found)
                        }
                    }
                } else {
                    Ok(trimmed)
                }
            },
        }
    }
}

/// Whether a text result is the expected one.
pub open spec fn gives(
    result: Result<String, String>,
    expected: Result<Seq<char>, Seq<char>>,
) -> bool {
    match (result, expected) {
        (Ok(value), Ok(inner)) => value@ == inner,
        (Err(reason), Err(inner)) => reason@ == inner,
        _ => false,
    }
}

/// What a named configuration value refers to.
pub fn resolve_named(source: &str, value: &str, sources: &Sources) -> (result: Result<
    String,
    String,
>)
    ensures
        gives(result, resolved_of(source@, value@, *sources)),
{
    let trimmed = text::trim(value);
    if trimmed.is_empty() {
        return Err(text::cat(source, " cannot be empty"));
    }
    match text::split_once(&trimmed, ':') {
        None => Ok(trimmed),
        Some((kind, rest)) => {
            let name = text::trim(&rest);
            if text::same(&kind, "env") {
                if name.is_empty() {
                    return Err(bad(source, &trimmed, ": environment variable name is required"));
                }
                match sources.variables.get(&name) {
                    None => {
                        let what = text::cat3(
                            ": environment variable ",
                            &text::quoted(&name),
                            " is not set",
                        );
                        Err(bad(source, &trimmed, &what))
                    },
                    Some(found) => {
                        let found = text::trim(found);
                        if found.is_empty() {
                            let what = text::cat3(
                                ": environment variable ",
                                &text::quoted(&name),
                                " is empty",
                            );
                            return Err(bad(source, &trimmed, &what));
                        }
                        Ok(found)
                    },
                }
            } else if text::same(&kind, "file") {
                if name.is_empty() {
                    return Err(bad(source, &trimmed, ": file path is required"));
                }
                match sources.files.get(&name) {
                    None => Err(bad(source, &trimmed, ": read file")),
                    Some(found) => match text::from_utf8(found) {
                        None => Err(bad(source, &trimmed, ": read file")),
                        Some(found) => {
                            let found = text::trim(&found);
                            if found.is_empty() {
                                return Err(bad(source, &trimmed, ": file is empty"));
                            }
                            Ok(found)
                        },
                    },
                }
            } else {
                Ok(trimmed)
            }
        },
    }
}

/// What a configuration value refers to.
pub fn resolve(value: &str, sources: &Sources) -> (result: Result<String, String>)
    ensures
        gives(result, resolved_of("configuration value"@, value@, *sources)),
{
    resolve_named("configuration value", value, sources)
}

/// The path that a value names: after `file:`, in an environment variable, or the value itself.
pub open spec fn path_of(value: Seq<char>, sources: Sources) -> Result<Seq<char>, Seq<char>> {
    let trimmed = text::trim_of(value);
    match text::split_once_of(trimmed, ':') {
        Some((kind, rest)) => if kind == "file"@ {
            if text::trim_of(rest).len() == 0 {
                Err("file path is required after file:"@)
            } else {
                Ok(text::trim_of(rest))
            }
        } else if kind == "env"@ {
            resolved_of("configuration value"@, trimmed, sources)
        } else {
            Ok(trimmed)
        },
        None => Ok(trimmed),
    }
}

/// The path that a value names.
pub fn path(value: &str, sources: &Sources) -> (result: Result<String, String>)
    ensures
        gives(result, path_of(value@, *sources)),
{
    let trimmed = text::trim(value);
    match text::split_once(&trimmed, ':') {
        Some((kind, rest)) => {
            if text::same(&kind, "file") {
                let name = text::trim(&rest);
                if name.is_empty() {
                    return Err("file path is required after file:".to_owned());
                }
                return Ok(name);
            }
            if text::same(&kind, "env") {
                return resolve(&trimmed, sources);
            }
            Ok(trimmed)
        },
        None => Ok(trimmed),
    }
}

/// The file that a value refers to, where it is a reference to one.
pub open spec fn file_named(value: Seq<char>) -> Option<Seq<char>> {
    match text::split_once_of(text::trim_of(value), ':') {
        Some((kind, rest)) => if text::same_folded(kind, "file"@) {
            Some(text::trim_of(rest))
        } else {
            None
        },
        None => None,
    }
}

/// The file that a value refers to, where it is a reference to one.
pub fn file(value: &str) -> (result: Option<String>)
    ensures
        text::view_of(result) == file_named(value@),
{
    match text::split_once(&text::trim(value), ':') {
        Some((kind, rest)) => {
            if text::same_ignoring_case(&kind, "file") {
                Some(text::trim(&rest))
            } else {
                None
            }
        },
        None => None,
    }
}

/// Whether the text is the name of an environment variable.
pub open spec fn is_variable_name(name: Seq<char>) -> bool {
    &&& name.len() > 0
    &&& text::is_letter(name[0]) || name[0] == '_'
    &&& text::every(name, |ch: char| text::is_alnum(ch) || ch == '_')
}

fn variable_name(name: &str) -> (result: bool)
    ensures
        result == is_variable_name(name@),
{
    let all = text::chars(name);
    if all.len() == 0 || !(text::letter(all[0]) || all[0] == '_') {
        return false;
    }
    let mut index: usize = 0;
    let ghost test = |ch: char| text::is_alnum(ch) || ch == '_';
    while index < all.len()
        invariant
            index <= all.len(),
            all@ == name@,
            test == (|ch: char| text::is_alnum(ch) || ch == '_'),
            forall|i: int| 0 <= i < index ==> test(#[trigger] name@[i]),
        decreases all.len() - index,
    {
        if !text::alnum(all[index]) && all[index] != '_' {
            assert(!test(name@[index as int]));
            return false;
        }
        index = index + 1;
    }
    true
}

/// Why a value is not written as a value or a reference, if so.
pub open spec fn syntax_fault(source: Seq<char>, value: Seq<char>) -> Option<Seq<char>> {
    let trimmed = text::trim_of(value);
    if trimmed.len() == 0 {
        Some(source + " cannot be empty"@)
    } else if trimmed.contains('\r') || trimmed.contains('\n') {
        Some(source + " cannot contain CR or LF"@)
    } else {
        match text::split_once_of(trimmed, ':') {
            None => None,
            Some((kind, rest)) => if kind == "env"@ {
                unless(
                    is_variable_name(text::trim_of(rest)),
                    bad_reference(source, trimmed, ": environment variable name is invalid"@),
                )
            } else if kind == "file"@ {
                unless(
                    text::trim_of(rest).len() > 0,
                    bad_reference(source, trimmed, ": file path is required"@),
                )
            } else {
                None
            },
        }
    }
}

/// Checks that a value is written as a value or a reference.
pub fn syntax(source: &str, value: &str) -> (result: Result<(), String>)
    ensures
        tells(result, syntax_fault(source@, value@)),
{
    let trimmed = text::trim(value);
    if trimmed.is_empty() {
        return Err(text::cat(source, " cannot be empty"));
    }
    if text::contains_char(&trimmed, '\r') || text::contains_char(&trimmed, '\n') {
        return Err(text::cat(source, " cannot contain CR or LF"));
    }
    match text::split_once(&trimmed, ':') {
        None => Ok(()),
        Some((kind, rest)) => {
            if text::same(&kind, "env") {
                if !variable_name(&text::trim(&rest)) {
                    return Err(bad(source, &trimmed, ": environment variable name is invalid"));
                }
            } else if text::same(&kind, "file") {
                if text::trim(&rest).is_empty() {
                    return Err(bad(source, &trimmed, ": file path is required"));
                }
            }
            Ok(())
        },
    }
}

/// A header that the client itself sends to the control plane.
pub open spec fn is_client_header(name: Seq<char>) -> bool {
    ||| name == "authorization"@
    ||| name == "accept"@
    ||| name == "user-agent"@
    ||| name == "x-tunnel-client-name"@
    ||| name == "x-tunnel-client-version"@
    ||| name == "x-tunnel-client-wire-protocol-version"@
    ||| name == "x-tunnel-mcp-server-info"@
}

fn client_header(name: &str) -> (result: bool)
    ensures
        result == is_client_header(name@),
{
    text::same(name, "authorization") || text::same(name, "accept") || text::same(
        name,
        "user-agent",
    ) || text::same(name, "x-tunnel-client-name") || text::same(name, "x-tunnel-client-version")
        || text::same(name, "x-tunnel-client-wire-protocol-version") || text::same(
        name,
        "x-tunnel-mcp-server-info",
    )
}

/// The canonical form of a configured header name.
pub open spec fn configured_name(name: Seq<char>) -> Seq<char> {
    headers::canonical_of(text::lowercase_of(text::trim_of(name)))
}

/// Whether an earlier header has the same name and another value.
pub open spec fn conflicts(keys: Seq<Seq<char>>, values: Seq<String>, at: int) -> bool {
    exists|j: int|
        0 <= j < at && configured_name(#[trigger] keys[j]) == configured_name(keys[at])
            && values[j]@ != values[at]@
}

/// Why one configured header is refused, if so.
pub open spec fn header_fault(
    source: Seq<char>,
    keys: Seq<Seq<char>>,
    values: Seq<String>,
    control: bool,
    at: int,
) -> Option<Seq<char>> {
    let name = configured_name(keys[at]);
    if !header::is_name(text::trim_of(keys[at])) {
        Some("invalid HTTP header name"@)
    } else if conflicts(keys, values, at) {
        Some(
            source + " contains conflicting values for case-insensitive HTTP header "@
                + text::debug_text(name),
        )
    } else if control && is_client_header(text::lowercase_of(text::trim_of(keys[at]))) {
        Some(
            source + " "@ + text::debug_text(keys[at])
                + " cannot override control-plane authentication or client metadata headers"@,
        )
    } else if text::trim_of(values[at]@).len() > 0 {
        syntax_fault(source + "."@ + name, values[at]@)
    } else {
        None
    }
}

/// Why configured headers are refused, if so.
pub open spec fn headers_fault(
    source: Seq<char>,
    keys: Seq<Seq<char>>,
    values: Seq<String>,
    control: bool,
) -> Option<Seq<char>> {
    first_fault(keys.len() as int, |i: int| header_fault(source, keys, values, control, i))
}

fn conflicting(values: &Table<String>, at: usize) -> (result: bool)
    requires
        at < values.keys().len(),
    ensures
        result == conflicts(values.keys(), values.values(), at as int),
{
    let name = headers::canonical(&text::lowercase(&text::trim(values.key(at))));
    let mut index: usize = 0;
    while index < at
        invariant
            index <= at < values.keys().len(),
            name@ == configured_name(values.keys()[at as int]),
            forall|j: int|
                0 <= j < index ==> !(configured_name(#[trigger] values.keys()[j])
                    == configured_name(values.keys()[at as int]) && values.values()[j]@
                    != values.values()[at as int]@),
        decreases at - index,
    {
        let other = headers::canonical(&text::lowercase(&text::trim(values.key(index))));
        if text::same(&other, &name) && !text::same(values.value(index), values.value(at)) {
            return true;
        }
        index = index + 1;
    }
    false
}

/// Checks configured headers.
pub fn header_syntax(source: &str, values: &Table<String>, control: bool) -> (result: Result<
    (),
    String,
>)
    ensures
        tells(result, headers_fault(source@, values.keys(), values.values(), control)),
{
    let count: usize = values.len();
    let ghost fault = |i: int|
        header_fault(source@, values.keys(), values.values(), control, i);
    let mut index: usize = 0;
    while index < count
        invariant
            index <= count,
            count == values.keys().len(),
            fault == (|i: int|
                header_fault(source@, values.keys(), values.values(), control, i)),
            first_fault(count as int, fault) == fault_from(index as int, count as int, fault),
        decreases count - index,
    {
        let trimmed = text::trim(values.key(index));
        assert(fault(index as int) == header_fault(
            source@,
            values.keys(),
            values.values(),
            control,
            index as int,
        ));
        match header::name(&trimmed) {
            None => {
                return Err("invalid HTTP header name".to_owned());
            },
            Some(normalized) => {
                let name = headers::canonical(&normalized);
                if conflicting(values, index) {
                    return Err(
                        text::cat3(
                            source,
                            " contains conflicting values for case-insensitive HTTP header ",
                            &text::quoted(&name),
                        ),
                    );
                }
                if control && client_header(&normalized) {
                    let front = text::cat3(source, " ", &text::quoted(values.key(index)));
                    return Err(
                        text::cat(
                            &front,
                            " cannot override control-plane authentication or client metadata headers",
                        ),
                    );
                }
                if !text::trim(values.value(index)).is_empty() {
                    match syntax(&text::cat3(source, ".", &name), values.value(index)) {
                        Ok(()) => {},
                        Err(reason) => {
                            return Err(reason);
                        },
                    }
                }
            },
        }
        index = index + 1;
    }
    Ok(())
}

/// A value stands for itself unless it names a variable or a file; then it is what that holds, and it is never empty.
pub proof fn lemma_reference_resolved(source: Seq<char>, value: Seq<char>, sources: Sources, name: Seq<char>)
    ensures
        resolved_of(source, value, sources) matches Ok(found) ==> found.len() > 0 || text::trim_of(value).len()
            == 0,
        text::trim_of(value).len() == 0 ==> resolved_of(source, value, sources) is Err,
        text::trim_of(value).len() > 0 && text::split_once_of(text::trim_of(value), ':') is None
            ==> resolved_of(source, value, sources) == Ok::<Seq<char>, Seq<char>>(text::trim_of(value)),
        text::split_once_of(text::trim_of(value), ':') == Some(("env"@, name)) && text::trim_of(value).len() > 0
            && sources.variables@.dom().contains(text::trim_of(name)) && text::trim_of(name).len() > 0
            && text::trim_of(sources.variables@[text::trim_of(name)]@).len() > 0 ==> resolved_of(
            source,
            value,
            sources,
        ) == Ok::<Seq<char>, Seq<char>>(text::trim_of(sources.variables@[text::trim_of(name)]@)),
        text::split_once_of(text::trim_of(value), ':') == Some(("env"@, name))
            && !sources.variables@.dom().contains(text::trim_of(name)) ==> resolved_of(source, value, sources)
            is Err,
        text::split_once_of(text::trim_of(value), ':') == Some(("file"@, name)) && text::trim_of(value).len() > 0
            && resolved_of(source, value, sources) is Ok ==> sources.files@.dom().contains(
            text::trim_of(name),
        ) && text::utf8_text(sources.files@[text::trim_of(name)]@) is Some && resolved_of(
            source,
            value,
            sources,
        )->Ok_0 == text::trim_of(text::utf8_text(sources.files@[text::trim_of(name)]@)->0),
{
    reveal_strlit("env");
    reveal_strlit("file");
    assert("env"@.len() == 3 && "file"@.len() == 4);
}

/// A written reference has no line breaks, names a variable by a proper name, and a file by some path.
pub proof fn lemma_reference_written(source: Seq<char>, value: Seq<char>, name: Seq<char>)
    requires
        syntax_fault(source, value) is None,
    ensures
        text::trim_of(value).len() > 0,
        !text::trim_of(value).contains('\r') && !text::trim_of(value).contains('\n'),
        text::split_once_of(text::trim_of(value), ':') == Some(("env"@, name)) ==> {
            let own = text::trim_of(name);
            own.len() > 0 && (text::is_letter(own[0]) || own[0] == '_')
        },
        text::split_once_of(text::trim_of(value), ':') == Some(("file"@, name)) ==> text::trim_of(name).len()
            > 0,
{
    reveal_strlit("env");
    reveal_strlit("file");
    assert("env"@.len() == 3 && "file"@.len() == 4);
}

/// Configured headers have proper names and no two values for one name; those of the service take nothing that the
/// client says of itself.
pub proof fn lemma_configured_headers(
    source: Seq<char>,
    keys: Seq<Seq<char>>,
    values: Seq<String>,
    control: bool,
    at: int,
    other: int,
)
    requires
        headers_fault(source, keys, values, control) is None,
        0 <= at < keys.len(),
    ensures
        header::is_name(text::trim_of(keys[at])),
        0 <= other < at && text::lowercase_of(text::trim_of(keys[other])) == text::lowercase_of(
            text::trim_of(keys[at]),
        ) ==> values[other]@ == values[at]@,
        control ==> {
            let name = text::lowercase_of(text::trim_of(keys[at]));
            name != "authorization"@ && name != "accept"@ && name != "user-agent"@ && name
                != "x-tunnel-client-name"@ && name != "x-tunnel-client-version"@ && name
                != "x-tunnel-client-wire-protocol-version"@ && name != "x-tunnel-mcp-server-info"@
        },
        text::trim_of(values[at]@).len() > 0 ==> !text::trim_of(values[at]@).contains('\r') && !text::trim_of(
            values[at]@,
        ).contains('\n'),
{
    let faults = |i: int| header_fault(source, keys, values, control, i);
    crate::checks::lemma_first_fault(0, keys.len() as int, faults);
    assert(faults(at) is None);
    if 0 <= other < at && text::lowercase_of(text::trim_of(keys[other])) == text::lowercase_of(
        text::trim_of(keys[at]),
    ) {
        assert(configured_name(keys[other]) == configured_name(keys[at]));
    }
}

/// The path of a socket or of a file is given as it is, behind `file:`, or by a variable.
pub proof fn lemma_path_given(value: Seq<char>, sources: Sources, rest: Seq<char>)
    ensures
        text::split_once_of(text::trim_of(value), ':') is None ==> path_of(value, sources) == Ok::<
            Seq<char>,
            Seq<char>,
        >(text::trim_of(value)),
        text::split_once_of(text::trim_of(value), ':') == Some(("file"@, rest)) && text::trim_of(rest).len() > 0
            ==> path_of(value, sources) == Ok::<Seq<char>, Seq<char>>(text::trim_of(rest)),
        text::split_once_of(text::trim_of(value), ':') == Some(("file"@, rest)) && text::trim_of(rest).len()
            == 0 ==> path_of(value, sources) is Err,
        text::split_once_of(text::trim_of(value), ':') == Some(("env"@, rest)) ==> path_of(value, sources)
            == resolved_of("configuration value"@, text::trim_of(value), sources),
        text::split_once_of(text::trim_of(value), ':') == Some(("file"@, rest)) ==> file_named(value) == Some(
            text::trim_of(rest),
        ),
{
    reveal_strlit("env");
    reveal_strlit("file");
    assert("env"@.len() == 3 && "file"@.len() == 4);
}

} // verus!
