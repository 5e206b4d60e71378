//! Services and targets as they are written on the command line.

use vstd::prelude::*;
use crate::cli::arguments::Kind;
use crate::config::values::{channel, channel_of, command_args, words_of};
use crate::json::{Doc, Json};
use crate::text;

verus! {

/// The names with which an entry may begin.
pub open spec fn begins_named(entry: Seq<char>) -> bool {
    ||| "url="@.is_prefix_of(entry)
    ||| "command="@.is_prefix_of(entry)
    ||| "channel="@.is_prefix_of(entry)
    ||| "unix-socket="@.is_prefix_of(entry)
    ||| "http-proxy="@.is_prefix_of(entry)
    ||| "client-cert="@.is_prefix_of(entry)
    ||| "client-key="@.is_prefix_of(entry)
}

/// Whether an entry names its fields.
pub open spec fn is_qualified(value: Seq<char>) -> bool {
    begins_named(text::lowercase_of(text::trim_of(value)))
}

fn qualified(value: &str) -> (result: bool)
    ensures
        result == is_qualified(value@),
{
    let entry = text::lowercase(&text::trim(value));
    text::starts_with(&entry, "url=") || text::starts_with(&entry, "command=")
        || text::starts_with(&entry, "channel=") || text::starts_with(&entry, "unix-socket=")
        || text::starts_with(&entry, "http-proxy=") || text::starts_with(&entry, "client-cert=")
        || text::starts_with(&entry, "client-key=")
}

/// The last place up to an index where the part stands in the text.
pub open spec fn last_from(value: Seq<char>, part: Seq<char>, at: int) -> Option<int>
    decreases at + 1,
{
    if at < 0 {
        None
    } else if at + part.len() <= value.len() && value.subrange(at, at + part.len()) == part {
        Some(at)
    } else {
        last_from(value, part, at - 1)
    }
}

/// What stands before and behind the last occurrence of the part.
pub open spec fn cut_last_of(value: Seq<char>, part: Seq<char>) -> Option<(Seq<char>, Seq<char>)> {
    match last_from(value, part, value.len() as int) {
        Some(at) => Some((value.take(at), value.skip(at + part.len()))),
        None => None,
    }
}

fn cut_last(value: &str, part: &str) -> (result: Option<(String, String)>)
    ensures
        text::pair_of(result) == cut_last_of(value@, part@),
{
    let all = text::chars(value);
    let inner = text::chars(part);
    let mut left: usize = all.len();
    if inner.len() == 0 {
        assert(value@.subrange(left as int, left as int) =~= part@);
        assert(value@.take(left as int) =~= value@);
        let empty = String::new();
        assert(value@.skip(left as int) =~= empty@);
        return Some((value.to_owned(), empty));
    }
    while left > 0
        invariant
            left <= all.len(),
            inner.len() > 0,
            all@ == value@,
            inner@ == part@,
            last_from(value@, part@, value@.len() as int) == last_from(value@, part@, left as int),
        decreases left,
    {
        if inner.len() <= all.len() - left {
            let own = text::piece(&all, left, left + inner.len());
            if text::same(&own, part) {
                let front = text::piece(&all, 0, left);
                let back = text::piece(&all, left + inner.len(), all.len());
                assert(value@.take(left as int) =~= front@);
                assert(value@.skip(left + inner.len()) =~= back@);
                return Some((front, back));
            }
        }
        left = left - 1;
    }
    if inner.len() <= all.len() {
        let own = text::piece(&all, 0, inner.len());
        if text::same(&own, part) {
            let back = text::piece(&all, inner.len(), all.len());
            let empty = String::new();
            assert(value@.take(0) =~= empty@);
            assert(value@.skip(0 + inner.len()) =~= back@);
            return Some((empty, back));
        }
    }
    assert(last_from(value@, part@, -1) is None);
    None
}

/// The channel and the command of an entry, or why it has none.
pub open spec fn command_of(value: Seq<char>) -> Result<(Seq<char>, Seq<char>), Seq<char>> {
    let entry = text::trim_of(value);
    if !is_qualified(value) {
        Ok(("main"@, value))
    } else {
        match text::after_prefix(entry, "channel="@) {
            Some(rest) => match text::split_once_of(rest, ',') {
                None => Err("command entry is missing command"@),
                Some((channel, rest)) => match text::after_prefix(
                    text::trim_of(rest),
                    "command="@,
                ) {
                    None => Err("command entry requires command=..."@),
                    Some(command) => Ok((text::trim_of(channel), text::trim_of(command))),
                },
            },
            None => match text::after_prefix(entry, "command="@) {
                None => Err("command entry requires command=..."@),
                Some(command) => {
                    let command = text::trim_of(command);
                    match cut_last_of(command, ",channel="@) {
                        Some((front, channel)) => Ok(
                            (text::trim_of(channel), text::trim_of(front)),
                        ),
                        None => Ok(("main"@, command)),
                    }
                },
            },
        }
    }
}

fn command(value: &str) -> (result: Result<(String, String), String>)
    ensures
        match (result, command_of(value@)) {
            (Ok((channel, command)), Ok(expected)) => channel@ == expected.0 && command@
                == expected.1,
            (Err(reason), Err(expected)) => reason@ == expected,
            _ => false,
        },
{
    if !qualified(value) {
        return Ok(("main".to_owned(), value.to_owned()));
    }
    let entry = text::trim(value);
    if let Some(rest) = text::strip_prefix(&entry, "channel=") {
        return match text::split_once(&rest, ',') {
            None => Err("command entry is missing command".to_owned()),
            Some((channel, rest)) => match text::strip_prefix(&text::trim(&rest), "command=") {
                None => Err("command entry requires command=...".to_owned()),
                Some(command) => Ok((text::trim(&channel), text::trim(&command))),
            },
        };
    }
    match text::strip_prefix(&entry, "command=") {
        None => Err("command entry requires command=...".to_owned()),
        Some(command) => {
            let command = text::trim(&command);
            match cut_last(&command, ",channel=") {
                Some((front, channel)) => Ok((text::trim(&channel), text::trim(&front))),
                None => Ok(("main".to_owned(), command)),
            }
        },
    }
}

/// The fault of a command that names a field.
pub open spec fn field_fault(command: Seq<char>, key: Seq<char>) -> Option<Seq<char>> {
    if text::occurs(text::lowercase_of(command), ","@ + key + "="@) {
        Some("unsupported stdio field "@ + key)
    } else {
        None
    }
}

/// What is wrong with the fields of a command.
pub open spec fn fields_fault(command: Seq<char>) -> Option<Seq<char>> {
    crate::checks::either(
        field_fault(command, "http-proxy"@),
        crate::checks::either(
            field_fault(command, "url"@),
            crate::checks::either(
                field_fault(command, "unix-socket"@),
                crate::checks::either(
                    field_fault(command, "client-cert"@),
                    field_fault(command, "client-key"@),
                ),
            ),
        ),
    )
}

fn field(command: &str, key: &str) -> (result: Option<String>)
    ensures
        text::view_of(result) == field_fault(command@, key@),
{
    if text::contains_text(&text::lowercase(command), &text::cat3(",", key, "=")) {
        Some(text::cat("unsupported stdio field ", key))
    } else {
        None
    }
}

fn fields(command: &str) -> (result: Option<String>)
    ensures
        text::view_of(result) == fields_fault(command@),
{
    if let Some(reason) = field(command, "http-proxy") {
        return Some(reason);
    }
    if let Some(reason) = field(command, "url") {
        return Some(reason);
    }
    if let Some(reason) = field(command, "unix-socket") {
        return Some(reason);
    }
    if let Some(reason) = field(command, "client-cert") {
        return Some(reason);
    }
    field(command, "client-key")
}

/// The binding of a command, or why it is none.
pub open spec fn command_doc(value: Seq<char>) -> Result<Doc, Seq<char>> {
    match command_of(value) {
        Err(reason) => Err(reason),
        Ok((name, command)) => if is_qualified(value) && fields_fault(command) is Some {
            Err(fields_fault(command)->Some_0)
        } else {
            match (words_of(command), channel_of(name)) {
                (Err(reason), _) => Err(reason),
                (_, Err(reason)) => Err(reason),
                (Ok(_), Ok(name)) => Ok(
                    Doc::object().with("channel"@, Doc::Text(name)).with(
                        "command"@,
                        Doc::Text(command),
                    ),
                ),
            }
        },
    }
}

/// What is read or why nothing is.
pub open spec fn reads(result: Result<Json, String>, expected: Result<Doc, Seq<char>>) -> bool {
    match (result, expected) {
        (Ok(value), Ok(doc)) => value.doc() == doc,
        (Err(reason), Err(expected)) => reason@ == expected,
        _ => false,
    }
}

fn command_binding(value: &str) -> (result: Result<Json, String>)
    ensures
        reads(result, command_doc(value@)),
{
    let (name, command) = match command(value) {
        Ok(found) => found,
        Err(reason) => {
            return Err(reason);
        },
    };
    if qualified(value) {
        if let Some(reason) = fields(&command) {
            return Err(reason);
        }
    }
    match command_args(&command) {
        Ok(_) => {},
        Err(reason) => {
            return Err(reason);
        },
    }
    match channel(&name) {
        Ok(name) => Ok(
            Json::object().with("channel", Json::text(&name)).with(
                "command",
                Json::text(&command),
            ),
        ),
        Err(reason) => Err(reason),
    }
}

/// A text with the dashes in it replaced.
pub open spec fn undashed(value: Seq<char>) -> Seq<char> {
    value.map_values(
        |ch: char|
            if ch == '-' {
                '_'
            } else {
                ch
            },
    )
}

fn undash(value: &str) -> (result: String)
    ensures
        result@ == undashed(value@),
{
    let all = text::chars(value);
    let mut result = String::new();
    let mut index: usize = 0;
    assert(result@ =~= undashed(value@).take(0));
    while index < all.len()
        invariant
            index <= all.len(),
            all@ == value@,
            result@ == undashed(value@).take(index as int),
        decreases all.len() - index,
    {
        assert(undashed(value@).take(index + 1) == undashed(value@).take(index as int).push(
            undashed(value@)[index as int],
        ));
        result.push(
            if all[index] == '-' {
                '_'
            } else {
                all[index]
            },
        );
        index = index + 1;
    }
    assert(undashed(value@).take(value@.len() as int) == undashed(value@));
    result
}

/// Whether a character is a quote.
pub open spec fn is_quote(ch: char) -> bool {
    ch == '"' || ch == '\''
}

/// A text without quotes in front.
pub open spec fn unquoted_front(value: Seq<char>) -> Seq<char>
    decreases value.len(),
{
    if value.len() > 0 && is_quote(value[0]) {
        unquoted_front(value.drop_first())
    } else {
        value
    }
}

/// A text without quotes at its end.
pub open spec fn unquoted_back(value: Seq<char>) -> Seq<char>
    decreases value.len(),
{
    if value.len() > 0 && is_quote(value.last()) {
        unquoted_back(value.drop_last())
    } else {
        value
    }
}

fn unquote(value: &str) -> (result: String)
    ensures
        result@ == unquoted_back(unquoted_front(value@)),
{
    let all = text::chars(value);
    let mut from: usize = 0;
    assert(value@.skip(0) =~= value@);
    while from < all.len() && (all[from] == '"' || all[from] == '\'')
        invariant
            from <= all.len(),
            all@ == value@,
            unquoted_front(value@) == unquoted_front(value@.skip(from as int)),
        decreases all.len() - from,
    {
        assert(value@.skip(from as int).drop_first() =~= value@.skip(from + 1));
        from = from + 1;
    }
    let ghost front = value@.skip(from as int);
    assert(unquoted_front(front) == front);
    let mut to: usize = all.len();
    assert(value@.subrange(from as int, to as int) =~= front);
    while to > from && (all[to - 1] == '"' || all[to - 1] == '\'')
        invariant
            from <= to <= all.len(),
            all@ == value@,
            unquoted_back(front) == unquoted_back(value@.subrange(from as int, to as int)),
        decreases to,
    {
        assert(value@.subrange(from as int, to as int).drop_last() =~= value@.subrange(
            from as int,
            to - 1,
        ));
        to = to - 1;
    }
    let result = text::piece(&all, from, to);
    assert(result@ =~= value@.subrange(from as int, to as int));
    assert(unquoted_back(result@) == result@);
    result
}

/// A field of an entry.
pub enum FieldView {
    /// It is left out.
    Skip,
    Field(Seq<char>, Seq<char>),
    Fault(Seq<char>),
}

/// What a field of an entry says.
pub open spec fn field_of(piece: Seq<char>, target: bool) -> FieldView {
    let trimmed = text::trim_of(piece);
    if trimmed.len() == 0 {
        FieldView::Skip
    } else {
        match text::split_once_of(trimmed, '=') {
            None => FieldView::Fault("channel fields use name=value"@),
            Some((name, given)) => {
                let key = undashed(text::trim_of(name));
                let value = text::trim_of(given);
                if target {
                    let key = text::lowercase_of(key);
                    let value = unquoted_back(unquoted_front(value));
                    if key == "desc"@ {
                        FieldView::Field("description"@, value)
                    } else if key == "label"@ || key == "url"@ || key == "unix_socket"@ {
                        FieldView::Field(key, value)
                    } else {
                        FieldView::Skip
                    }
                } else if key.len() == 0 || value.len() == 0 {
                    FieldView::Fault("channel fields must not be empty"@)
                } else {
                    FieldView::Field(key, value)
                }
            },
        }
    }
}

/// What the first pieces of an entry say, or why they say nothing.
pub open spec fn entry_of(pieces: Seq<Seq<char>>, target: bool, count: int) -> Result<Doc, Seq<char>>
    decreases count,
{
    if count <= 0 {
        Ok(Doc::object())
    } else {
        match entry_of(pieces, target, count - 1) {
            Err(reason) => Err(reason),
            Ok(before) => match field_of(pieces[count - 1], target) {
                FieldView::Skip => Ok(before),
                FieldView::Field(key, value) => Ok(before.with(key, Doc::Text(value))),
                FieldView::Fault(reason) => Err(reason),
            },
        }
    }
}

proof fn lemma_entry_fails(pieces: Seq<Seq<char>>, target: bool, at: int, count: int)
    requires
        0 <= at <= count,
        entry_of(pieces, target, at) is Err,
    ensures
        entry_of(pieces, target, count) == entry_of(pieces, target, at),
    decreases count - at,
{
    if at < count {
        lemma_entry_fails(pieces, target, at, count - 1);
    }
}

/// Whether an entry of an object is a text that is not empty.
pub open spec fn is_given(doc: Doc, key: Seq<char>) -> bool {
    match doc.at(key).text() {
        Some(value) => value.len() > 0,
        None => false,
    }
}

/// The server or the target of an entry, or why it is none.
pub open spec fn fields_doc(value: Seq<char>, target: bool) -> Result<Doc, Seq<char>> {
    let pieces = text::split_of(text::trim_of(value), ',');
    match entry_of(pieces, target, pieces.len() as int) {
        Err(reason) => Err(reason),
        Ok(doc) => if !is_given(doc, "url"@) {
            Err("target URL is required"@)
        } else if target && !is_given(doc, "label"@) {
            Err("target label is required"@)
        } else {
            Ok(doc)
        },
    }
}

fn read_field(piece: &str, target: bool) -> (result: Result<Option<(String, String)>, String>)
    ensures
        match result {
            Ok(None) => field_of(piece@, target) is Skip,
            Ok(Some((key, value))) => field_of(piece@, target) == FieldView::Field(key@, value@),
            Err(reason) => field_of(piece@, target) == FieldView::Fault(reason@),
        },
{
    let trimmed = text::trim(piece);
    if trimmed.is_empty() {
        return Ok(None);
    }
    let (name, given) = match text::split_once(&trimmed, '=') {
        Some(found) => found,
        None => {
            return Err("channel fields use name=value".to_owned());
        },
    };
    let key = undash(&text::trim(&name));
    let value = text::trim(&given);
    if !target {
        if key.is_empty() || value.is_empty() {
            return Err("channel fields must not be empty".to_owned());
        }
        return Ok(Some((key, value)));
    }
    let key = text::lowercase(&key);
    let value = unquote(&value);
    if text::same(&key, "desc") {
        return Ok(Some(("description".to_owned(), value)));
    }
    if text::same(&key, "label") || text::same(&key, "url") || text::same(&key, "unix_socket") {
        return Ok(Some((key, value)));
    }
    Ok(None)
}

fn given(value: &Json, key: &str) -> (result: bool)
    ensures
        result == is_given(value.doc(), key@),
{
    match value.get_text(key) {
        Some(inner) => !inner.is_empty(),
        None => false,
    }
}

fn fields_binding(value: &str, target: bool) -> (result: Result<Json, String>)
    ensures
        reads(result, fields_doc(value@, target)),
{
    let pieces = text::split(&text::trim(value), ',');
    let ghost all = text::views(pieces@);
    let mut made = Json::object();
    let mut index: usize = 0;
    while index < pieces.len()
        invariant
            index <= pieces.len(),
            all == text::views(pieces@),
            all.len() == pieces@.len(),
            all == text::split_of(text::trim_of(value@), ','),
            entry_of(all, target, index as int) == Ok::<Doc, Seq<char>>(made.doc()),
        decreases pieces.len() - index,
    {
        assert(all[index as int] == pieces@[index as int]@);
        match read_field(&pieces[index], target) {
            Ok(None) => {},
            Ok(Some((key, value))) => {
                made = made.with(&key, Json::text(&value));
            },
            Err(reason) => {
                proof {
                    lemma_entry_fails(all, target, index + 1, all.len() as int);
                }
                return Err(reason);
            },
        }
        index = index + 1;
    }
    if !given(&made, "url") {
        return Err("target URL is required".to_owned());
    }
    if target && !given(&made, "label") {
        return Err("target label is required".to_owned());
    }
    Ok(made)
}

/// The service or the target that an argument names, or why it names none.
pub open spec fn mapping_of(value: Seq<char>, kind: Kind) -> Result<Doc, Seq<char>> {
    if kind == Kind::Commands {
        command_doc(value)
    } else if kind == Kind::Servers && !is_qualified(value) {
        Ok(Doc::object().with("url"@, Doc::Text(value)))
    } else {
        fields_doc(value, kind == Kind::Targets)
    }
}

/// The service or the target that an argument names, or why it names none.
pub fn mapping(value: &str, kind: Kind) -> (result: Result<Json, String>)
    ensures
        reads(result, mapping_of(value@, kind)),
{
    match kind {
        Kind::Commands => command_binding(value),
        Kind::Servers => if qualified(value) {
            fields_binding(value, false)
        } else {
            Ok(Json::object().with("url", Json::text(value)))
        },
        Kind::Targets => fields_binding(value, true),
        _ => fields_binding(value, false),
    }
}

/// An entry with a name in front is qualified, whatever its capitals and the white space around it.
pub proof fn lemma_qualified(value: Seq<char>, rest: Seq<char>)
    ensures
        text::lowercase_of(text::trim_of(value)) == "url="@ + rest ==> is_qualified(value),
        text::lowercase_of(text::trim_of(value)) == "command="@ + rest ==> is_qualified(value),
        text::lowercase_of(text::trim_of(value)) == "channel="@ + rest ==> is_qualified(value),
        text::lowercase_of(text::trim_of(value)) == "unix-socket="@ + rest ==> is_qualified(value),
        text::lowercase_of(text::trim_of(value)) == "http-proxy="@ + rest ==> is_qualified(value),
        text::lowercase_of(text::trim_of(value)) == "client-cert="@ + rest ==> is_qualified(value),
        text::lowercase_of(text::trim_of(value)) == "client-key="@ + rest ==> is_qualified(value),
        text::trim_of(value).len() == 0 && text::lowercase_of(text::trim_of(value)).len() == 0
            ==> !is_qualified(value),
{
    reveal_strlit("url=");
    assert(("url="@ + rest).subrange(0, "url="@.len() as int) =~= "url="@);
    reveal_strlit("command=");
    assert(("command="@ + rest).subrange(0, "command="@.len() as int) =~= "command="@);
    reveal_strlit("channel=");
    assert(("channel="@ + rest).subrange(0, "channel="@.len() as int) =~= "channel="@);
    reveal_strlit("unix-socket=");
    assert(("unix-socket="@ + rest).subrange(0, "unix-socket="@.len() as int) =~= "unix-socket="@);
    reveal_strlit("http-proxy=");
    assert(("http-proxy="@ + rest).subrange(0, "http-proxy="@.len() as int) =~= "http-proxy="@);
    reveal_strlit("client-cert=");
    assert(("client-cert="@ + rest).subrange(0, "client-cert="@.len() as int) =~= "client-cert="@);
    reveal_strlit("client-key=");
    assert(("client-key="@ + rest).subrange(0, "client-key="@.len() as int) =~= "client-key="@);
}

/// A plain command is one of the main channel, as it stands.
pub proof fn lemma_plain_command(value: Seq<char>)
    requires
        !is_qualified(value),
    ensures
        command_of(value) == Ok::<(Seq<char>, Seq<char>), Seq<char>>(("main"@, value)),
{
}

/// A qualified command names its channel in front of the command or at its end, and is one of the main channel where it
/// names none.
pub proof fn lemma_qualified_command(value: Seq<char>, rest: Seq<char>, channel: Seq<char>, command: Seq<char>)
    requires
        is_qualified(value),
    ensures
        text::after_prefix(text::trim_of(value), "channel="@) == Some(rest) && text::split_once_of(rest, ',')
            is None ==> command_of(value) is Err,
        text::after_prefix(text::trim_of(value), "channel="@) == Some(rest) && text::split_once_of(rest, ',')
            == Some((channel, command)) ==> (text::after_prefix(text::trim_of(command), "command="@) matches Some(
            asked,
        ) ==> command_of(value) == Ok::<(Seq<char>, Seq<char>), Seq<char>>(
            (text::trim_of(channel), text::trim_of(asked)),
        )),
        text::after_prefix(text::trim_of(value), "channel="@) is None && text::after_prefix(
            text::trim_of(value),
            "command="@,
        ) == Some(rest) && cut_last_of(text::trim_of(rest), ",channel="@) is None ==> command_of(value)
            == Ok::<(Seq<char>, Seq<char>), Seq<char>>(("main"@, text::trim_of(rest))),
        text::after_prefix(text::trim_of(value), "channel="@) is None && text::after_prefix(
            text::trim_of(value),
            "command="@,
        ) == Some(rest) && cut_last_of(text::trim_of(rest), ",channel="@) == Some((command, channel))
            ==> command_of(value) == Ok::<(Seq<char>, Seq<char>), Seq<char>>(
            (text::trim_of(channel), text::trim_of(command)),
        ),
        text::after_prefix(text::trim_of(value), "channel="@) is None && text::after_prefix(
            text::trim_of(value),
            "command="@,
        ) is None ==> command_of(value) is Err,
{
}

/// A text is cut at the last place at which a part stands.
pub proof fn lemma_cut_last(value: Seq<char>, part: Seq<char>, at: int, from: int)
    requires
        0 <= at <= from,
        at + part.len() <= value.len(),
        value.subrange(at, at + part.len()) == part,
        forall|i: int|
            at < i <= from && i + part.len() <= value.len() ==> #[trigger] value.subrange(i, i + part.len())
                != part,
    ensures
        last_from(value, part, from) == Some(at),
        from == value.len() ==> cut_last_of(value, part) == Some((value.take(at), value.skip(at + part.len()))),
    decreases from - at,
{
    if at < from {
        assert(from + part.len() <= value.len() ==> value.subrange(from, from + part.len()) != part);
        lemma_cut_last_step(value, part, at, from - 1);
    }
}

proof fn lemma_cut_last_step(value: Seq<char>, part: Seq<char>, at: int, from: int)
    requires
        0 <= at <= from,
        at + part.len() <= value.len(),
        value.subrange(at, at + part.len()) == part,
        forall|i: int|
            at < i <= from && i + part.len() <= value.len() ==> #[trigger] value.subrange(i, i + part.len())
                != part,
    ensures
        last_from(value, part, from) == Some(at),
    decreases from - at,
{
    if at < from {
        assert(from + part.len() <= value.len() ==> value.subrange(from, from + part.len()) != part);
        lemma_cut_last_step(value, part, at, from - 1);
    }
}

/// A command for a process names no field of a server.
pub proof fn lemma_command_fields(command: Seq<char>)
    requires
        fields_fault(command) is None,
    ensures
        !text::occurs(text::lowercase_of(command), ","@ + "http-proxy"@ + "="@),
        !text::occurs(text::lowercase_of(command), ","@ + "url"@ + "="@),
        !text::occurs(text::lowercase_of(command), ","@ + "unix-socket"@ + "="@),
        !text::occurs(text::lowercase_of(command), ","@ + "client-cert"@ + "="@),
        !text::occurs(text::lowercase_of(command), ","@ + "client-key"@ + "="@),
{
}

/// A command is kept as it was written, with its channel; it is refused where it holds no words, its channel is no name,
/// or it is qualified and names a field of a server.
pub proof fn lemma_command_kept(value: Seq<char>, name: Seq<char>, command: Seq<char>)
    requires
        command_of(value) == Ok::<(Seq<char>, Seq<char>), Seq<char>>((name, command)),
    ensures
        command_doc(value) matches Ok(doc) ==> {
            &&& doc.at("command"@) == Doc::Text(command)
            &&& channel_of(name) matches Ok(channel) && doc.at("channel"@) == Doc::Text(channel)
            &&& words_of(command) is Ok
            &&& is_qualified(value) ==> fields_fault(command) is None
        },
        words_of(command) is Ok && channel_of(name) is Ok && (!is_qualified(value) || fields_fault(command)
            is None) ==> command_doc(value) is Ok,
{
    reveal_strlit("command");
    reveal_strlit("channel");
    assert("command"@.len() == 7 && "command"@[1] == 'o');
    assert("channel"@.len() == 7 && "channel"@[1] == 'h');
}

/// A field is a name and a value. In a target only the known names count, without regard to capitals and without the
/// quotes around the value; elsewhere every name does, and neither part is empty.
pub proof fn lemma_fields_named(piece: Seq<char>, name: Seq<char>, given: Seq<char>)
    ensures
        text::trim_of(piece).len() == 0 ==> field_of(piece, true) == FieldView::Skip && field_of(piece, false)
            == FieldView::Skip,
        text::trim_of(piece).len() > 0 && text::split_once_of(text::trim_of(piece), '=') is None ==> field_of(
            piece,
            true,
        ) is Fault && field_of(piece, false) is Fault,
        text::trim_of(piece).len() > 0 && text::split_once_of(text::trim_of(piece), '=') == Some((name, given))
            ==> {
            let key = undashed(text::trim_of(name));
            let value = text::trim_of(given);
            let bare = unquoted_back(unquoted_front(value));
            &&& key.len() > 0 && value.len() > 0 ==> field_of(piece, false) == FieldView::Field(key, value)
            &&& key.len() == 0 || value.len() == 0 ==> field_of(piece, false) is Fault
            &&& text::lowercase_of(key) == "desc"@ ==> field_of(piece, true) == FieldView::Field(
                "description"@,
                bare,
            )
            &&& text::lowercase_of(key) == "label"@ ==> field_of(piece, true) == FieldView::Field("label"@, bare)
            &&& text::lowercase_of(key) == "url"@ ==> field_of(piece, true) == FieldView::Field("url"@, bare)
            &&& text::lowercase_of(key) == "unix_socket"@ ==> field_of(piece, true) == FieldView::Field(
                "unix_socket"@,
                bare,
            )
            &&& text::lowercase_of(key).len() == 0 ==> field_of(piece, true) == FieldView::Skip
        },
{
    reveal_strlit("desc");
    reveal_strlit("label");
    reveal_strlit("url");
    reveal_strlit("unix_socket");
    assert("desc"@.len() == 4);
    assert("label"@.len() == 5);
    assert("url"@.len() == 3);
    assert("unix_socket"@.len() == 11);
}

/// Dashes in a name count as underscores; quotes are taken off both ends.
pub proof fn lemma_names_undashed(value: Seq<char>, at: int)
    ensures
        undashed(value).len() == value.len(),
        0 <= at < value.len() && value[at] == '-' ==> undashed(value)[at] == '_',
        0 <= at < value.len() && value[at] != '-' ==> undashed(value)[at] == value[at],
        unquoted_front(seq!['"'] + value) == unquoted_front(value),
        unquoted_front(seq!['\''] + value) == unquoted_front(value),
        value.len() > 0 && value[0] != '"' && value[0] != '\'' ==> unquoted_front(value) == value,
        unquoted_back(value.push('"')) == unquoted_back(value),
        unquoted_back(value.push('\'')) == unquoted_back(value),
        value.len() > 0 && value.last() != '"' && value.last() != '\'' ==> unquoted_back(value) == value,
{
    assert((seq!['"'] + value).drop_first() =~= value);
    assert((seq!['\''] + value).drop_first() =~= value);
    assert(value.push('"').drop_last() =~= value);
    assert(value.push('\'').drop_last() =~= value);
}

/// The fields of an entry count one after the other.
pub proof fn lemma_entry_steps(pieces: Seq<Seq<char>>, target: bool, count: int, before: Doc)
    requires
        0 < count <= pieces.len(),
        entry_of(pieces, target, count - 1) == Ok::<Doc, Seq<char>>(before),
    ensures
        field_of(pieces[count - 1], target) matches FieldView::Field(key, value) ==> entry_of(
            pieces,
            target,
            count,
        ) == Ok::<Doc, Seq<char>>(before.with(key, Doc::Text(value))),
        field_of(pieces[count - 1], target) is Skip ==> entry_of(pieces, target, count) == Ok::<Doc, Seq<char>>(
            before,
        ),
        field_of(pieces[count - 1], target) is Fault ==> entry_of(pieces, target, count) is Err,
{
}

/// An entry names a URL, and one of a target a label too; a plain server is its URL.
pub proof fn lemma_entry_complete(value: Seq<char>, doc: Doc)
    ensures
        mapping_of(value, Kind::Targets) == Ok::<Doc, Seq<char>>(doc) ==> (doc.at("url"@) matches Doc::Text(url)
            && url.len() > 0) && (doc.at("label"@) matches Doc::Text(label) && label.len() > 0),
        is_qualified(value) && mapping_of(value, Kind::Servers) == Ok::<Doc, Seq<char>>(doc) ==> (doc.at(
            "url"@,
        ) matches Doc::Text(url) && url.len() > 0),
        !is_qualified(value) && mapping_of(value, Kind::Servers) == Ok::<Doc, Seq<char>>(doc) ==> doc.at("url"@)
            == Doc::Text(value),
        !is_qualified(value) ==> mapping_of(value, Kind::Servers) is Ok,
        mapping_of(value, Kind::Commands) == command_doc(value),
{
}

/// Which reason an entry is refused for.
pub proof fn lemma_entry_reasons(value: Seq<char>, doc: Doc)
    requires
        ({
            let pieces = text::split_of(text::trim_of(value), ',');
            entry_of(pieces, true, pieces.len() as int) == Ok::<Doc, Seq<char>>(doc)
        }),
    ensures
        !is_given(doc, "url"@) ==> mapping_of(value, Kind::Targets) == Err::<Doc, Seq<char>>(
            "target URL is required"@,
        ),
        is_given(doc, "url"@) && !is_given(doc, "label"@) ==> mapping_of(value, Kind::Targets) == Err::<
            Doc,
            Seq<char>,
        >("target label is required"@),
        is_given(doc, "url"@) && is_given(doc, "label"@) ==> mapping_of(value, Kind::Targets) == Ok::<
            Doc,
            Seq<char>,
        >(doc),
{
}

} // verus!
