//! Single values of a configuration: names of channels and profiles, commands, paths and endpoints.

use vstd::prelude::*;
use crate::address::{is_web, joined_url, parsed_url, url_root, url_with_segments};
use crate::config::main_channel;
use crate::config::reference::gives;
use crate::pattern::percent_decoded;
use crate::table::Table;
use crate::{address, pattern, text};

verus! {

/// A character of a channel name.
pub open spec fn is_channel_char(ch: char) -> bool {
    text::is_lower(ch) || text::is_digit(ch) || ch == '_' || ch == '-'
}

fn channel_text(value: &str) -> (result: bool)
    ensures
        result == text::every(value@, |ch: char| is_channel_char(ch)),
{
    let all = text::chars(value);
    let ghost test = |ch: char| is_channel_char(ch);
    let mut index: usize = 0;
    while index < all.len()
        invariant
            index <= all.len(),
            all@ == value@,
            test == (|ch: char| is_channel_char(ch)),
            forall|i: int| 0 <= i < index ==> test(#[trigger] value@[i]),
        decreases all.len() - index,
    {
        let ch = all[index];
        if !(text::small(ch) || text::digit(ch) || ch == '_' || ch == '-') {
            assert(!test(value@[index as int]));
            return false;
        }
        assert(test(value@[index as int]));
        index = index + 1;
    }
    true
}

/// The channel that a name stands for, or why there is none.
pub open spec fn channel_of(name: Seq<char>) -> Result<Seq<char>, Seq<char>> {
    let lowered = text::lowercase_of(text::trim_of(name));
    if lowered.len() == 0 {
        Ok("main"@)
    } else if text::byte_len(lowered) <= 64 && text::every(
        lowered,
        |ch: char| is_channel_char(ch),
    ) {
        Ok(lowered)
    } else {
        Err("invalid channel name "@ + lowered)
    }
}

/// The channel that a name stands for.
pub fn channel(name: &str) -> (result: Result<String, String>)
    ensures
        gives(result, channel_of(name@)),
{
    let lowered = text::lowercase(&text::trim(name));
    if lowered.is_empty() {
        return Ok(main_channel());
    }
    if !text::fits(&lowered, 64) || !channel_text(&lowered) {
        return Err(text::cat("invalid channel name ", &lowered));
    }
    Ok(lowered)
}

/// The name of a channel stands for itself.
pub proof fn lemma_channel_again(name: Seq<char>)
    requires
        channel_of(name) is Ok,
    ensures
        channel_of(channel_of(name)->Ok_0) == channel_of(name),
{
    let found = channel_of(name)->Ok_0;
    let test = |ch: char| is_channel_char(ch);
    if found == "main"@ && text::lowercase_of(text::trim_of(name)).len() == 0 {
        reveal_strlit("main");
        assert(text::every(found, test)) by {
            assert(forall|i: int| 0 <= i < found.len() ==> test(#[trigger] found[i]));
        }
        text::lemma_byte_len_bounds(found);
        assert(text::byte_len(found) <= 64);
    }
    assert forall|i: int| 0 <= i < found.len() implies !text::is_space(#[trigger] found[i])
        && text::lower_of(found[i]) == found[i] by {
        assert(test(found[i]));
    }
    text::lemma_trim_solid(found);
    assert(text::lowercase_of(found) =~= found);
}

/// A character of a profile name.
pub open spec fn is_profile_char(ch: char) -> bool {
    text::is_alnum(ch) || ch == '.' || ch == '_' || ch == '-'
}

/// Whether the name can name a profile.
pub open spec fn is_profile_name(name: Seq<char>) -> bool {
    &&& name.len() > 0
    &&& text::byte_len(name) <= 128
    &&& text::is_alnum(name[0])
    &&& text::every(name, |ch: char| is_profile_char(ch))
}

/// The profile that a name stands for, or why there is none.
pub open spec fn profile_name_of(name: Seq<char>) -> Result<Seq<char>, Seq<char>> {
    let trimmed = text::trim_of(name);
    if is_profile_name(trimmed) {
        Ok(trimmed)
    } else {
        Err(
            "invalid profile name "@ + text::debug_text(trimmed)
                + ": use letters, numbers, '.', '_' or '-'"@,
        )
    }
}

/// The profile that a name stands for.
pub fn profile_name(name: &str) -> (result: Result<String, String>)
    ensures
        gives(result, profile_name_of(name@)),
{
    let trimmed = text::trim(name);
    let all = text::chars(&trimmed);
    let mut valid = all.len() > 0 && text::fits(&trimmed, 128) && text::alnum(all[0]);
    let ghost test = |ch: char| is_profile_char(ch);
    let mut index: usize = 0;
    let ghost started = valid;
    while index < all.len()
        invariant
            index <= all.len(),
            all@ == trimmed@,
            test == (|ch: char| is_profile_char(ch)),
            valid == (started && forall|i: int| 0 <= i < index ==> test(#[trigger] trimmed@[i])),
        decreases all.len() - index,
    {
        let ch = all[index];
        let fine = text::alnum(ch) || ch == '.' || ch == '_' || ch == '-';
        assert(fine == test(trimmed@[index as int]));
        valid = valid && fine;
        index = index + 1;
    }
    if valid {
        Ok(trimmed)
    } else {
        Err(
            text::cat3(
                "invalid profile name ",
                &text::quoted(&trimmed),
                ": use letters, numbers, '.', '_' or '-'",
            ),
        )
    }
}

/// A path below another one: an absolute path stands for itself.
pub open spec fn path_below(base: Seq<char>, rest: Seq<char>) -> Seq<char> {
    if rest.len() > 0 && rest[0] == '/' {
        rest
    } else if base.len() == 0 || base.last() == '/' {
        base + rest
    } else {
        base + "/"@ + rest
    }
}

/// A path below another one.
pub fn below(base: &str, rest: &str) -> (result: String)
    ensures
        result@ == path_below(base@, rest@),
{
    let front = text::chars(base);
    let back = text::chars(rest);
    if back.len() > 0 && back[0] == '/' {
        rest.to_owned()
    } else if front.len() == 0 || front[front.len() - 1] == '/' {
        text::cat(base, rest)
    } else {
        text::cat3(base, "/", rest)
    }
}

/// The variable, where it holds more than white space.
pub open spec fn variable_of(variables: Map<Seq<char>, String>, name: Seq<char>) -> Option<
    Seq<char>,
> {
    if variables.dom().contains(name) && text::trim_of(variables[name]@).len() > 0 {
        Some(variables[name]@)
    } else {
        None
    }
}

/// The variable, where it holds more than white space.
pub fn variable(variables: &Table<String>, name: &str) -> (result: Option<String>)
    ensures
        text::view_of(result) == variable_of(variables@, name@),
{
    match variables.get(name) {
        Some(value) => if text::trim(value).is_empty() {
            None
        } else {
            Some(value.clone())
        },
        None => None,
    }
}

/// The path with a tilde in front expanded, or why there is none.
pub open spec fn expanded_of(value: Seq<char>, variables: Map<Seq<char>, String>) -> Result<
    Seq<char>,
    Seq<char>,
> {
    let trimmed = text::trim_of(value);
    if trimmed == "~"@ || "~/"@.is_prefix_of(trimmed) {
        if variables.dom().contains("HOME"@) && variables["HOME"@]@.len() > 0 {
            Ok(
                path_below(
                    variables["HOME"@]@,
                    match text::after_prefix(trimmed, "~/"@) {
                        Some(rest) => rest,
                        None => Seq::empty(),
                    },
                ),
            )
        } else {
            Err("cannot expand home path without HOME"@)
        }
    } else {
        Ok(trimmed)
    }
}

/// The path with a tilde in front expanded.
pub fn expand_home(value: &str, variables: &Table<String>) -> (result: Result<String, String>)
    ensures
        gives(result, expanded_of(value@, variables@)),
{
    let trimmed = text::trim(value);
    if !text::same(&trimmed, "~") && !text::starts_with(&trimmed, "~/") {
        return Ok(trimmed);
    }
    let home = match variables.get("HOME") {
        Some(home) => home,
        None => {
            return Err("cannot expand home path without HOME".to_owned());
        },
    };
    if home.is_empty() {
        return Err("cannot expand home path without HOME".to_owned());
    }
    let rest = match text::strip_prefix(&trimmed, "~/") {
        Some(rest) => rest,
        None => String::new(),
    };
    Ok(below(home, &rest))
}

/// A path below an expanded one.
pub open spec fn expanded_below(
    value: Seq<char>,
    rest: Seq<char>,
    variables: Map<Seq<char>, String>,
) -> Result<Seq<char>, Seq<char>> {
    match expanded_of(value, variables) {
        Ok(base) => Ok(path_below(base, rest)),
        Err(reason) => Err(reason),
    }
}

fn expand_below(value: &str, rest: &str, variables: &Table<String>) -> (result: Result<
    String,
    String,
>)
    ensures
        gives(result, expanded_below(value@, rest@, variables@)),
{
    match expand_home(value, variables) {
        Ok(base) => Ok(below(&base, rest)),
        Err(reason) => Err(reason),
    }
}

/// The directory of profiles, or why there is none: the given one, the ones that the variables name,
/// or the one of the platform.
pub open spec fn profile_dir_of(
    explicit: Option<Seq<char>>,
    variables: Map<Seq<char>, String>,
    platform: Option<Seq<char>>,
) -> Result<Seq<char>, Seq<char>> {
    if explicit is Some && text::trim_of(explicit->0).len() > 0 {
        expanded_of(explicit->0, variables)
    } else if variable_of(variables, "TUNNEL_CLIENT_PROFILE_DIR"@) is Some {
        expanded_of(variable_of(variables, "TUNNEL_CLIENT_PROFILE_DIR"@)->0, variables)
    } else if variable_of(variables, "XDG_CONFIG_HOME"@) is Some {
        expanded_below(
            variable_of(variables, "XDG_CONFIG_HOME"@)->0,
            "tunnel-client"@,
            variables,
        )
    } else if variable_of(variables, "HOME"@) is Some {
        expanded_below(
            variable_of(variables, "HOME"@)->0,
            ".config/tunnel-client"@,
            variables,
        )
    } else {
        match platform {
            Some(directory) => Ok(path_below(directory, "tunnel-client"@)),
            None => Err("profile directory is unavailable; use --profile-dir"@),
        }
    }
}

/// The directory of profiles.
pub fn profile_dir(explicit: Option<&str>, variables: &Table<String>, platform: Option<&str>) -> (result: Result<
    String,
    String,
>)
    ensures
        gives(
            result,
            profile_dir_of(
                text::str_view(explicit),
                variables@,
                text::str_view(platform),
            ),
        ),
{
    if let Some(directory) = explicit {
        if !text::trim(directory).is_empty() {
            return expand_home(directory, variables);
        }
    }
    if let Some(directory) = variable(variables, "TUNNEL_CLIENT_PROFILE_DIR") {
        return expand_home(&directory, variables);
    }
    if let Some(directory) = variable(variables, "XDG_CONFIG_HOME") {
        return expand_below(&directory, "tunnel-client", variables);
    }
    if let Some(directory) = variable(variables, "HOME") {
        return expand_below(&directory, ".config/tunnel-client", variables);
    }
    match platform {
        Some(directory) => Ok(below(directory, "tunnel-client")),
        None => Err("profile directory is unavailable; use --profile-dir".to_owned()),
    }
}

/// The file of a profile, or why there is none.
pub open spec fn profile_path_of(
    name: Seq<char>,
    directory: Option<Seq<char>>,
    variables: Map<Seq<char>, String>,
    platform: Option<Seq<char>>,
) -> Result<Seq<char>, Seq<char>> {
    match profile_dir_of(directory, variables, platform) {
        Err(reason) => Err(reason),
        Ok(base) => match profile_name_of(name) {
            Err(reason) => Err(reason),
            Ok(found) => Ok(path_below(base, found + ".yaml"@)),
        },
    }
}

/// The file of a profile.
pub fn profile_path(
    name: &str,
    directory: Option<&str>,
    variables: &Table<String>,
    platform: Option<&str>,
) -> (result: Result<String, String>)
    ensures
        gives(
            result,
            profile_path_of(
                name@,
                text::str_view(directory),
                variables@,
                text::str_view(platform),
            ),
        ),
{
    let base = match profile_dir(directory, variables, platform) {
        Ok(base) => base,
        Err(reason) => {
            return Err(reason);
        },
    };
    match profile_name(name) {
        Ok(found) => Ok(below(&base, &text::cat(&found, ".yaml"))),
        Err(reason) => Err(reason),
    }
}

/// A command that is being split.
#[verifier::ext_equal]
pub struct Splitting {
    pub args: Seq<Seq<char>>,
    pub word: Seq<char>,
    /// The quotation mark that is open.
    pub quote: Option<char>,
    /// Whether the next character stands for itself.
    pub escaped: bool,
}

impl Splitting {
    pub open spec fn start() -> Splitting {
        Splitting { args: Seq::empty(), word: Seq::empty(), quote: None, escaped: false }
    }

    /// The state with the character in the word.
    pub open spec fn taking(self, ch: char) -> Splitting {
        Splitting { word: self.word.push(ch), escaped: false, ..self }
    }

    /// The state after a break between words.
    pub open spec fn broken(self) -> Splitting {
        if self.word.len() == 0 {
            self
        } else {
            Splitting { args: self.args.push(self.word), word: Seq::empty(), ..self }
        }
    }

    /// The state after one more character.
    pub open spec fn step(self, ch: char) -> Splitting {
        if self.escaped {
            self.taking(ch)
        } else if self.quote == Some('\'') {
            if ch == '\'' {
                Splitting { quote: None, ..self }
            } else {
                self.taking(ch)
            }
        } else if ch == '\\' {
            Splitting { escaped: true, ..self }
        } else if ch == '"' {
            Splitting {
                quote: if self.quote is Some {
                    None
                } else {
                    Some('"')
                },
                ..self
            }
        } else if self.quote is None && ch == '\'' {
            Splitting { quote: Some('\''), ..self }
        } else if self.quote is None && (ch == ' ' || ch == '\t' || ch == '\n' || ch == '\r') {
            self.broken()
        } else {
            self.taking(ch)
        }
    }
}

/// The state after the characters.
pub open spec fn splitting(value: Seq<char>) -> Splitting
    decreases value.len(),
{
    if value.len() == 0 {
        Splitting::start()
    } else {
        splitting(value.drop_last()).step(value.last())
    }
}

/// The words of a command, or why there are none.
pub open spec fn words_of(value: Seq<char>) -> Result<Seq<Seq<char>>, Seq<char>> {
    let state = splitting(text::trim_of(value));
    if state.escaped {
        Err("unterminated escape sequence"@)
    } else if state.quote is Some {
        Err("unterminated quoted string"@)
    } else if state.broken().args.len() == 0 {
        Err("command is empty"@)
    } else {
        Ok(state.broken().args)
    }
}

/// The words of a command.
pub fn command_args(value: &str) -> (result: Result<Vec<String>, String>)
    ensures
        match (result, words_of(value@)) {
            (Ok(args), Ok(expected)) => text::views(args@) == expected,
            (Err(reason), Err(expected)) => reason@ == expected,
            _ => false,
        },
{
    let trimmed = text::trim(value);
    let all = text::chars(&trimmed);
    let mut args: Vec<String> = Vec::new();
    let mut word = String::new();
    let mut quote: Option<char> = None;
    let mut escaped = false;
    let mut index: usize = 0;
    assert(all@.take(0).len() == 0);
    assert(text::views(args@) == Seq::<Seq<char>>::empty());
    while index < all.len()
        invariant
            index <= all.len(),
            all@ == text::trim_of(value@),
            splitting(all@.take(index as int)) == (Splitting {
                args: text::views(args@),
                word: word@,
                quote,
                escaped,
            }),
        decreases all.len() - index,
    {
        let ch = all[index];
        let ghost before = splitting(all@.take(index as int));
        proof {
            assert(all@.take(index + 1).drop_last() == all@.take(index as int));
            assert(all@.take(index + 1).last() == ch);
        }
        let single = match quote {
            Some(mark) => mark == '\'',
            None => false,
        };
        if escaped {
            word.push(ch);
            escaped = false;
        } else if single {
            if ch == '\'' {
                quote = None;
            } else {
                word.push(ch);
            }
        } else if ch == '\\' {
            escaped = true;
        } else if ch == '"' {
            quote = if quote.is_some() {
                None
            } else {
                Some('"')
            };
        } else if quote.is_none() && ch == '\'' {
            quote = Some('\'');
        } else if quote.is_none() && (ch == ' ' || ch == '\t' || ch == '\n' || ch == '\r') {
            if !word.is_empty() {
                assert(text::views(args@.push(word)) == text::views(args@).push(word@));
                args.push(word);
                word = String::new();
            }
        } else {
            word.push(ch);
        }
        assert(before.step(ch) == (Splitting {
            args: text::views(args@),
            word: word@,
            quote,
            escaped,
        }));
        index = index + 1;
    }
    assert(all@.take(all@.len() as int) == all@);
    if escaped {
        return Err("unterminated escape sequence".to_owned());
    }
    if quote.is_some() {
        return Err("unterminated quoted string".to_owned());
    }
    if !word.is_empty() {
        assert(text::views(args@.push(word)) == text::views(args@).push(word@));
        args.push(word);
    }
    assert(text::views(args@).len() == args@.len());
    if args.len() == 0 {
        return Err("command is empty".to_owned());
    }
    Ok(args)
}

/// Every word of a command holds at least one character.
pub proof fn lemma_words_solid(value: Seq<char>)
    ensures
        words_of(value) is Ok ==> words_of(value)->Ok_0.len() > 0 && forall|i: int|
            0 <= i < words_of(value)->Ok_0.len() ==> (#[trigger] words_of(value)->Ok_0[i]).len() > 0,
{
    lemma_args_solid(text::trim_of(value));
}

proof fn lemma_args_solid(value: Seq<char>)
    ensures
        forall|i: int|
            0 <= i < splitting(value).args.len() ==> (#[trigger] splitting(value).args[i]).len() > 0,
    decreases value.len(),
{
    if value.len() > 0 {
        lemma_args_solid(value.drop_last());
    }
}

/// The segments of a path that stay: empty ones and dots fall away, and two dots take the one before
/// with them.
pub open spec fn kept_segments(parts: Seq<Seq<char>>) -> Seq<Seq<char>>
    decreases parts.len(),
{
    if parts.len() == 0 {
        Seq::empty()
    } else {
        let rest = kept_segments(parts.drop_last());
        let last = parts.last();
        if last.len() == 0 || last == "."@ {
            rest
        } else if last == ".."@ {
            if rest.len() == 0 {
                rest
            } else {
                rest.drop_last()
            }
        } else {
            rest.push(last)
        }
    }
}

fn keep_segments(parts: &Vec<String>) -> (result: Vec<String>)
    ensures
        text::views(result@) == kept_segments(text::views(parts@)),
{
    let ghost all = text::views(parts@);
    let mut result: Vec<String> = Vec::new();
    let mut index: usize = 0;
    assert(text::views(result@) == Seq::<Seq<char>>::empty());
    while index < parts.len()
        invariant
            index <= parts.len(),
            all == text::views(parts@),
            text::views(result@) == kept_segments(all.take(index as int)),
        decreases parts.len() - index,
    {
        let part = &parts[index];
        proof {
            assert(all.take(index + 1).drop_last() == all.take(index as int));
            assert(all.take(index + 1).last() == part@);
            assert(text::views(result@).len() == result@.len());
        }
        if part.is_empty() || text::same(part, ".") {
        } else if text::same(part, "..") {
            if result.len() > 0 {
                assert(text::views(result@.drop_last()) == text::views(result@).drop_last());
                let _ = result.pop();
            }
        } else {
            let own = part.clone();
            assert(text::views(result@.push(own)) == text::views(result@).push(own@));
            result.push(own);
        }
        index = index + 1;
    }
    assert(all.take(all.len() as int) == all);
    result
}

/// What a prefix of paths stands for, or why there is none.
pub open spec fn prefix_of(root: Seq<char>, prefix: Seq<char>) -> Result<Seq<char>, Seq<char>> {
    let trimmed = text::trim_of(prefix);
    if trimmed.len() == 0 {
        Ok(Seq::empty())
    } else if !"/"@.is_prefix_of(trimmed) || "//"@.is_prefix_of(trimmed) {
        Err("control-plane.url-path must start with '/' and contain only a path"@)
    } else {
        match joined_url(root, trimmed) {
            Err(reason) => Err(reason),
            Ok(full) => match parsed_url(full) {
                Err(reason) => Err(reason),
                Ok(parts) => if (parts.query is Some && parts.query->0.len() > 0)
                    || (parts.fragment is Some && parts.fragment->0.len() > 0) {
                    Err("control-plane.url-path cannot contain a query or fragment"@)
                } else {
                    percent_decoded(parts.path)
                },
            },
        }
    }
}

fn read_prefix(root: &str, prefix: &str) -> (result: Result<String, String>)
    ensures
        gives(result, prefix_of(root@, prefix@)),
{
    let trimmed = text::trim(prefix);
    if trimmed.is_empty() {
        return Ok(String::new());
    }
    if !text::starts_with(&trimmed, "/") || text::starts_with(&trimmed, "//") {
        return Err(
            "control-plane.url-path must start with '/' and contain only a path".to_owned(),
        );
    }
    let full = match address::join(root, &trimmed) {
        Ok(full) => full,
        Err(reason) => {
            return Err(reason);
        },
    };
    let parts = match address::parse(&full) {
        Ok(parts) => parts,
        Err(reason) => {
            return Err(reason);
        },
    };
    let query = match &parts.query {
        Some(value) => !value.is_empty(),
        None => false,
    };
    let fragment = match &parts.fragment {
        Some(value) => !value.is_empty(),
        None => false,
    };
    if query || fragment {
        return Err("control-plane.url-path cannot contain a query or fragment".to_owned());
    }
    pattern::percent_decode(&parts.path)
}

/// The URL of a route below a prefix, or why there is none.
pub open spec fn endpoint_of(base: Seq<char>, prefix: Seq<char>, route: Seq<char>) -> Result<
    Seq<char>,
    Seq<char>,
> {
    match parsed_url(base) {
        Err(reason) => Err(reason),
        Ok(_) => {
            match url_root(base) {
                None => Err("control-plane URL is too long"@),
                Some(root) => match prefix_of(root, prefix) {
                    Err(reason) => Err(reason),
                    Ok(front) => {
                        let segments = kept_segments(
                            text::split_of(front, '/') + text::split_of(route, '/'),
                        );
                        if text::byte_len(root) > address::LARGEST || segments.len() > address::LARGEST
                            || text::total_bytes(segments) > address::LARGEST {
                            Err("control-plane URL is too long"@)
                        } else {
                            match url_with_segments(root, segments) {
                                Some(url) => Ok(url),
                                None => Err("control-plane URL cannot contain path segments"@),
                            }
                        }
                    },
                },
            }
        },
    }
}

/// The URL of a route below a prefix.
pub fn endpoint(base: &str, prefix: &str, route: &str) -> (result: Result<String, String>)
    ensures
        gives(result, endpoint_of(base@, prefix@, route@)),
        is_web(base@) && text::byte_len(base@) <= address::LARGEST ==> url_root(base@) is Some,
{
    match address::parse(base) {
        Ok(_) => {},
        Err(reason) => {
            return Err(reason);
        },
    }
    let root = match address::root(base) {
        Some(root) => root,
        None => {
            return Err("control-plane URL is too long".to_owned());
        },
    };
    let front = match read_prefix(&root, prefix) {
        Ok(front) => front,
        Err(reason) => {
            return Err(reason);
        },
    };
    let mut parts = text::split(&front, '/');
    let mut back = text::split(route, '/');
    proof {
        assert(text::views(parts@ + back@) == text::views(parts@) + text::views(back@));
    }
    parts.append(&mut back);
    let segments = keep_segments(&parts);
    assert(text::views(segments@).len() == segments@.len());
    if !text::fits(&root, address::LARGEST) || segments.len() > address::LARGEST || !text::total_fits(
        &segments,
        address::LARGEST,
    ) {
        return Err("control-plane URL is too long".to_owned());
    }
    match address::with_segments(&root, &segments) {
        Some(url) => Ok(url),
        None => Err("control-plane URL cannot contain path segments".to_owned()),
    }
}

/// A channel is a name of small letters, digits, underscores and dashes, at most sixty-four long; capitals are made
/// small, and no name is the main channel.
pub proof fn lemma_channel_names(name: Seq<char>, at: int)
    ensures
        text::trim_of(name).len() == 0 ==> channel_of(name) == Ok::<Seq<char>, Seq<char>>("main"@),
        text::trim_of(name).len() > 0 && channel_of(name) is Ok ==> {
            let found = channel_of(name)->Ok_0;
            &&& found == text::lowercase_of(text::trim_of(name))
            &&& found.len() <= 64
            &&& 0 <= at < found.len() ==> 'a' <= found[at] <= 'z' || '0' <= found[at] <= '9' || found[at] == '_'
                || found[at] == '-'
        },
        0 < text::byte_len(text::lowercase_of(text::trim_of(name))) <= 64 && (forall|i: int|
            0 <= i < text::trim_of(name).len() ==> text::is_lower(
                #[trigger] text::lowercase_of(text::trim_of(name))[i],
            ) || text::is_digit(text::lowercase_of(text::trim_of(name))[i]) || text::lowercase_of(
                text::trim_of(name),
            )[i] == '_' || text::lowercase_of(text::trim_of(name))[i] == '-') ==> channel_of(name) is Ok,
{
    let lowered = text::lowercase_of(text::trim_of(name));
    let fit = |ch: char| is_channel_char(ch);
    text::lemma_byte_len_bounds(lowered);
    if lowered.len() > 0 && channel_of(name) is Ok {
        assert(text::every(lowered, fit));
        if 0 <= at < lowered.len() {
            assert(fit(lowered[at]));
        }
    }
    if forall|i: int| 0 <= i < lowered.len() ==> fit(#[trigger] lowered[i]) {
        assert(text::every(lowered, fit));
    }
}

/// A profile has a name that is a plain file name: it starts with a letter or a digit, and holds no slash.
pub proof fn lemma_profile_names(name: Seq<char>, at: int)
    requires
        profile_name_of(name) is Ok,
    ensures
        profile_name_of(name)->Ok_0 == text::trim_of(name),
        1 <= text::trim_of(name).len() <= 128,
        text::is_alnum(text::trim_of(name)[0]),
        0 <= at < text::trim_of(name).len() ==> text::trim_of(name)[at] != '/' && text::trim_of(name)[at]
            != '\\' && !text::is_space(text::trim_of(name)[at]),
{
    let trimmed = text::trim_of(name);
    text::lemma_byte_len_bounds(trimmed);
    let fit = |ch: char| is_profile_char(ch);
    assert(text::every(trimmed, fit));
    if 0 <= at < trimmed.len() {
        assert(fit(trimmed[at]));
    }
}

/// The profiles are where they are asked for, and else where a variable says, in the configuration of the user, or in
/// their home.
pub proof fn lemma_profile_places(
    explicit: Option<Seq<char>>,
    variables: Map<Seq<char>, String>,
    platform: Option<Seq<char>>,
)
    ensures
        explicit matches Some(given) ==> (text::trim_of(given).len() > 0 ==> profile_dir_of(
            explicit,
            variables,
            platform,
        ) == expanded_of(given, variables)),
        explicit is None && variable_of(variables, "TUNNEL_CLIENT_PROFILE_DIR"@) is Some ==> profile_dir_of(
            explicit,
            variables,
            platform,
        ) == expanded_of(variables["TUNNEL_CLIENT_PROFILE_DIR"@]@, variables),
        explicit is None && variable_of(variables, "TUNNEL_CLIENT_PROFILE_DIR"@) is None && variable_of(
            variables,
            "XDG_CONFIG_HOME"@,
        ) is Some ==> (expanded_of(variables["XDG_CONFIG_HOME"@]@, variables) matches Ok(base)
            ==> profile_dir_of(explicit, variables, platform) == Ok::<Seq<char>, Seq<char>>(
            path_below(base, "tunnel-client"@),
        )),
        explicit is None && variable_of(variables, "TUNNEL_CLIENT_PROFILE_DIR"@) is None && variable_of(
            variables,
            "XDG_CONFIG_HOME"@,
        ) is None && variable_of(variables, "HOME"@) is Some ==> (expanded_of(
            variables["HOME"@]@,
            variables,
        ) matches Ok(base) ==> profile_dir_of(explicit, variables, platform) == Ok::<Seq<char>, Seq<char>>(
            path_below(base, ".config/tunnel-client"@),
        )),
{
}

/// A profile is a file of its directory: its name with the ending of YAML behind it.
pub proof fn lemma_profile_path(
    name: Seq<char>,
    directory: Option<Seq<char>>,
    variables: Map<Seq<char>, String>,
    platform: Option<Seq<char>>,
)
    requires
        profile_path_of(name, directory, variables, platform) is Ok,
    ensures
        profile_dir_of(directory, variables, platform) is Ok,
        profile_name_of(name) is Ok,
        profile_path_of(name, directory, variables, platform)->Ok_0 == path_below(
            profile_dir_of(directory, variables, platform)->Ok_0,
            text::trim_of(name) + ".yaml"@,
        ),
{
}

/// A path goes below a base with one slash between, and an absolute one stands for itself; a tilde is the home.
pub proof fn lemma_paths_join(base: Seq<char>, rest: Seq<char>, variables: Map<Seq<char>, String>, value: Seq<char>)
    ensures
        rest.len() > 0 && rest[0] == '/' ==> path_below(base, rest) == rest,
        base.len() > 0 && base.last() != '/' && !(rest.len() > 0 && rest[0] == '/') ==> path_below(base, rest)
            == base + "/"@ + rest,
        base.len() > 0 && base.last() == '/' && !(rest.len() > 0 && rest[0] == '/') ==> path_below(base, rest)
            == base + rest,
        text::trim_of(value) == "~/"@ + rest && variables.dom().contains("HOME"@)
            && variables["HOME"@]@.len() > 0 ==> expanded_of(value, variables) == Ok::<Seq<char>, Seq<char>>(
            path_below(variables["HOME"@]@, rest),
        ),
        text::trim_of(value).len() > 0 && text::trim_of(value)[0] != '~' ==> expanded_of(value, variables)
            == Ok::<Seq<char>, Seq<char>>(text::trim_of(value)),
{
    reveal_strlit("~");
    reveal_strlit("~/");
    let trimmed = text::trim_of(value);
    let whole = "~/"@ + rest;
    assert(whole.subrange(0, 2) =~= "~/"@);
    assert(whole.subrange(2, whole.len() as int) =~= rest);
    if trimmed.len() > 0 && trimmed[0] != '~' {
        if "~/"@.is_prefix_of(trimmed) {
            assert(trimmed[0] == "~/"@[0]);
        }
        if trimmed == "~"@ {
            assert(trimmed[0] == '~');
        }
    }
}

/// How a command is split: white space ends a word unless it is quoted or escaped, single quotes take everything as it
/// is, and an escape takes the next character as it is.
pub proof fn lemma_words_split(state: Splitting, ch: char)
    ensures
        state.escaped ==> state.step(ch).word == state.word.push(ch) && !state.step(ch).escaped
            && state.step(ch).args == state.args,
        !state.escaped && state.quote is None && (ch == ' ' || ch == '\t' || ch == '\n' || ch == '\r')
            && state.word.len() > 0 ==> state.step(ch).args == state.args.push(state.word) && state.step(
            ch,
        ).word.len() == 0,
        !state.escaped && state.quote is Some && ch == ' ' ==> state.step(ch).word == state.word.push(ch)
            && state.step(ch).args == state.args,
        !state.escaped && state.quote == Some('\'') && ch != '\'' ==> state.step(ch).word == state.word.push(
            ch,
        ) && state.step(ch).quote == state.quote,
        !state.escaped && state.quote != Some('\'') && ch == '\\' ==> state.step(ch).escaped && state.step(
            ch,
        ).word == state.word,
        !state.escaped && state.quote is None && ch == '"' ==> state.step(ch).quote == Some('"') && state.step(
            ch,
        ).word == state.word,
        !state.escaped && state.quote == Some('"') && ch == '"' ==> state.step(ch).quote is None,
        !state.escaped && state.quote == Some('"') && ch == '\'' ==> state.step(ch).word == state.word.push(ch),
        !state.escaped && state.quote is None && ch != ' ' && ch != '\t' && ch != '\n' && ch != '\r' && ch
            != '"' && ch != '\'' && ch != '\\' ==> state.step(ch).word == state.word.push(ch),
        Splitting::start().args.len() == 0 && Splitting::start().word.len() == 0
            && Splitting::start().quote is None && !Splitting::start().escaped,
{
}

/// A command that ends within a quotation or an escape, or that has no word, is refused.
pub proof fn lemma_words_end(value: Seq<char>)
    ensures
        words_of(value) is Ok ==> !splitting(text::trim_of(value)).escaped && splitting(
            text::trim_of(value),
        ).quote is None,
        words_of(value) is Ok && splitting(text::trim_of(value)).word.len() > 0 ==> words_of(value)->Ok_0
            == splitting(text::trim_of(value)).args.push(splitting(text::trim_of(value)).word),
        text::trim_of(value).len() == 0 ==> words_of(value) is Err,
{
}

/// The segments of an endpoint are those of its prefix and its route, without empty ones and without steps back.
pub proof fn lemma_segments_kept(parts: Seq<Seq<char>>, at: int)
    requires
        0 <= at < kept_segments(parts).len(),
    ensures
        kept_segments(parts)[at].len() > 0,
        kept_segments(parts)[at] != "."@,
        kept_segments(parts)[at] != ".."@,
        parts.contains(kept_segments(parts)[at]),
    decreases parts.len(),
{
    if parts.len() > 0 {
        let front = parts.drop_last();
        let rest = kept_segments(front);
        if at < rest.len() {
            lemma_segments_kept(front, at);
            let i = choose|i: int| 0 <= i < front.len() && front[i] == rest[at];
            assert(parts[i] == rest[at]);
        } else {
            assert(parts[parts.len() - 1] == kept_segments(parts)[at]);
        }
    }
}

/// A plain segment is kept behind those before it, and a step back takes the last one away.
pub proof fn lemma_segments_step(parts: Seq<Seq<char>>, last: Seq<char>)
    ensures
        last.len() > 0 && last != "."@ && last != ".."@ ==> kept_segments(parts.push(last)) == kept_segments(
            parts,
        ).push(last),
        last == ".."@ && kept_segments(parts).len() > 0 ==> kept_segments(parts.push(last)) == kept_segments(
            parts,
        ).drop_last(),
        last.len() == 0 || last == "."@ ==> kept_segments(parts.push(last)) == kept_segments(parts),
{
    reveal_strlit(".");
    reveal_strlit("..");
    assert("."@.len() == 1 && ".."@.len() == 2);
    assert(parts.push(last).drop_last() =~= parts);
}

/// A prefix of the path of the service starts with one slash and brings neither a query nor a fragment.
pub proof fn lemma_prefix_plain(root: Seq<char>, prefix: Seq<char>)
    requires
        prefix_of(root, prefix) is Ok,
        text::trim_of(prefix).len() > 0,
    ensures
        "/"@.is_prefix_of(text::trim_of(prefix)),
        !"//"@.is_prefix_of(text::trim_of(prefix)),
        joined_url(root, text::trim_of(prefix)) is Ok,
        ({
            let parts = parsed_url(joined_url(root, text::trim_of(prefix))->Ok_0);
            &&& parts is Ok
            &&& parts->Ok_0.query matches Some(query) ==> query.len() == 0
            &&& parts->Ok_0.fragment matches Some(fragment) ==> fragment.len() == 0
        }),
{
}

} // verus!
