//! Where the configuration comes from.

use vstd::prelude::*;
use crate::config::reference::gives;
use crate::config::values::{
    expand_home, expanded_of, profile_name, profile_name_of, profile_path, profile_path_of,
};
use crate::table::Table;
use crate::text;

verus! {

/// A way to name a configuration.
#[derive(Clone, Copy, PartialEq, Eq, Structural)]
pub enum Choice {
    Config,
    Profile,
    ProfileFile,
}

impl Choice {
    /// The way in words.
    pub open spec fn word(self) -> Seq<char> {
        match self {
            Choice::Config => "config"@,
            Choice::Profile => "profile"@,
            Choice::ProfileFile => "profile-file"@,
        }
    }

    /// The way in words.
    pub fn text(self) -> (result: &'static str)
        ensures
            result@ == self.word(),
    {
        match self {
            Choice::Config => "config",
            Choice::Profile => "profile",
            Choice::ProfileFile => "profile-file",
        }
    }
}

/// What is given for a way to name a configuration.
pub struct Given {
    pub value: String,
    /// Whether it stands on the command line, in place of the environment.
    pub command_line: bool,
}

/// What is given for each way to name a configuration.
pub struct Sources {
    pub config: Option<Given>,
    pub profile: Option<Given>,
    pub profile_file: Option<Given>,
}

/// The value for a way in a layer: on the command line any, in the environment one that is not empty.
pub open spec fn in_layer(given: Option<Given>, command_line: bool) -> Option<Seq<char>> {
    match given {
        Some(given) => if given.command_line == command_line && (command_line || text::trim_of(
            given.value@,
        ).len() > 0) {
            Some(text::trim_of(given.value@))
        } else {
            None
        },
        None => None,
    }
}

fn layered(given: &Option<Given>, command_line: bool) -> (result: Option<String>)
    ensures
        text::view_of(result) == in_layer(*given, command_line),
{
    match given {
        Some(given) => {
            let value = text::trim(&given.value);
            if given.command_line == command_line && (command_line || !value.is_empty()) {
                Some(value)
            } else {
                None
            }
        },
        None => None,
    }
}

/// What a layer chooses, or why that is nothing.
pub open spec fn chosen_in(sources: Sources, command_line: bool) -> Result<
    Option<(Choice, Seq<char>)>,
    Seq<char>,
> {
    let config = in_layer(sources.config, command_line);
    let profile = in_layer(sources.profile, command_line);
    let file = in_layer(sources.profile_file, command_line);
    if config is Some && profile is Some || config is Some && file is Some || profile is Some
        && file is Some {
        Err("config, profile, and profile-file select alternative configuration sources"@)
    } else {
        let found = match (config, profile, file) {
            (Some(value), _, _) => Some((Choice::Config, value)),
            (_, Some(value), _) => Some((Choice::Profile, value)),
            (_, _, Some(value)) => Some((Choice::ProfileFile, value)),
            _ => None,
        };
        match found {
            Some((choice, value)) => if value.len() == 0 {
                Err("--"@ + choice.word() + " requires a value"@)
            } else {
                Ok(Some((choice, value)))
            },
            None => Ok(None),
        }
    }
}

/// What is chosen: on the command line, or else in the environment.
pub open spec fn chosen_of(sources: Sources) -> Result<Option<(Choice, Seq<char>)>, Seq<char>> {
    match chosen_in(sources, true) {
        Err(reason) => Err(reason),
        Ok(Some(found)) => Ok(Some(found)),
        Ok(None) => chosen_in(sources, false),
    }
}

/// Whether a choice is the expected one.
pub open spec fn chooses(
    result: Result<Option<(Choice, String)>, String>,
    expected: Result<Option<(Choice, Seq<char>)>, Seq<char>>,
) -> bool {
    match (result, expected) {
        (Ok(Some((choice, value))), Ok(Some(found))) => choice == found.0 && value@ == found.1,
        (Ok(None), Ok(None)) => true,
        (Err(reason), Err(expected)) => reason@ == expected,
        _ => false,
    }
}

fn layer(sources: &Sources, command_line: bool) -> (result: Result<Option<(Choice, String)>, String>)
    ensures
        chooses(result, chosen_in(*sources, command_line)),
{
    let config = layered(&sources.config, command_line);
    let profile = layered(&sources.profile, command_line);
    let file = layered(&sources.profile_file, command_line);
    if (config.is_some() && profile.is_some()) || (config.is_some() && file.is_some()) || (
    profile.is_some() && file.is_some()) {
        return Err(
            "config, profile, and profile-file select alternative configuration sources".to_owned(),
        );
    }
    let (choice, value) = match (config, profile, file) {
        (Some(value), _, _) => (Choice::Config, value),
        (_, Some(value), _) => (Choice::Profile, value),
        (_, _, Some(value)) => (Choice::ProfileFile, value),
        _ => {
            return Ok(None);
        },
    };
    if value.is_empty() {
        return Err(text::cat3("--", choice.text(), " requires a value"));
    }
    Ok(Some((choice, value)))
}

/// What is chosen: on the command line, or else in the environment.
pub fn choice(sources: &Sources) -> (result: Result<Option<(Choice, String)>, String>)
    ensures
        chooses(result, chosen_of(*sources)),
{
    match layer(sources, true) {
        Err(reason) => Err(reason),
        Ok(Some(found)) => Ok(Some(found)),
        Ok(None) => layer(sources, false),
    }
}

/// The path of a configuration that is chosen, or why there is none.
pub open spec fn path_of(
    choice: Choice,
    value: Seq<char>,
    directory: Option<Seq<char>>,
    variables: Map<Seq<char>, String>,
    platform: Option<Seq<char>>,
) -> Result<Seq<char>, Seq<char>> {
    match choice {
        Choice::Config => Ok(value),
        Choice::Profile => profile_path_of(value, directory, variables, platform),
        Choice::ProfileFile => expanded_of(value, variables),
    }
}

/// The path of a configuration that is chosen, or why there is none.
pub fn path(
    choice: Choice,
    value: &str,
    directory: Option<&str>,
    variables: &Table<String>,
    platform: Option<&str>,
) -> (result: Result<String, String>)
    ensures
        gives(
            result,
            path_of(
                choice,
                value@,
                text::str_view(directory),
                variables@,
                text::str_view(platform),
            ),
        ),
{
    match choice {
        Choice::Config => Ok(value.to_owned()),
        Choice::Profile => profile_path(value, directory, variables, platform),
        Choice::ProfileFile => expand_home(value, variables),
    }
}

/// What is wrong with the name of a profile file, given its ending and its stem.
pub fn file(extension: Option<&str>, stem: Option<&str>) -> (result: Result<(), String>)
    ensures
        match result {
            Ok(()) => text::str_view(extension) == Some("yaml"@) && stem is Some
                && profile_name_of(stem->Some_0@) is Ok,
            Err(reason) => if text::str_view(extension) != Some("yaml"@) {
                reason@ == "profile file must end with .yaml"@
            } else {
                match text::str_view(stem) {
                    None => reason@ == "invalid profile filename"@,
                    Some(stem) => profile_name_of(stem) == Err::<Seq<char>, Seq<char>>(reason@),
                }
            },
        },
{
    let yaml = match extension {
        Some(extension) => text::same(extension, "yaml"),
        None => false,
    };
    if !yaml {
        return Err("profile file must end with .yaml".to_owned());
    }
    match stem {
        None => Err("invalid profile filename".to_owned()),
        Some(stem) => match profile_name(stem) {
            Ok(_) => Ok(()),
            Err(reason) => Err(reason),
        },
    }
}

/// What is wrong with a directory of profiles that is given on the command line.
pub fn directory(given: Option<&str>) -> (result: Result<(), String>)
    ensures
        match result {
            Ok(()) => given is Some && text::trim_of(given->Some_0@).len() > 0,
            Err(reason) => (given is None || text::trim_of(given->Some_0@).len() == 0) && reason@
                == "profile directory is required when --profile-dir is set"@,
        },
{
    if let Some(value) = given {
        if !text::trim(value).is_empty() {
            return Ok(());
        }
    }
    Err("profile directory is required when --profile-dir is set".to_owned())
}

/// The weight of a way that is given: the command line goes before the environment.
pub open spec fn weight(given: Option<Given>) -> int {
    match given {
        Some(given) => if text::trim_of(given.value@).len() == 0 {
            -1
        } else if given.command_line {
            2
        } else {
            1
        },
        None => -1,
    }
}

/// The way that counts when it is told where the configuration comes from: of those with the most weight
/// the last.
pub open spec fn told_of(sources: Sources) -> Option<Choice> {
    let config = weight(sources.config);
    let profile = weight(sources.profile);
    let file = weight(sources.profile_file);
    if file > 0 && file >= config && file >= profile {
        Some(Choice::ProfileFile)
    } else if profile > 0 && profile >= config {
        Some(Choice::Profile)
    } else if config > 0 {
        Some(Choice::Config)
    } else {
        None
    }
}

fn weigh(given: &Option<Given>) -> (result: i32)
    ensures
        result == weight(*given),
{
    match given {
        Some(given) => if text::trim(&given.value).is_empty() {
            -1
        } else if given.command_line {
            2
        } else {
            1
        },
        None => -1,
    }
}

/// The way that counts when it is told where the configuration comes from.
pub fn told(sources: &Sources) -> (result: Option<Choice>)
    ensures
        result == told_of(*sources),
{
    let config: i32 = weigh(&sources.config);
    let profile: i32 = weigh(&sources.profile);
    let file: i32 = weigh(&sources.profile_file);
    if file > 0 && file >= config && file >= profile {
        Some(Choice::ProfileFile)
    } else if profile > 0 && profile >= config {
        Some(Choice::Profile)
    } else if config > 0 {
        Some(Choice::Config)
    } else {
        None
    }
}

/// Where the logs go, and how.
#[derive(Clone, Copy, PartialEq, Eq, Structural)]
pub enum Output {
    File,
    Standard,
    Errors,
}

/// Whether logs are written as JSON, and where they go, or why they are not written.
pub fn logging(file: Option<&str>, format: &str) -> (result: Result<(Output, bool), String>)
    ensures
        ({
            let named = match text::str_view(file) {
                Some(path) => path.len() > 0,
                None => false,
            };
            let shown = if format@.len() == 0 && named {
                "struct-text"@
            } else {
                format@
            };
            match result {
                Ok((output, json)) => {
                    &&& shown == "json"@ || shown == "text"@ || shown == "struct-text"@ || shown
                        == ""@
                    &&& json == (shown == "json"@)
                    &&& output == (if named {
                        Output::File
                    } else if shown.len() == 0 {
                        Output::Errors
                    } else {
                        Output::Standard
                    })
                },
                Err(reason) => {
                    &&& shown != "json"@ && shown != "text"@ && shown != "struct-text"@ && shown
                        != ""@
                    &&& reason@ == "unknown log format "@ + shown
                },
            }
        }),
{
    let named = match file {
        Some(path) => !path.is_empty(),
        None => false,
    };
    let shown = if format.is_empty() && named {
        "struct-text"
    } else {
        format
    };
    let json = text::same(shown, "json");
    if !json && !text::same(shown, "text") && !text::same(shown, "struct-text") && !text::same(
        shown,
        "",
    ) {
        return Err(text::cat("unknown log format ", shown));
    }
    let output = if named {
        Output::File
    } else if shown.is_empty() {
        Output::Errors
    } else {
        Output::Standard
    };
    Ok((output, json))
}

/// What is given on the command line counts before the environment; there an empty value is one, and here it is none.
pub proof fn lemma_layers(given: Given)
    ensures
        given.command_line ==> in_layer(Some(given), true) == Some(text::trim_of(given.value@)) && in_layer(
            Some(given),
            false,
        ) is None,
        !given.command_line ==> in_layer(Some(given), true) is None,
        !given.command_line && text::trim_of(given.value@).len() > 0 ==> in_layer(Some(given), false) == Some(
            text::trim_of(given.value@),
        ),
        !given.command_line && text::trim_of(given.value@).len() == 0 ==> in_layer(Some(given), false) is None,
        in_layer(None, true) is None && in_layer(None, false) is None,
{
}

/// One source is chosen at most in a layer, and it has a value.
pub proof fn lemma_choice_single(sources: Sources, command_line: bool)
    ensures
        in_layer(sources.config, command_line) is Some && in_layer(sources.profile, command_line) is Some
            ==> chosen_in(sources, command_line) is Err,
        in_layer(sources.config, command_line) is Some && in_layer(sources.profile_file, command_line) is Some
            ==> chosen_in(sources, command_line) is Err,
        in_layer(sources.profile, command_line) is Some && in_layer(sources.profile_file, command_line) is Some
            ==> chosen_in(sources, command_line) is Err,
        chosen_in(sources, command_line) matches Ok(Some((choice, value))) ==> value.len() > 0 && match choice {
            Choice::Config => in_layer(sources.config, command_line) == Some(value),
            Choice::Profile => in_layer(sources.profile, command_line) == Some(value),
            Choice::ProfileFile => in_layer(sources.profile_file, command_line) == Some(value),
        },
        in_layer(sources.config, command_line) is None && in_layer(sources.profile, command_line) is None
            && in_layer(sources.profile_file, command_line) is None ==> chosen_in(sources, command_line)
            == Ok::<Option<(Choice, Seq<char>)>, Seq<char>>(None),
{
}

/// The command line decides where it chooses a source, and only else the environment does.
pub proof fn lemma_choice_layers(sources: Sources)
    ensures
        chosen_in(sources, true) matches Ok(Some(found)) ==> chosen_of(sources) == Ok::<
            Option<(Choice, Seq<char>)>,
            Seq<char>,
        >(Some(found)),
        chosen_in(sources, true) is Err ==> chosen_of(sources) is Err,
        chosen_in(sources, true) == Ok::<Option<(Choice, Seq<char>)>, Seq<char>>(None) ==> chosen_of(sources)
            == chosen_in(sources, false),
        Choice::Config.word() == "config"@ && Choice::Profile.word() == "profile"@ && Choice::ProfileFile.word()
            == "profile-file"@,
{
}

/// A configuration is read where it is named, a profile where profiles are kept, and the file of a profile once its path
/// is expanded.
pub proof fn lemma_choice_path(
    value: Seq<char>,
    directory: Option<Seq<char>>,
    variables: Map<Seq<char>, String>,
    platform: Option<Seq<char>>,
)
    ensures
        path_of(Choice::Config, value, directory, variables, platform) == Ok::<Seq<char>, Seq<char>>(value),
        path_of(Choice::Profile, value, directory, variables, platform) == profile_path_of(
            value,
            directory,
            variables,
            platform,
        ),
        path_of(Choice::ProfileFile, value, directory, variables, platform) == expanded_of(value, variables),
{
}

/// The source that is told of: the one of the command line before those of the environment; among equals the file of a
/// profile before a profile before a configuration.
pub proof fn lemma_choice_told(sources: Sources)
    ensures
        sources.profile is None && sources.profile_file is None ==> (sources.config matches Some(given) ==> (
        told_of(sources) == Some(Choice::Config) <==> text::trim_of(given.value@).len() > 0)),
        sources.config is None && sources.profile_file is None ==> (sources.profile matches Some(given) ==> (
        told_of(sources) == Some(Choice::Profile) <==> text::trim_of(given.value@).len() > 0)),
        sources.config is None && sources.profile is None ==> (sources.profile_file matches Some(given) ==> (
        told_of(sources) == Some(Choice::ProfileFile) <==> text::trim_of(given.value@).len() > 0)),
        weight(sources.config) == 2 && weight(sources.profile) == 1 && weight(sources.profile_file) == 1
            ==> told_of(sources) == Some(Choice::Config),
        weight(sources.config) == 1 && weight(sources.profile) == 1 && weight(sources.profile_file) == 1
            ==> told_of(sources) == Some(Choice::ProfileFile),
        weight(sources.config) == 1 && weight(sources.profile) == 1 && sources.profile_file is None
            ==> told_of(sources) == Some(Choice::Profile),
        sources.config is None && sources.profile is None && sources.profile_file is None ==> told_of(sources)
            is None,
        sources.config matches Some(given) ==> (text::trim_of(given.value@).len() > 0 ==> weight(sources.config)
            == if given.command_line {
            2int
        } else {
            1int
        }),
{
}

} // verus!
