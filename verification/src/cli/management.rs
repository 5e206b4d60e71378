//! What is told on the command line of the profiles that administrate tunnels.

use vstd::prelude::*;
use crate::json::{self, Doc, Json};
use crate::text;

verus! {

/// What is done with profiles.
#[derive(Clone, Copy, PartialEq, Eq, Structural)]
pub enum Action {
    List,
    Save,
    Activate,
    Delete,
}

/// A text in a document, or nothing.
pub open spec fn text_at(doc: Doc, key: Seq<char>) -> Seq<char> {
    match doc.at(key).text() {
        Some(value) => value,
        None => Seq::empty(),
    }
}

fn text_in(value: &Json, key: &str) -> (result: String)
    ensures
        result@ == text_at(value.doc(), key@),
{
    match value.get_text(key) {
        Some(found) => found,
        None => {
            let empty = String::new();
            assert(empty@ =~= Seq::<char>::empty());
            empty
        },
    }
}

/// The line of a profile in a list.
pub open spec fn profile_line(profile: Doc) -> Seq<char> {
    text_at(profile, "name"@) + "\t"@ + text_at(profile, "control_plane_base_url"@) + (
    if profile.at("active"@) == Doc::Bool(true) {
        "\t(active)"@
    } else {
        ""@
    }) + "\n"@
}

/// The lines of the first profiles in a list.
pub open spec fn profile_lines(profiles: Seq<Doc>, count: int) -> Seq<char>
    decreases count,
{
    if count <= 0 {
        Seq::empty()
    } else {
        profile_lines(profiles, count - 1) + profile_line(profiles[count - 1])
    }
}

/// What is told after something was done, or why nothing is.
pub open spec fn shown_of(action: Action, told: Doc, name: Seq<char>) -> Result<Seq<char>, Seq<char>> {
    let profile = told.at("profile"@);
    match action {
        Action::List => match told.at("profiles"@) {
            Doc::List(profiles) => if profiles.len() == 0 {
                Ok("No admin profiles found in "@ + text_at(told, "path"@) + "\n"@)
            } else {
                Ok(profile_lines(profiles, profiles.len() as int))
            },
            _ => Err("profile list is missing"@),
        },
        Action::Save => Ok(
            "Saved admin profile "@ + text_at(profile, "name"@) + (" ("@ + text_at(
                profile,
                "control_plane_base_url"@,
            ) + ")\n"@),
        ),
        Action::Activate => Ok("Activated admin profile "@ + text_at(profile, "name"@) + "\n"@),
        Action::Delete => Ok("Deleted admin profile "@ + name + "\n"@),
    }
}

fn line(profile: &Json) -> (result: String)
    ensures
        result@ == profile_line(profile.doc()),
{
    let active = match profile.get("active") {
        Some(Json::Bool(value)) => *value,
        _ => false,
    };
    text::cat5(
        &text_in(profile, "name"),
        "\t",
        &text_in(profile, "control_plane_base_url"),
        if active {
            "\t(active)"
        } else {
            ""
        },
        "\n",
    )
}

fn lines(profiles: &Vec<Json>) -> (result: String)
    ensures
        result@ == profile_lines(json::docs(profiles@), profiles@.len() as int),
{
    let ghost all = json::docs(profiles@);
    proof {
        json::lemma_docs(profiles@);
    }
    let mut result = String::new();
    let mut index: usize = 0;
    while index < profiles.len()
        invariant
            index <= profiles.len(),
            all.len() == profiles@.len(),
            forall|i: int| 0 <= i < all.len() ==> #[trigger] all[i] == profiles@[i].doc(),
            result@ == profile_lines(all, index as int),
        decreases profiles.len() - index,
    {
        assert(all[index as int] == profiles@[index as int].doc());
        result = text::cat(&result, &line(&profiles[index]));
        index = index + 1;
    }
    result
}

/// Tells what was done with profiles.
pub fn shown(action: Action, told: &Json, name: &str) -> (result: Result<String, String>)
    ensures
        match (result, shown_of(action, told.doc(), name@)) {
            (Ok(shown), Ok(expected)) => shown@ == expected,
            (Err(reason), Err(expected)) => reason@ == expected,
            _ => false,
        },
{
    match action {
        Action::List => match told.get("profiles") {
            Some(Json::List(profiles)) => {
                proof {
                    json::lemma_docs(profiles@);
                }
                if profiles.len() == 0 {
                    Ok(text::cat3("No admin profiles found in ", &text_in(told, "path"), "\n"))
                } else {
                    Ok(lines(profiles))
                }
            },
            _ => Err("profile list is missing".to_owned()),
        },
        Action::Delete => Ok(text::cat3("Deleted admin profile ", name, "\n")),
        _ => {
            let none = Json::Null;
            let profile = match told.get("profile") {
                Some(profile) => profile,
                None => &none,
            };
            let title = text_in(profile, "name");
            if let Action::Activate = action {
                Ok(text::cat3("Activated admin profile ", &title, "\n"))
            } else {
                let base = text_in(profile, "control_plane_base_url");
                Ok(text::cat3("Saved admin profile ", &title, &text::cat3(" (", &base, ")\n")))
            }
        },
    }
}

/// What is shown of the admin profiles, for each of the actions.
pub proof fn lemma_profiles_shown(told: Doc, name: Seq<char>, profiles: Seq<Doc>)
    ensures
        told.at("profiles"@) == Doc::List(profiles) && profiles.len() == 0 ==> shown_of(Action::List, told, name)
            == Ok::<Seq<char>, Seq<char>>("No admin profiles found in "@ + text_at(told, "path"@) + "\n"@),
        told.at("profiles"@) == Doc::List(profiles) && profiles.len() > 0 ==> shown_of(Action::List, told, name)
            == Ok::<Seq<char>, Seq<char>>(profile_lines(profiles, profiles.len() as int)),
        !(told.at("profiles"@) is List) ==> shown_of(Action::List, told, name) is Err,
        shown_of(Action::Activate, told, name) == Ok::<Seq<char>, Seq<char>>(
            "Activated admin profile "@ + text_at(told.at("profile"@), "name"@) + "\n"@,
        ),
        shown_of(Action::Delete, told, name) == Ok::<Seq<char>, Seq<char>>(
            "Deleted admin profile "@ + name + "\n"@,
        ),
        shown_of(Action::Save, told, name) == Ok::<Seq<char>, Seq<char>>(
            "Saved admin profile "@ + text_at(told.at("profile"@), "name"@) + (" ("@ + text_at(
                told.at("profile"@),
                "control_plane_base_url"@,
            ) + ")\n"@),
        ),
{
}

/// A profile is shown on one line, with a mark where it is the active one; the lines follow one another.
pub proof fn lemma_profile_lines(profiles: Seq<Doc>, count: int, profile: Doc)
    requires
        0 < count <= profiles.len(),
    ensures
        profile.at("active"@) == Doc::Bool(true) ==> profile_line(profile) == text_at(profile, "name"@) + "\t"@
            + text_at(profile, "control_plane_base_url"@) + "\t(active)"@ + "\n"@,
        profile.at("active"@) != Doc::Bool(true) ==> profile_line(profile) == text_at(profile, "name"@) + "\t"@
            + text_at(profile, "control_plane_base_url"@) + ""@ + "\n"@,
        profile_lines(profiles, count) == profile_lines(profiles, count - 1) + profile_line(profiles[count - 1]),
        profile_lines(profiles, 0).len() == 0,
{
}

} // verus!
