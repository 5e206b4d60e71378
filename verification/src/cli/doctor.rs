//! What is told when a configuration is checked.

use vstd::prelude::*;
use crate::cli::source::Choice;
use crate::diagnostic::{failed_of, Check, Probe, Report, Status};
use crate::table::Table;
use crate::text;

verus! {

/// Where the configuration comes from, in words.
pub open spec fn described_of(told: Option<Choice>, profile: Seq<char>, path: Option<Seq<char>>) -> Seq<char> {
    match told {
        Some(Choice::Profile) => "profile: "@ + text::trim_of(profile),
        Some(Choice::ProfileFile) => "profile file: "@ + match path {
            Some(path) => path,
            None => Seq::empty(),
        },
        _ => match path {
            Some(path) => path,
            None => "flags/environment only"@,
        },
    }
}

/// Where the configuration comes from, in words.
pub fn described(told: Option<Choice>, profile: &str, path: Option<&str>) -> (result: String)
    ensures
        result@ == described_of(told, profile@, text::str_view(path)),
{
    match told {
        Some(Choice::Profile) => text::cat("profile: ", &text::trim(profile)),
        Some(Choice::ProfileFile) => match path {
            Some(path) => text::cat("profile file: ", path),
            None => {
                let empty = String::new();
                assert(empty@ =~= Seq::<char>::empty());
                text::cat("profile file: ", &empty)
            },
        },
        _ => match path {
            Some(path) => path.to_owned(),
            None => "flags/environment only".to_owned(),
        },
    }
}

/// The command that runs the configuration.
pub open spec fn next_of(told: Option<Choice>, profile: Seq<char>, path: Option<Seq<char>>) -> Seq<char> {
    match (told, path) {
        (Some(Choice::Profile), _) => "otunnel run --profile "@ + text::trim_of(profile),
        (Some(Choice::ProfileFile), Some(path)) => "otunnel run --profile-file "@ + path,
        (_, Some(path)) => "otunnel run --config "@ + path,
        _ => "otunnel run"@,
    }
}

/// The command that runs the configuration.
pub fn next(told: Option<Choice>, profile: &str, path: Option<&str>) -> (result: String)
    ensures
        result@ == next_of(told, profile@, text::str_view(path)),
{
    match (told, path) {
        (Some(Choice::Profile), _) => text::cat("otunnel run --profile ", &text::trim(profile)),
        (Some(Choice::ProfileFile), Some(path)) => text::cat("otunnel run --profile-file ", path),
        (_, Some(path)) => text::cat("otunnel run --config ", path),
        _ => "otunnel run".to_owned(),
    }
}

/// The check to which an error of the configuration belongs.
pub open spec fn concerns(message: Seq<char>) -> Seq<char> {
    if text::occurs(message, "tunnel ID"@) || text::occurs(message, "tunnel_id"@) {
        "tunnel_id"@
    } else if text::occurs(message, "api_key"@) || text::occurs(message, "API key"@) || text::occurs(
        message,
        "CONTROL_PLANE_API_KEY"@,
    ) || text::occurs(message, "OPENAI_API_KEY"@) {
        "control_plane_api_key"@
    } else if text::occurs(message, "control-plane.base-url"@) {
        "control_plane_base_url"@
    } else {
        "config_validation"@
    }
}

/// The check to which an error of the configuration belongs.
pub fn concern(message: &str) -> (result: &'static str)
    ensures
        result@ == concerns(message@),
{
    if text::contains_text(message, "tunnel ID") || text::contains_text(message, "tunnel_id") {
        "tunnel_id"
    } else if text::contains_text(message, "api_key") || text::contains_text(message, "API key")
        || text::contains_text(message, "CONTROL_PLANE_API_KEY") || text::contains_text(
        message,
        "OPENAI_API_KEY",
    ) {
        "control_plane_api_key"
    } else if text::contains_text(message, "control-plane.base-url") {
        "control_plane_base_url"
    } else {
        "config_validation"
    }
}

/// How a health service that can be bound is told of.
pub open spec fn bound_of(socket: Option<Seq<char>>, listen: Seq<char>, url: Seq<char>) -> Seq<char> {
    match socket {
        Some(socket) => "will bind unix socket "@ + socket,
        None => if ":0"@.is_suffix_of(listen) {
            "ephemeral bind ok on "@ + url
        } else {
            "will bind "@ + url
        },
    }
}

/// How a health service that can be bound is told of.
pub fn bound(socket: &Option<String>, listen: &str, url: &str) -> (result: String)
    ensures
        result@ == bound_of(text::view_of(*socket), listen@, url@),
{
    match socket {
        Some(socket) => text::cat("will bind unix socket ", socket),
        None => if text::ends_with(listen, ":0") {
            text::cat("ephemeral bind ok on ", url)
        } else {
            text::cat("will bind ", url)
        },
    }
}

/// The place behind the check of the key, from one on; the end where there is none.
pub open spec fn key_from(checks: Seq<Check>, at: int) -> int
    decreases checks.len() - at,
{
    if at < 0 || at >= checks.len() {
        checks.len() as int
    } else if checks[at].id@ == "control_plane_api_key"@ {
        at + 1
    } else {
        key_from(checks, at + 1)
    }
}

/// The places on the web that are told of, with their names.
pub open spec fn links() -> Seq<(Seq<char>, Seq<char>)> {
    seq![
        (
            "tunnels_management_url"@,
            "https://platform.openai.com/settings/organization/tunnels"@,
        ),
        (
            "runtime_api_keys_url"@,
            "https://platform.openai.com/settings/organization/api-keys"@,
        ),
        (
            "admin_api_keys_url"@,
            "https://platform.openai.com/settings/organization/admin-keys"@,
        ),
        ("chatgpt_connector_settings_url"@, "https://chatgpt.com/#settings/Connectors"@),
    ]
}

/// Whether a check tells of a place on the web.
pub open spec fn is_link(check: Check, link: (Seq<char>, Seq<char>)) -> bool {
    &&& check.id@ == link.0
    &&& check.status == Status::Pass
    &&& check.summary@ == link.1
    &&& check.why@.len() == 0
    &&& check.evidence@.len() == 0
    &&& check.next@.len() == 0
}

/// Whether checks are others with the places on the web behind the check of the key.
pub open spec fn are_linked(linked: Seq<Check>, checks: Seq<Check>) -> bool {
    let at = key_from(checks, 0);
    &&& linked.len() == checks.len() + links().len()
    &&& linked.take(at) == checks.take(at)
    &&& forall|i: int| 0 <= i < links().len() ==> is_link(#[trigger] linked[at + i], links()[i])
    &&& linked.skip(at + links().len()) == checks.skip(at)
}

fn place(checks: &Vec<Check>) -> (result: usize)
    ensures
        result <= checks@.len(),
        result == key_from(checks@, 0),
{
    let mut index: usize = 0;
    while index < checks.len()
        invariant
            index <= checks.len(),
            key_from(checks@, 0) == key_from(checks@, index as int),
        decreases checks.len() - index,
    {
        if text::same(&checks[index].id, "control_plane_api_key") {
            return index + 1;
        }
        index = index + 1;
    }
    checks.len()
}

/// Puts the places on the web behind the check of the key.
pub fn link(checks: Vec<Check>) -> (result: Vec<Check>)
    requires
        checks@.len() + 4 <= usize::MAX,
    ensures
        are_linked(result@, checks@),
{
    let at = place(&checks);
    let ghost all = checks@;
    let mut result = checks;
    let first = Check::pass(
        "tunnels_management_url",
        "https://platform.openai.com/settings/organization/tunnels",
    );
    let second = Check::pass(
        "runtime_api_keys_url",
        "https://platform.openai.com/settings/organization/api-keys",
    );
    let third = Check::pass(
        "admin_api_keys_url",
        "https://platform.openai.com/settings/organization/admin-keys",
    );
    let fourth = Check::pass(
        "chatgpt_connector_settings_url",
        "https://chatgpt.com/#settings/Connectors",
    );
    result.insert(at, first);
    result.insert(at + 1, second);
    result.insert(at + 2, third);
    result.insert(at + 3, fourth);
    proof {
        let found = result@;
        assert(found.take(at as int) =~= all.take(at as int));
        assert(found.skip(at + 4) =~= all.skip(at as int));
        assert(links().len() == 4);
        assert forall|i: int| 0 <= i < links().len() implies is_link(
            #[trigger] found[at + i],
            links()[i],
        ) by {
            if i == 0 {
                assert(found[at + 0] == first);
            } else if i == 1 {
                assert(found[at + 1] == second);
            } else if i == 2 {
                assert(found[at + 2] == third);
            } else {
                assert(found[at + 3] == fourth);
            }
        }
    }
    result
}

/// Why a check matters.
pub open spec fn why_of(id: Seq<char>) -> Seq<char> {
    let base = text::split_of(id, '.')[0];
    if base == "config_source"@ || base == "profile_load"@ || base == "config_validation"@ {
        "The selected configuration supplies the runtime connections and process commands."@
    } else if base == "tunnel_id"@ {
        "The tunnel ID identifies the control-plane connection."@
    } else if base == "control_plane_api_key"@ {
        "The runtime key is used to poll the tunnel and return results."@
    } else if base == "control_plane_connection"@ || base == "control_plane_base_url"@ {
        "The configured control-plane transport must reach the tunnel API."@
    } else if base == "mcp_target"@ || base == "mcp_server_reachable"@ || base == "mcp_tools"@ {
        "The configured MCP transport is used for initialization and normal requests."@
    } else if base == "oauth_metadata"@ {
        "OAuth discovery describes the MCP resource and its authorization server."@
    } else if base == "health_listener"@ {
        "The runtime binds its health endpoint before starting the tunnel."@
    } else if base == "cloudflared_path"@ {
        "Cloudflare connections use the executable installed by the operator."@
    } else if base == "shutdown"@ {
        "Processes started for diagnostics are closed when diagnostics finish."@
    } else {
        "The diagnostic uses the same runtime transport as normal forwarding."@
    }
}

/// What to do about a check that found an error.
pub open spec fn action_of(id: Seq<char>) -> Seq<char> {
    let base = text::split_of(id, '.')[0];
    if base == "config_source"@ || base == "profile_load"@ || base == "config_validation"@ {
        "Check the reported configuration field or source path."@
    } else if base == "tunnel_id"@ {
        "Set --control-plane.tunnel-id to the ID of the configured tunnel."@
    } else if base == "control_plane_api_key"@ {
        "Set control_plane.api_key or CONTROL_PLANE_API_KEY to the runtime credential or its reference."@
    } else if base == "control_plane_connection"@ || base == "control_plane_base_url"@ {
        "Check the reported endpoint, credential, proxy and TLS configuration."@
    } else if base == "mcp_target"@ || base == "mcp_server_reachable"@ || base == "mcp_tools"@ {
        "Check the reported MCP command, URL, socket, proxy or certificate."@
    } else if base == "oauth_metadata"@ {
        "Check the advertised metadata URL and authentication headers."@
    } else if base == "health_listener"@ {
        "Select an available health.listen_addr or health.unix_socket."@
    } else if base == "cloudflared_path"@ {
        "Install cloudflared on PATH or set cloudflared.path to its executable."@
    } else if base == "shutdown"@ {
        "Inspect the reported process shutdown error."@
    } else {
        "Inspect the reported error."@
    }
}

/// The front of the name of a check.
fn front(id: &str) -> (result: String)
    ensures
        result@ == text::split_of(id@, '.')[0],
{
    let parts = text::split(id, '.');
    proof {
        text::lemma_index_in(id@, '.');
        assert(text::split_of(id@, '.').len() > 0);
        assert(text::views(parts@).len() == parts@.len());
        assert(text::views(parts@)[0] == parts@[0]@);
    }
    parts[0].clone()
}

fn why(id: &str) -> (result: &'static str)
    ensures
        result@ == why_of(id@),
{
    let base = front(id);
    if text::same(&base, "config_source") || text::same(&base, "profile_load") || text::same(
        &base,
        "config_validation",
    ) {
        "The selected configuration supplies the runtime connections and process commands."
    } else if text::same(&base, "tunnel_id") {
        "The tunnel ID identifies the control-plane connection."
    } else if text::same(&base, "control_plane_api_key") {
        "The runtime key is used to poll the tunnel and return results."
    } else if text::same(&base, "control_plane_connection") || text::same(
        &base,
        "control_plane_base_url",
    ) {
        "The configured control-plane transport must reach the tunnel API."
    } else if text::same(&base, "mcp_target") || text::same(&base, "mcp_server_reachable")
        || text::same(&base, "mcp_tools") {
        "The configured MCP transport is used for initialization and normal requests."
    } else if text::same(&base, "oauth_metadata") {
        "OAuth discovery describes the MCP resource and its authorization server."
    } else if text::same(&base, "health_listener") {
        "The runtime binds its health endpoint before starting the tunnel."
    } else if text::same(&base, "cloudflared_path") {
        "Cloudflare connections use the executable installed by the operator."
    } else if text::same(&base, "shutdown") {
        "Processes started for diagnostics are closed when diagnostics finish."
    } else {
        "The diagnostic uses the same runtime transport as normal forwarding."
    }
}

fn action(id: &str) -> (result: &'static str)
    ensures
        result@ == action_of(id@),
{
    let base = front(id);
    if text::same(&base, "config_source") || text::same(&base, "profile_load") || text::same(
        &base,
        "config_validation",
    ) {
        "Check the reported configuration field or source path."
    } else if text::same(&base, "tunnel_id") {
        "Set --control-plane.tunnel-id to the ID of the configured tunnel."
    } else if text::same(&base, "control_plane_api_key") {
        "Set control_plane.api_key or CONTROL_PLANE_API_KEY to the runtime credential or its reference."
    } else if text::same(&base, "control_plane_connection") || text::same(
        &base,
        "control_plane_base_url",
    ) {
        "Check the reported endpoint, credential, proxy and TLS configuration."
    } else if text::same(&base, "mcp_target") || text::same(&base, "mcp_server_reachable")
        || text::same(&base, "mcp_tools") {
        "Check the reported MCP command, URL, socket, proxy or certificate."
    } else if text::same(&base, "oauth_metadata") {
        "Check the advertised metadata URL and authentication headers."
    } else if text::same(&base, "health_listener") {
        "Select an available health.listen_addr or health.unix_socket."
    } else if text::same(&base, "cloudflared_path") {
        "Install cloudflared on PATH or set cloudflared.path to its executable."
    } else if text::same(&base, "shutdown") {
        "Inspect the reported process shutdown error."
    } else {
        "Inspect the reported error."
    }
}

/// Whether a check is another one with an explanation.
pub open spec fn is_explained(explained: Check, check: Check) -> bool {
    &&& explained.id == check.id
    &&& explained.status == check.status
    &&& explained.summary == check.summary
    &&& explained.evidence == check.evidence
    &&& if check.status == Status::Pass {
        explained == check
    } else {
        explained.why@ == why_of(check.id@)
    }
    &&& if check.status == Status::Fail {
        text::views(explained.next@) == text::views(check.next@).push(action_of(check.id@))
    } else {
        explained.next == check.next
    }
}

fn explain(check: Check) -> (result: Check)
    ensures
        is_explained(result, check),
{
    let mut result = check;
    match result.status {
        Status::Pass => {},
        Status::Skip => {
            result.why = why(&result.id).to_owned();
        },
        Status::Fail => {
            result.why = why(&result.id).to_owned();
            let step = action(&result.id).to_owned();
            assert(text::views(result.next@.push(step)) =~= text::views(result.next@).push(step@));
            result.next.push(step);
        },
    }
    result
}

/// Whether checks are others with their explanations.
pub open spec fn are_explained(explained: Seq<Check>, checks: Seq<Check>) -> bool {
    &&& explained.len() == checks.len()
    &&& forall|i: int|
        0 <= i < checks.len() ==> is_explained(#[trigger] explained[i], checks[i])
}

fn explain_all(checks: Vec<Check>) -> (result: Vec<Check>)
    ensures
        are_explained(result@, checks@),
{
    let ghost all = checks@;
    let mut left = checks;
    let mut back: Vec<Check> = Vec::new();
    while left.len() > 0
        invariant
            left@.len() + back@.len() == all.len(),
            left@ == all.take(left@.len() as int),
            forall|i: int|
                0 <= i < back@.len() ==> is_explained(
                    #[trigger] back@[i],
                    all[all.len() - 1 - i],
                ),
        decreases left.len(),
    {
        if let Some(check) = left.pop() {
            back.push(explain(check));
        }
    }
    let mut result: Vec<Check> = Vec::new();
    while back.len() > 0
        invariant
            result@.len() + back@.len() == all.len(),
            forall|i: int|
                0 <= i < back@.len() ==> is_explained(
                    #[trigger] back@[i],
                    all[all.len() - 1 - i],
                ),
            forall|i: int| 0 <= i < result@.len() ==> is_explained(#[trigger] result@[i], all[i]),
        decreases back.len(),
    {
        if let Some(check) = back.pop() {
            result.push(check);
        }
    }
    result
}

/// What all checks found, with the places on the web and the explanations.
pub fn report(checks: Vec<Check>, channels: Table<Probe>, next: String) -> (result: Report)
    requires
        checks@.len() + 4 <= usize::MAX,
    ensures
        result.channels == channels,
        exists|linked: Seq<Check>| #[trigger]
            are_linked(linked, checks@) && are_explained(result.checks@, linked),
        text::views(result.failed_checks@) == failed_of(result.checks@),
        result.is_ok() ==> result.result@ == "ok"@ && result.next@ == next@,
        !result.is_ok() ==> result.result@ == "fail"@ && result.next@.len() == 0,
{
    let linked = link(checks);
    let ghost with_links = linked@;
    assert(are_linked(with_links, checks@));
    let explained = explain_all(linked);
    Report::new(explained, channels, next)
}

/// A text that is at least so long, with blanks behind it.
pub open spec fn padded_of(value: Seq<char>, width: nat) -> Seq<char> {
    if value.len() >= width {
        value
    } else {
        value + Seq::new((width - value.len()) as nat, |i: int| ' ')
    }
}

fn pad(value: &str, width: usize) -> (result: String)
    ensures
        result@ == padded_of(value@, width as nat),
{
    let all = text::chars(value);
    let mut result = value.to_owned();
    let mut index: usize = all.len();
    let ghost blank = |i: int| ' ';
    assert(result@ =~= value@ + Seq::new(0, blank));
    while index < width
        invariant
            all@ == value@,
            all@.len() <= index,
            index <= width || index == all@.len(),
            blank == (|i: int| ' '),
            result@ == value@ + Seq::new((index - all@.len()) as nat, blank),
        decreases width - index,
    {
        let ghost count = (index - all@.len()) as nat;
        assert((value@ + Seq::new(count, blank)).push(' ') =~= value@ + Seq::new(count + 1, blank));
        result.push(' ');
        index = index + 1;
    }
    if all.len() >= width {
        assert(result@ =~= value@);
    }
    result
}

/// The line of a check.
pub open spec fn line_of(check: Check) -> Seq<char> {
    "CHECK "@ + padded_of(check.id@, 24) + " "@ + padded_of(check.status.word(), 4) + " "@
        + check.summary@ + "\n"@
}

fn line(check: &Check) -> (result: String)
    ensures
        result@ == line_of(*check),
{
    let front = text::cat5(
        "CHECK ",
        &pad(&check.id, 24),
        " ",
        &pad(check.status.text(), 4),
        " ",
    );
    text::cat3(&front, &check.summary, "\n")
}

/// The lines of the first checks.
pub open spec fn lines_of(checks: Seq<Check>, count: int) -> Seq<char>
    decreases count,
{
    if count <= 0 {
        Seq::empty()
    } else {
        lines_of(checks, count - 1) + line_of(checks[count - 1])
    }
}

/// The first lines of the evidence of a check.
pub open spec fn evidence_of(items: Seq<Seq<char>>, count: int) -> Seq<char>
    decreases count,
{
    if count <= 0 {
        Seq::empty()
    } else {
        evidence_of(items, count - 1) + "  - "@ + items[count - 1] + "\n"@
    }
}

/// The first steps of what to do about a check.
pub open spec fn steps_of(items: Seq<Seq<char>>, count: int) -> Seq<char>
    decreases count,
{
    if count <= 0 {
        Seq::empty()
    } else {
        steps_of(items, count - 1) + "  "@ + text::decimal_of(count as nat) + ". "@ + items[count
            - 1] + "\n"@
    }
}

/// The explanation of a check that found something.
pub open spec fn explanation_of(check: Check) -> Seq<char> {
    if check.status == Status::Pass {
        Seq::empty()
    } else {
        let evidence = text::views(check.evidence@);
        let next = text::views(check.next@);
        "\nCHECK "@ + check.id@ + "   "@ + check.status.word() + "\n"@ + (if check.why@.len() == 0 {
            Seq::empty()
        } else {
            "Why this matters:\n  "@ + check.why@ + "\n"@
        }) + (if evidence.len() == 0 {
            Seq::empty()
        } else {
            "\nEvidence:\n"@ + evidence_of(evidence, evidence.len() as int)
        }) + (if next.len() == 0 {
            Seq::empty()
        } else {
            "\nWhat to do next:\n"@ + steps_of(next, next.len() as int)
        })
    }
}

/// The explanations of the first checks.
pub open spec fn explanations_of(checks: Seq<Check>, count: int) -> Seq<char>
    decreases count,
{
    if count <= 0 {
        Seq::empty()
    } else {
        explanations_of(checks, count - 1) + explanation_of(checks[count - 1])
    }
}

/// What all checks come to, in words.
pub open spec fn result_of(report: Report) -> Seq<char> {
    "\nRESULT "@ + report.result@ + "\n"@ + (if report.is_ok() {
        if report.next@.len() == 0 {
            Seq::empty()
        } else {
            "NEXT   "@ + report.next@ + "\n"@
        }
    } else {
        "FAILED_CHECKS "@ + text::joined(text::views(report.failed_checks@), ","@)
            + "\nEXIT_CODE 2\n"@
    })
}

/// What all checks found, in words.
pub open spec fn text_of(report: Report, explain: bool) -> Seq<char> {
    let count = report.checks@.len() as int;
    lines_of(report.checks@, count) + result_of(report) + if explain {
        explanations_of(report.checks@, count)
    } else {
        Seq::empty()
    }
}

fn all_lines(checks: &Vec<Check>) -> (result: String)
    ensures
        result@ == lines_of(checks@, checks@.len() as int),
{
    let mut result = String::new();
    let mut index: usize = 0;
    assert(result@ =~= Seq::<char>::empty());
    while index < checks.len()
        invariant
            index <= checks.len(),
            result@ == lines_of(checks@, index as int),
        decreases checks.len() - index,
    {
        result = text::cat(&result, &line(&checks[index]));
        index = index + 1;
    }
    result
}

fn evidence(items: &Vec<String>) -> (result: String)
    ensures
        result@ == evidence_of(text::views(items@), items@.len() as int),
{
    let ghost all = text::views(items@);
    let mut result = String::new();
    let mut index: usize = 0;
    assert(result@ =~= Seq::<char>::empty());
    while index < items.len()
        invariant
            index <= items.len(),
            all == text::views(items@),
            result@ == evidence_of(all, index as int),
        decreases items.len() - index,
    {
        assert(all[index as int] == items@[index as int]@);
        result = text::cat(&text::cat3(&result, "  - ", &items[index]), "\n");
        index = index + 1;
    }
    result
}

fn steps(items: &Vec<String>) -> (result: String)
    ensures
        result@ == steps_of(text::views(items@), items@.len() as int),
{
    let ghost all = text::views(items@);
    let mut result = String::new();
    let mut index: usize = 0;
    assert(result@ =~= Seq::<char>::empty());
    while index < items.len()
        invariant
            index <= items.len(),
            all == text::views(items@),
            result@ == steps_of(all, index as int),
        decreases items.len() - index,
    {
        assert(all[index as int] == items@[index as int]@);
        let number = text::decimal((index + 1) as u64);
        result = text::cat(
            &text::cat5(&result, "  ", &number, ". ", &items[index]),
            "\n",
        );
        index = index + 1;
    }
    result
}

fn explanation(check: &Check) -> (result: String)
    ensures
        result@ == explanation_of(*check),
{
    let empty = String::new();
    assert(empty@ =~= Seq::<char>::empty());
    if let Status::Pass = check.status {
        return empty;
    }
    assert(text::views(check.evidence@).len() == check.evidence@.len());
    assert(text::views(check.next@).len() == check.next@.len());
    let front = text::cat5("\nCHECK ", &check.id, "   ", check.status.text(), "\n");
    let why = if check.why.is_empty() {
        empty.clone()
    } else {
        text::cat3("Why this matters:\n  ", &check.why, "\n")
    };
    let shown = if check.evidence.len() == 0 {
        empty.clone()
    } else {
        text::cat("\nEvidence:\n", &evidence(&check.evidence))
    };
    let next = if check.next.len() == 0 {
        empty
    } else {
        text::cat("\nWhat to do next:\n", &steps(&check.next))
    };
    text::cat(&text::cat3(&front, &why, &shown), &next)
}

fn explanations(checks: &Vec<Check>) -> (result: String)
    ensures
        result@ == explanations_of(checks@, checks@.len() as int),
{
    let mut result = String::new();
    let mut index: usize = 0;
    assert(result@ =~= Seq::<char>::empty());
    while index < checks.len()
        invariant
            index <= checks.len(),
            result@ == explanations_of(checks@, index as int),
        decreases checks.len() - index,
    {
        result = text::cat(&result, &explanation(&checks[index]));
        index = index + 1;
    }
    result
}

/// What all checks found, in words.
pub fn output(report: &Report, explain: bool) -> (result: String)
    ensures
        result@ == text_of(*report, explain),
{
    let empty = String::new();
    assert(empty@ =~= Seq::<char>::empty());
    let tail = if report.passed() {
        if report.next.is_empty() {
            empty.clone()
        } else {
            text::cat3("NEXT   ", &report.next, "\n")
        }
    } else {
        text::cat3(
            "FAILED_CHECKS ",
            &text::join(&report.failed_checks, ","),
            "\nEXIT_CODE 2\n",
        )
    };
    let told = text::cat(&text::cat3("\nRESULT ", &report.result, "\n"), &tail);
    let more = if explain {
        explanations(&report.checks)
    } else {
        empty
    };
    text::cat3(&all_lines(&report.checks), &told, &more)
}

/// The places on the web never make a report fail.
pub proof fn lemma_links_pass(linked: Seq<Check>, checks: Seq<Check>, i: int)
    requires
        are_linked(linked, checks),
        0 <= i < links().len(),
    ensures
        linked[key_from(checks, 0) + i].status == Status::Pass,
{
    assert(is_link(linked[key_from(checks, 0) + i], links()[i]));
}

/// The source of a configuration is told by its kind, and so is the command that runs it.
pub proof fn lemma_source_described(profile: Seq<char>, path: Seq<char>, told: Option<Choice>)
    ensures
        described_of(Some(Choice::Profile), profile, Some(path)) == "profile: "@ + text::trim_of(profile),
        described_of(Some(Choice::ProfileFile), profile, Some(path)) == "profile file: "@ + path,
        described_of(None, profile, None) == "flags/environment only"@,
        described_of(None, profile, Some(path)) == path,
        next_of(Some(Choice::Profile), profile, Some(path)) == "otunnel run --profile "@ + text::trim_of(profile),
        next_of(Some(Choice::ProfileFile), profile, Some(path)) == "otunnel run --profile-file "@ + path,
        next_of(None, profile, Some(path)) == "otunnel run --config "@ + path,
        told != Some(Choice::Profile) ==> next_of(told, profile, None) == "otunnel run"@,
{
}

/// A fault of the configuration is laid to the field that it names.
pub proof fn lemma_fault_concerns(message: Seq<char>)
    ensures
        text::occurs(message, "tunnel ID"@) || text::occurs(message, "tunnel_id"@) ==> concerns(message)
            == "tunnel_id"@,
        !text::occurs(message, "tunnel ID"@) && !text::occurs(message, "tunnel_id"@) && (text::occurs(
            message,
            "api_key"@,
        ) || text::occurs(message, "API key"@) || text::occurs(message, "CONTROL_PLANE_API_KEY"@)
            || text::occurs(message, "OPENAI_API_KEY"@)) ==> concerns(message) == "control_plane_api_key"@,
        !text::occurs(message, "tunnel ID"@) && !text::occurs(message, "tunnel_id"@) && !text::occurs(
            message,
            "api_key"@,
        ) && !text::occurs(message, "API key"@) && !text::occurs(message, "CONTROL_PLANE_API_KEY"@)
            && !text::occurs(message, "OPENAI_API_KEY"@) ==> concerns(message) == if text::occurs(
            message,
            "control-plane.base-url"@,
        ) {
            "control_plane_base_url"@
        } else {
            "config_validation"@
        },
{
}

/// Where the health endpoint will listen: on the socket where there is one, else on the address, which may leave the
/// port open.
pub proof fn lemma_bound_told(socket: Seq<char>, listen: Seq<char>, url: Seq<char>)
    ensures
        bound_of(Some(socket), listen, url) == "will bind unix socket "@ + socket,
        ":0"@.is_suffix_of(listen) ==> bound_of(None, listen, url) == "ephemeral bind ok on "@ + url,
        !":0"@.is_suffix_of(listen) ==> bound_of(None, listen, url) == "will bind "@ + url,
{
}

/// The links follow the check of the key, or all checks where there is none.
pub proof fn lemma_links_placed(checks: Seq<Check>, from: int, at: int)
    requires
        0 <= from <= checks.len(),
    ensures
        from <= at < checks.len() && checks[at].id@ == "control_plane_api_key"@ && (forall|i: int|
            from <= i < at ==> (#[trigger] checks[i]).id@ != "control_plane_api_key"@) ==> key_from(checks, from)
            == at + 1,
        (forall|i: int| from <= i < checks.len() ==> (#[trigger] checks[i]).id@ != "control_plane_api_key"@)
            ==> key_from(checks, from) == checks.len(),
    decreases checks.len() - from,
{
    if from < checks.len() {
        lemma_links_placed(checks, from + 1, at);
        assert(checks[from] == checks[from]);
    }
}

/// The four links, and where they lead.
pub proof fn lemma_links_named(linked: Seq<Check>, checks: Seq<Check>)
    requires
        are_linked(linked, checks),
    ensures
        ({
            let at = key_from(checks, 0);
            &&& linked.len() == checks.len() + 4
            &&& linked[at].id@ == "tunnels_management_url"@ && linked[at].summary@
                == "https://platform.openai.com/settings/organization/tunnels"@
            &&& linked[at + 1].id@ == "runtime_api_keys_url"@ && linked[at + 1].summary@
                == "https://platform.openai.com/settings/organization/api-keys"@
            &&& linked[at + 2].id@ == "admin_api_keys_url"@ && linked[at + 2].summary@
                == "https://platform.openai.com/settings/organization/admin-keys"@
            &&& linked[at + 3].id@ == "chatgpt_connector_settings_url"@ && linked[at + 3].summary@
                == "https://chatgpt.com/#settings/Connectors"@
        }),
{
    let at = key_from(checks, 0);
    assert(is_link(linked[at + 0], links()[0]));
    assert(is_link(linked[at + 1], links()[1]));
    assert(is_link(linked[at + 2], links()[2]));
    assert(is_link(linked[at + 3], links()[3]));
}

/// Why a check matters and what to do about it, for each of the checks, whatever channel it is of.
#[verifier::spinoff_prover]
pub proof fn lemma_reasons_told(id: Seq<char>)
    ensures
        ({
            let base = text::split_of(id, '.')[0];
            &&& base == "config_source"@ ==> why_of(id) == "The selected configuration supplies the runtime connections and process commands."@
            &&& base == "config_source"@ ==> action_of(id) == "Check the reported configuration field or source path."@
            &&& base == "profile_load"@ ==> why_of(id) == "The selected configuration supplies the runtime connections and process commands."@
            &&& base == "profile_load"@ ==> action_of(id) == "Check the reported configuration field or source path."@
            &&& base == "config_validation"@ ==> why_of(id) == "The selected configuration supplies the runtime connections and process commands."@
            &&& base == "config_validation"@ ==> action_of(id) == "Check the reported configuration field or source path."@
            &&& base == "tunnel_id"@ ==> why_of(id) == "The tunnel ID identifies the control-plane connection."@
            &&& base == "tunnel_id"@ ==> action_of(id) == "Set --control-plane.tunnel-id to the ID of the configured tunnel."@
            &&& base == "control_plane_api_key"@ ==> why_of(id) == "The runtime key is used to poll the tunnel and return results."@
            &&& base == "control_plane_api_key"@ ==> action_of(id) == "Set control_plane.api_key or CONTROL_PLANE_API_KEY to the runtime credential or its reference."@
            &&& base == "control_plane_connection"@ ==> why_of(id) == "The configured control-plane transport must reach the tunnel API."@
            &&& base == "control_plane_connection"@ ==> action_of(id) == "Check the reported endpoint, credential, proxy and TLS configuration."@
            &&& base == "control_plane_base_url"@ ==> why_of(id) == "The configured control-plane transport must reach the tunnel API."@
            &&& base == "control_plane_base_url"@ ==> action_of(id) == "Check the reported endpoint, credential, proxy and TLS configuration."@
            &&& base == "mcp_target"@ ==> why_of(id) == "The configured MCP transport is used for initialization and normal requests."@
            &&& base == "mcp_target"@ ==> action_of(id) == "Check the reported MCP command, URL, socket, proxy or certificate."@
            &&& base == "mcp_server_reachable"@ ==> why_of(id) == "The configured MCP transport is used for initialization and normal requests."@
            &&& base == "mcp_server_reachable"@ ==> action_of(id) == "Check the reported MCP command, URL, socket, proxy or certificate."@
            &&& base == "mcp_tools"@ ==> why_of(id) == "The configured MCP transport is used for initialization and normal requests."@
            &&& base == "mcp_tools"@ ==> action_of(id) == "Check the reported MCP command, URL, socket, proxy or certificate."@
            &&& base == "oauth_metadata"@ ==> why_of(id) == "OAuth discovery describes the MCP resource and its authorization server."@
            &&& base == "oauth_metadata"@ ==> action_of(id) == "Check the advertised metadata URL and authentication headers."@
            &&& base == "health_listener"@ ==> why_of(id) == "The runtime binds its health endpoint before starting the tunnel."@
            &&& base == "health_listener"@ ==> action_of(id) == "Select an available health.listen_addr or health.unix_socket."@
            &&& base == "cloudflared_path"@ ==> why_of(id) == "Cloudflare connections use the executable installed by the operator."@
            &&& base == "cloudflared_path"@ ==> action_of(id) == "Install cloudflared on PATH or set cloudflared.path to its executable."@
            &&& base == "shutdown"@ ==> why_of(id) == "Processes started for diagnostics are closed when diagnostics finish."@
            &&& base == "shutdown"@ ==> action_of(id) == "Inspect the reported process shutdown error."@
        }),
{
    reveal_strlit("config_source");
    reveal_strlit("profile_load");
    reveal_strlit("config_validation");
    reveal_strlit("tunnel_id");
    reveal_strlit("control_plane_api_key");
    reveal_strlit("control_plane_connection");
    reveal_strlit("control_plane_base_url");
    reveal_strlit("mcp_target");
    reveal_strlit("mcp_server_reachable");
    reveal_strlit("mcp_tools");
    reveal_strlit("oauth_metadata");
    reveal_strlit("health_listener");
    reveal_strlit("cloudflared_path");
    reveal_strlit("shutdown");
    assert("config_source"@.len() == 13);
    assert("profile_load"@.len() == 12);
    assert("config_validation"@.len() == 17);
    assert("tunnel_id"@.len() == 9 && "tunnel_id"@[0] == 't');
    assert("control_plane_api_key"@.len() == 21);
    assert("control_plane_connection"@.len() == 24);
    assert("control_plane_base_url"@.len() == 22);
    assert("mcp_target"@.len() == 10);
    assert("mcp_server_reachable"@.len() == 20);
    assert("mcp_tools"@.len() == 9 && "mcp_tools"@[0] == 'm');
    assert("oauth_metadata"@.len() == 14);
    assert("health_listener"@.len() == 15);
    assert("cloudflared_path"@.len() == 16);
    assert("shutdown"@.len() == 8);
}

/// An explanation adds why to what did not pass and what to do to what failed, and changes nothing else.
pub proof fn lemma_explained(explained: Seq<Check>, checks: Seq<Check>, at: int)
    requires
        are_explained(explained, checks),
        0 <= at < checks.len(),
    ensures
        explained.len() == checks.len(),
        explained[at].id == checks[at].id && explained[at].status == checks[at].status && explained[at].summary
            == checks[at].summary && explained[at].evidence == checks[at].evidence,
        checks[at].status == Status::Pass ==> explained[at] == checks[at],
        checks[at].status == Status::Skip ==> explained[at].why@ == why_of(checks[at].id@) && explained[at].next
            == checks[at].next,
        checks[at].status == Status::Fail ==> explained[at].why@ == why_of(checks[at].id@) && text::views(
            explained[at].next@,
        ).last() == action_of(checks[at].id@) && text::views(explained[at].next@).drop_last() == text::views(
            checks[at].next@,
        ),
{
    assert(is_explained(explained[at], checks[at]));
    let before = text::views(checks[at].next@);
    assert(before.push(action_of(checks[at].id@)).drop_last() =~= before);
}

/// A line tells a check with its name and its status in columns.
pub proof fn lemma_check_line(check: Check, checks: Seq<Check>, count: int)
    requires
        0 < count <= checks.len(),
    ensures
        check.id@.len() >= 24 && check.status.word().len() >= 4 ==> line_of(check) == "CHECK "@ + check.id@ + " "@
            + check.status.word() + " "@ + check.summary@ + "\n"@,
        check.id@.len() <= 24 ==> padded_of(check.id@, 24).len() == 24,
        padded_of(check.id@, 24).len() >= 24,
        check.id@.is_prefix_of(padded_of(check.id@, 24)),
        lines_of(checks, count) == lines_of(checks, count - 1) + line_of(checks[count - 1]),
        explanations_of(checks, count) == explanations_of(checks, count - 1) + explanation_of(checks[count - 1]),
        check.status == Status::Pass ==> explanation_of(check).len() == 0,
        check.status != Status::Pass ==> ("\nCHECK "@ + check.id@ + "   "@ + check.status.word()
            + "\n"@).is_prefix_of(explanation_of(check)),
{
    let padded = padded_of(check.id@, 24);
    assert(padded.subrange(0, check.id@.len() as int) =~= check.id@);
    let front = "\nCHECK "@ + check.id@ + "   "@ + check.status.word() + "\n"@;
    let whole = explanation_of(check);
    if check.status != Status::Pass {
        assert(whole.subrange(0, front.len() as int) =~= front);
    }
}

/// A report ends with its result: with what to do next where all is well, and else with the failed checks and the exit
/// code.
pub proof fn lemma_result_told(report: Report)
    ensures
        report.is_ok() && report.next@.len() > 0 ==> result_of(report) == "\nRESULT "@ + report.result@ + "\n"@ + (
        "NEXT   "@ + report.next@ + "\n"@),
        !report.is_ok() ==> result_of(report) == "\nRESULT "@ + report.result@ + "\n"@ + ("FAILED_CHECKS "@
            + text::joined(text::views(report.failed_checks@), ","@) + "\nEXIT_CODE 2\n"@),
        text_of(report, true) == text_of(report, false) + explanations_of(
            report.checks@,
            report.checks@.len() as int,
        ),
{
    let base = lines_of(report.checks@, report.checks@.len() as int) + result_of(report);
    assert(base + Seq::<char>::empty() =~= base);
}

/// Evidence is listed with dashes, and what to do with numbers.
pub proof fn lemma_lists_printed(items: Seq<Seq<char>>, count: int)
    requires
        0 < count <= items.len(),
    ensures
        evidence_of(items, count) == evidence_of(items, count - 1) + "  - "@ + items[count - 1] + "\n"@,
        steps_of(items, count) == steps_of(items, count - 1) + "  "@ + text::decimal_of(count as nat) + ". "@
            + items[count - 1] + "\n"@,
        evidence_of(items, 0).len() == 0 && steps_of(items, 0).len() == 0,
{
}

} // verus!
