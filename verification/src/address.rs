//! URLs as plain values.

use vstd::prelude::*;
use crate::text;

verus! {

/// The parts of a URL.
pub struct Address {
    /// The whole URL as it is written.
    pub text: String,
    pub scheme: String,
    pub username: String,
    pub password: Option<String>,
    pub host: Option<String>,
    /// The port, where it is not the default one of the scheme.
    pub port: Option<u16>,
    /// The port, or the default one of the scheme.
    pub known_port: Option<u16>,
    pub path: String,
    pub query: Option<String>,
    pub fragment: Option<String>,
}

/// What the parts of a URL mean.
#[verifier::ext_equal]
pub struct Parts {
    pub text: Seq<char>,
    pub scheme: Seq<char>,
    pub username: Seq<char>,
    pub password: Option<Seq<char>>,
    pub host: Option<Seq<char>>,
    pub port: Option<u16>,
    pub known_port: Option<u16>,
    pub path: Seq<char>,
    pub query: Option<Seq<char>>,
    pub fragment: Option<Seq<char>>,
}

impl Address {
    /// What the parts mean.
    pub open spec fn parts(self) -> Parts {
        Parts {
            text: self.text@,
            scheme: self.scheme@,
            username: self.username@,
            password: text::view_of(self.password),
            host: text::view_of(self.host),
            port: self.port,
            known_port: self.known_port,
            path: self.path@,
            query: text::view_of(self.query),
            fragment: text::view_of(self.fragment),
        }
    }
}

/// What `url` reads in a text: the parts of an absolute URL, or the reason that it gives.
pub uninterp spec fn parsed_url(value: Seq<char>) -> Result<Parts, Seq<char>>;

/// What a read of a URL means.
pub open spec fn read_as(result: Result<Address, String>) -> Result<Parts, Seq<char>> {
    match result {
        Ok(address) => Ok(address.parts()),
        Err(reason) => Err(reason@),
    }
}

/// Reads an absolute URL: `url::Url::parse` and the accessors of its parts, which depend on the
/// text alone. The URL standard that the crate follows is left to it.
#[verifier::external_body]
fn read(value: &str) -> (result: Result<Address, String>)
    ensures
        read_as(result) == parsed_url(value@),
{
    let url = url::Url::parse(value).map_err(|error| error.to_string())?;
    Ok(Address {
        text: url.as_str().to_owned(),
        scheme: url.scheme().to_owned(),
        username: url.username().to_owned(),
        password: url.password().map(str::to_owned),
        host: url.host_str().map(str::to_owned),
        port: url.port(),
        known_port: url.port_or_known_default(),
        path: url.path().to_owned(),
        query: url.query().map(str::to_owned),
        fragment: url.fragment().map(str::to_owned),
    })
}

/// Reads an absolute URL.
pub fn parse(value: &str) -> (result: Result<Address, String>)
    ensures
        read_as(result) == parsed_url(value@),
{
    read(value)
}

impl Address {
    /// A copy of the parts.
    pub fn copy(&self) -> (result: Address)
        ensures
            result.parts() == self.parts(),
    {
        Address {
            text: self.text.clone(),
            scheme: self.scheme.clone(),
            username: self.username.clone(),
            password: text::copy_option(&self.password),
            host: text::copy_option(&self.host),
            port: self.port,
            known_port: self.known_port,
            path: self.path.clone(),
            query: text::copy_option(&self.query),
            fragment: text::copy_option(&self.fragment),
        }
    }
}

/// A URL without its user, as `url` writes it; nothing where the text is no URL.
pub uninterp spec fn url_without_user(value: Seq<char>) -> Option<Seq<char>>;

/// Takes the user out of a URL: `url::Url::set_username` on the parsed URL, which depends on its text
/// alone. A URL that cannot have a user stays as it is. A URL of the web can be read again, and nothing
/// but its user and perhaps its password is changed.
#[verifier::external_body]
fn without_user(value: &str) -> (result: Option<String>)
    ensures
        text::view_of(result) == url_without_user(value@),
        is_web(value@) ==> result is Some && parsed_url(result->0@) == Ok::<Parts, Seq<char>>(
            (Parts {
                text: result->0@,
                username: Seq::empty(),
                password: web_parts(result->0@).password,
                ..web_parts(value@)
            }),
        ),
{
    let mut url = url::Url::parse(value).ok()?;
    let _ = url.set_username("");
    Some(url.into())
}

/// A URL without its password, as `url` writes it; nothing where the text is no URL.
pub uninterp spec fn url_without_password(value: Seq<char>) -> Option<Seq<char>>;

/// Takes the password out of a URL: `url::Url::set_password` on the parsed URL, which depends on its
/// text alone. A URL that cannot have a password stays as it is. A URL of the web can be read again, and
/// nothing but its password is changed.
#[verifier::external_body]
fn without_password(value: &str) -> (result: Option<String>)
    ensures
        text::view_of(result) == url_without_password(value@),
        is_web(value@) ==> result is Some && parsed_url(result->0@) == Ok::<Parts, Seq<char>>(
            (Parts { text: result->0@, password: None, ..web_parts(value@) }),
        ),
{
    let mut url = url::Url::parse(value).ok()?;
    let _ = url.set_password(None);
    Some(url.into())
}

/// A URL without its user and its password.
pub open spec fn url_anonymous(value: Seq<char>) -> Option<Seq<char>> {
    match url_without_user(value) {
        Some(rest) => url_without_password(rest),
        None => None,
    }
}

/// A URL without its user and its password.
pub(crate) fn anonymous(value: &str) -> (result: Option<String>)
    ensures
        text::view_of(result) == url_anonymous(value@),
        is_web(value@) ==> result is Some && parsed_url(result->0@) == Ok::<Parts, Seq<char>>(
            (Parts {
                text: result->0@,
                username: Seq::empty(),
                password: None,
                ..web_parts(value@)
            }),
        ),
{
    match without_user(value) {
        Some(rest) => without_password(&rest),
        None => None,
    }
}

/// The URL that `url` writes for a base at another host; nothing where it is none.
pub uninterp spec fn url_at_host(base: Seq<char>, host: Seq<char>) -> Option<Seq<char>>;

/// Puts a URL at another host: `url::Url::set_host` on the parsed base, which depends on the base and
/// the host alone. The bound keeps far below the four gigabytes at which the crate panics.
#[verifier::external_body]
fn at_host(base: &str, host: &str) -> (result: Option<String>)
    requires
        text::byte_len(base@) <= LARGEST,
        text::byte_len(host@) <= LARGEST,
    ensures
        text::view_of(result) == url_at_host(base@, host@),
{
    let mut url = url::Url::parse(base).ok()?;
    url.set_host(Some(host)).ok()?;
    Some(String::from(url))
}

/// The URL that `url` writes for a base at another port; nothing where it is none.
pub uninterp spec fn url_at_port(base: Seq<char>, port: u16) -> Option<Seq<char>>;

/// Puts a URL at another port: `url::Url::set_port` on the parsed base, which depends on the base and
/// the port alone. The bound keeps far below the four gigabytes at which the crate panics.
#[verifier::external_body]
fn at_port(base: &str, port: u16) -> (result: Option<String>)
    requires
        text::byte_len(base@) <= 4 * LARGEST,
    ensures
        text::view_of(result) == url_at_port(base@, port),
{
    let mut url = url::Url::parse(base).ok()?;
    url.set_port(Some(port)).ok()?;
    Some(String::from(url))
}

/// The URL for a base at another host and port; nothing where they are none, or where the host is longer
/// than any can be.
pub open spec fn url_at(base: Seq<char>, host: Seq<char>, port: u16) -> Option<Seq<char>> {
    match url_at_host(base, host) {
        Some(there) => if text::byte_len(there) > 4 * LARGEST {
            None
        } else {
            url_at_port(there, port)
        },
        None => None,
    }
}

/// Puts a URL at another host and port.
pub(crate) fn at(base: &str, host: &str, port: u16) -> (result: Option<String>)
    requires
        text::byte_len(base@) <= LARGEST,
        text::byte_len(host@) <= LARGEST,
    ensures
        text::view_of(result) == url_at(base@, host@, port),
{
    match at_host(base, host) {
        Some(there) => if text::fits(&there, 4 * LARGEST) {
            at_port(&there, port)
        } else {
            None
        },
        None => None,
    }
}

/// What `url` makes of a reference against a base, or the reason that it gives.
pub uninterp spec fn joined_url(base: Seq<char>, reference: Seq<char>) -> Result<Seq<char>, Seq<char>>;

/// What a written URL means.
pub open spec fn written_as(result: Result<String, String>) -> Result<Seq<char>, Seq<char>> {
    match result {
        Ok(value) => Ok(value@),
        Err(reason) => Err(reason@),
    }
}

/// Resolves a reference against a base URL: `url::Url::join` on the parsed base, which depends on
/// the two texts alone.
#[verifier::external_body]
fn resolve(base: &str, reference: &str) -> (result: Result<String, String>)
    ensures
        written_as(result) == joined_url(base@, reference@),
{
    url::Url::parse(base)
        .and_then(|base| base.join(reference))
        .map(String::from)
        .map_err(|error| error.to_string())
}

/// Resolves a reference against a base URL.
pub fn join(base: &str, reference: &str) -> (result: Result<String, String>)
    ensures
        written_as(result) == joined_url(base@, reference@),
{
    resolve(base, reference)
}

/// The parts of a URL of the web.
pub open spec fn web_parts(value: Seq<char>) -> Parts {
    parsed_url(value)->Ok_0
}

/// A URL without its query, as `url` writes it; nothing where the text is no URL.
pub uninterp spec fn url_without_query(value: Seq<char>) -> Option<Seq<char>>;

/// Takes the query out of a URL: `url::Url::set_query` with nothing on the parsed URL, which depends on
/// its text alone. Nothing else of a URL of the web is changed, and what comes out can be read again.
#[verifier::external_body]
fn without_query(value: &str) -> (result: Option<String>)
    ensures
        text::view_of(result) == url_without_query(value@),
        is_web(value@) ==> result is Some && parsed_url(result->0@) == Ok::<Parts, Seq<char>>(
            (Parts { text: result->0@, query: None, ..web_parts(value@) }),
        ),
{
    let mut url = url::Url::parse(value).ok()?;
    url.set_query(None);
    Some(url.into())
}

/// A URL without its fragment, as `url` writes it; nothing where the text is no URL.
pub uninterp spec fn url_without_fragment(value: Seq<char>) -> Option<Seq<char>>;

/// Takes the fragment out of a URL: `url::Url::set_fragment` with nothing on the parsed URL, which
/// depends on its text alone. Nothing else of a URL of the web is changed, and what comes out can be
/// read again.
#[verifier::external_body]
fn without_fragment(value: &str) -> (result: Option<String>)
    ensures
        text::view_of(result) == url_without_fragment(value@),
        is_web(value@) ==> result is Some && parsed_url(result->0@) == Ok::<Parts, Seq<char>>(
            (Parts { text: result->0@, fragment: None, ..web_parts(value@) }),
        ),
{
    let mut url = url::Url::parse(value).ok()?;
    url.set_fragment(None);
    Some(url.into())
}

/// The URL that `url` writes for a base with another path; nothing where the base is no URL.
pub uninterp spec fn url_with_path(base: Seq<char>, path: Seq<char>) -> Option<Seq<char>>;

/// Puts a path in place of that of a URL: `url::Url::set_path` on the parsed base, which depends on the
/// two texts alone; how the path is encoded is left to the crate. Nothing else of a URL of the web is
/// changed, and what comes out can be read again. The bounds keep far below the four gigabytes at which
/// the crate panics.
#[verifier::external_body]
fn with_path(base: &str, path: &str) -> (result: Option<String>)
    requires
        text::byte_len(base@) <= LARGEST,
        text::byte_len(path@) <= LARGEST,
    ensures
        text::view_of(result) == url_with_path(base@, path@),
        is_web(base@) ==> result is Some && parsed_url(result->0@) == Ok::<Parts, Seq<char>>(
            (Parts { text: result->0@, path: web_parts(result->0@).path, ..web_parts(base@) }),
        ),
{
    let mut url = url::Url::parse(base).ok()?;
    url.set_path(path);
    Some(url.into())
}

/// The largest text that is put into a URL, or taken for one that grows: a URL ends at four gigabytes,
/// and a character can take three in it.
pub const LARGEST: usize = 0x10000000;

/// The root of a URL: its path is a slash, and it has no query and no fragment. There is none where the
/// base is no URL, or larger than any that is used.
pub open spec fn url_root(base: Seq<char>) -> Option<Seq<char>> {
    if text::byte_len(base) > LARGEST {
        None
    } else {
        match url_with_path(base, "/"@) {
            Some(short) => match url_without_query(short) {
                Some(rest) => url_without_fragment(rest),
                None => None,
            },
            None => None,
        }
    }
}

/// The root of a URL.
pub(crate) fn root(base: &str) -> (result: Option<String>)
    ensures
        text::view_of(result) == url_root(base@),
        is_web(base@) && text::byte_len(base@) <= LARGEST ==> result is Some,
{
    if !text::fits(base, LARGEST) {
        return None;
    }
    proof {
        reveal_strlit("/");
        text::lemma_byte_len_bounds("/"@);
    }
    match with_path(base, "/") {
        Some(short) => match without_query(&short) {
            Some(rest) => without_fragment(&rest),
            None => None,
        },
        None => None,
    }
}

/// The URL that `url` writes for a base with its path replaced by the given segments; nothing where
/// the base is no URL with a path of segments.
pub uninterp spec fn url_with_segments(base: Seq<char>, segments: Seq<Seq<char>>) -> Option<Seq<char>>;

/// A character that stays as it is in a path.
pub open spec fn is_path_char(ch: char) -> bool {
    text::is_alnum(ch) || ch == '-' || ch == '.' || ch == '_' || ch == '~'
}

/// Whether the text is a segment of a path as it stands: it holds none but characters that stay as they
/// are, and is neither `.` nor `..`.
pub open spec fn is_segment(value: Seq<char>) -> bool {
    &&& value.len() > 0
    &&& value != "."@
    &&& value != ".."@
    &&& forall|i: int| 0 <= i < value.len() ==> is_path_char(#[trigger] value[i])
}

/// Whether the texts are the segments of a path as they stand, or the one empty segment of the root.
pub open spec fn are_segments(values: Seq<Seq<char>>) -> bool {
    ||| values == seq![Seq::<char>::empty()]
    ||| values.len() > 0 && forall|i: int| 0 <= i < values.len() ==> is_segment(#[trigger] values[i])
}

/// The path of some segments.
pub open spec fn path_of(segments: Seq<Seq<char>>) -> Seq<char> {
    seq!['/'] + text::joined(segments, seq!['/'])
}

/// The path of a URL that can be read.
pub open spec fn read_path(value: Seq<char>) -> Seq<char> {
    parsed_url(value)->Ok_0.path
}

/// The query of a URL that can be read.
pub open spec fn read_query(value: Seq<char>) -> Option<Seq<char>> {
    parsed_url(value)->Ok_0.query
}

/// Replaces the path of a URL: `url::Url::path_segments_mut`, then `clear` and `extend` by the
/// segments. The result depends on the base and the segments alone. A URL of the web has a path of
/// segments, and what comes out can be read again; it has the origin and the query of the base, since
/// nothing but the path is changed. Where no segment needs to be encoded, the path is a slash and the
/// segments with slashes between them; how others are encoded is left to the crate.
/// The crate panics where a URL takes four gigabytes; the bounds keep far below that.
#[verifier::external_body]
pub(crate) fn with_segments(base: &str, segments: &Vec<String>) -> (result: Option<String>)
    requires
        text::byte_len(base@) <= LARGEST,
        segments@.len() <= LARGEST,
        text::total_bytes(text::views(segments@)) <= LARGEST,
    ensures
        text::view_of(result) == url_with_segments(base@, text::views(segments@)),
        is_web(base@) ==> result is Some && of_origin(result->0@, base@) && is_web(result->0@)
            && read_query(result->0@) == read_query(base@),
        is_web(base@) && are_segments(text::views(segments@)) ==> read_path(result->0@) == path_of(
            text::views(segments@),
        ),
        result is Some ==> parsed_url(result->0@) is Ok,
{
    let mut url = url::Url::parse(base).ok()?;
    url.path_segments_mut().ok()?.clear().extend(segments);
    Some(String::from(url))
}

/// Whether the text is a URL with the scheme `http` or `https`.
pub open spec fn is_web(value: Seq<char>) -> bool {
    match parsed_url(value) {
        Ok(parts) => parts.scheme == "http"@ || parts.scheme == "https"@,
        Err(_) => false,
    }
}

/// Whether a text is a URL of the web with the origin of another one.
pub open spec fn of_origin(value: Seq<char>, base: Seq<char>) -> bool {
    match (parsed_url(value), parsed_url(base)) {
        (Ok(parts), Ok(other)) => same_origin(parts, other),
        _ => false,
    }
}

/// The URL that `url` writes for a base with the given query; nothing where the base is no URL.
pub uninterp spec fn url_with_query(base: Seq<char>, query: Seq<char>) -> Option<Seq<char>>;

/// A character that stays as it is in a query.
pub open spec fn is_query_char(ch: char) -> bool {
    is_path_char(ch) || ch == '%' || ch == '+' || ch == '=' || ch == '&'
}

/// Sets the query of a URL: `url::Url::set_query` on the parsed base, which depends on the two texts
/// alone and does not fail. A URL of the web keeps its origin and its path, since nothing but the query
/// is changed. Where no character needs to be encoded, the query is the given one; how others are
/// encoded is left to the crate.
/// The crate panics where a URL takes four gigabytes; the bounds keep far below that.
#[verifier::external_body]
pub(crate) fn with_query(base: &str, query: &str) -> (result: Option<String>)
    requires
        text::byte_len(base@) <= LARGEST,
        text::byte_len(query@) <= LARGEST,
    ensures
        text::view_of(result) == url_with_query(base@, query@),
        parsed_url(base@) is Ok ==> result is Some,
        is_web(base@) ==> result is Some && of_origin(result->0@, base@) && read_path(result->0@)
            == read_path(base@),
        is_web(base@) && text::every(query@, |ch: char| is_query_char(ch)) ==> read_query(
            result->0@,
        ) == Some(query@),
{
    let mut url = url::Url::parse(base).ok()?;
    url.set_query(Some(query));
    Some(String::from(url))
}

/// The URL that `url` writes for a base with one more segment behind its path; nothing where the base
/// is no URL with a path of segments.
pub uninterp spec fn url_pushed(base: Seq<char>, segment: Seq<char>) -> Option<Seq<char>>;

/// Adds a segment to the path of a URL: `url::Url::path_segments_mut`, then `pop_if_empty` and `push`.
/// The result depends on the two texts alone. The crate panics where a URL takes four gigabytes; the
/// bounds keep far below that.
#[verifier::external_body]
pub(crate) fn pushed(base: &str, segment: &str) -> (result: Option<String>)
    requires
        text::byte_len(base@) <= LARGEST,
        text::byte_len(segment@) <= LARGEST,
    ensures
        text::view_of(result) == url_pushed(base@, segment@),
        is_web(base@) ==> result is Some,
        result is Some ==> parsed_url(result->0@) is Ok,
{
    let mut url = url::Url::parse(base).ok()?;
    url.path_segments_mut().ok()?.pop_if_empty().push(segment);
    Some(String::from(url))
}

/// The URL that `url` writes for a base with more segments behind its path; nothing where the base is
/// no URL with a path of segments.
pub uninterp spec fn url_extended(base: Seq<char>, segments: Seq<Seq<char>>) -> Option<Seq<char>>;

/// Adds segments to the path of a URL: `url::Url::path_segments_mut`, then `extend`. The result
/// depends on the base and the segments alone. The crate panics where a URL takes four gigabytes; the
/// bounds keep far below that.
#[verifier::external_body]
pub(crate) fn extended(base: &str, segments: &Vec<String>) -> (result: Option<String>)
    requires
        text::byte_len(base@) <= LARGEST,
        segments@.len() <= LARGEST,
        text::total_bytes(text::views(segments@)) <= LARGEST,
    ensures
        text::view_of(result) == url_extended(base@, text::views(segments@)),
        is_web(base@) ==> result is Some,
        result is Some ==> parsed_url(result->0@) is Ok,
{
    let mut url = url::Url::parse(base).ok()?;
    url.path_segments_mut().ok()?.extend(segments);
    Some(String::from(url))
}

/// The contents of a list of pairs of strings.
pub open spec fn pair_views(pairs: Seq<(String, String)>) -> Seq<(Seq<char>, Seq<char>)> {
    pairs.map_values(|pair: (String, String)| (pair.0@, pair.1@))
}

/// The URL that `url` writes for a base with the pairs behind its query; nothing where the base is no
/// URL.
pub uninterp spec fn url_with_pairs(base: Seq<char>, pairs: Seq<(Seq<char>, Seq<char>)>) -> Option<
    Seq<char>,
>;

/// The bytes that pairs take together.
pub open spec fn pairs_size(pairs: Seq<(Seq<char>, Seq<char>)>) -> nat
    decreases pairs.len(),
{
    if pairs.len() == 0 {
        0
    } else {
        pairs_size(pairs.drop_last()) + text::byte_len(pairs.last().0) + text::byte_len(
            pairs.last().1,
        )
    }
}

/// Adds pairs to the query of a URL: `url::Url::query_pairs_mut` and `extend_pairs`. The result
/// depends on the base and the pairs alone, and how a pair is encoded is left to the crate. The crate
/// panics where a URL takes four gigabytes; the bounds keep far below that.
#[verifier::external_body]
pub(crate) fn with_pairs(base: &str, pairs: &Vec<(String, String)>) -> (result: Option<String>)
    requires
        text::byte_len(base@) <= LARGEST,
        pairs@.len() <= LARGEST,
        pairs_size(pair_views(pairs@)) <= LARGEST,
    ensures
        text::view_of(result) == url_with_pairs(base@, pair_views(pairs@)),
        parsed_url(base@) is Ok ==> result is Some,
{
    let mut url = url::Url::parse(base).ok()?;
    url.query_pairs_mut().extend_pairs(pairs);
    Some(String::from(url))
}

/// Whether the pairs take at most the given number of bytes.
pub fn pairs_fit(pairs: &Vec<(String, String)>, limit: usize) -> (result: bool)
    ensures
        result == (pairs_size(pair_views(pairs@)) <= limit),
{
    let ghost all = pair_views(pairs@);
    let mut room: usize = limit;
    let mut index: usize = 0;
    while index < pairs.len()
        invariant
            index <= pairs.len(),
            all == pair_views(pairs@),
            room + pairs_size(all.take(index as int)) == limit,
        decreases pairs.len() - index,
    {
        proof {
            assert(all.take(index + 1).drop_last() == all.take(index as int));
            assert(all.take(index + 1).last() == all[index as int]);
            lemma_pairs_prefix(all, index + 1);
        }
        if !text::fits(&pairs[index].0, room) {
            return false;
        }
        room = room - text::bytes(&pairs[index].0).len();
        if !text::fits(&pairs[index].1, room) {
            return false;
        }
        room = room - text::bytes(&pairs[index].1).len();
        index = index + 1;
    }
    assert(all.take(all.len() as int) == all);
    true
}

proof fn lemma_pairs_prefix(pairs: Seq<(Seq<char>, Seq<char>)>, count: int)
    requires
        0 <= count <= pairs.len(),
    ensures
        pairs_size(pairs.take(count)) <= pairs_size(pairs),
    decreases pairs.len() - count,
{
    if count < pairs.len() {
        assert(pairs.take(count + 1).drop_last() == pairs.take(count));
        lemma_pairs_prefix(pairs, count + 1);
    } else {
        assert(pairs.take(count) == pairs);
    }
}

/// Whether two URLs of the web have the same origin: scheme, host and port.
pub open spec fn same_origin(left: Parts, right: Parts) -> bool {
    &&& left.scheme == "http"@ || left.scheme == "https"@
    &&& left.scheme == right.scheme
    &&& left.host == right.host
    &&& left.known_port == right.known_port
}

/// Whether two URLs of the web have the same origin.
pub fn one_origin(left: &Address, right: &Address) -> (result: bool)
    ensures
        result == same_origin(left.parts(), right.parts()),
{
    let hosts = match (&left.host, &right.host) {
        (Some(left), Some(right)) => text::same(left, right),
        (None, None) => true,
        _ => false,
    };
    let ports = match (left.known_port, right.known_port) {
        (Some(left), Some(right)) => left == right,
        (None, None) => true,
        _ => false,
    };
    (text::same(&left.scheme, "http") || text::same(&left.scheme, "https")) && text::same(
        &left.scheme,
        &right.scheme,
    ) && hosts && ports
}

/// Whether a text is a URL of the web without a user, a password, a query and a fragment, with the origin
/// of another one.
pub open spec fn is_bare(value: Seq<char>, base: Seq<char>) -> bool {
    match parsed_url(value) {
        Ok(parts) => {
            &&& of_origin(value, base)
            &&& parts.username.len() == 0
            &&& parts.password is None
            &&& parts.query is None
            &&& parts.fragment is None
        },
        Err(_) => false,
    }
}

/// A URL without its user, its password, its query and its fragment.
pub open spec fn url_stripped(base: Seq<char>) -> Option<Seq<char>> {
    match url_anonymous(base) {
        Some(open) => match url_without_query(open) {
            Some(short) => url_without_fragment(short),
            None => None,
        },
        None => None,
    }
}

/// A URL with another path, without a user, a password, a query and a fragment. There is none where the
/// base is no URL, or one of the texts is larger than any that is used.
pub open spec fn url_bare(base: Seq<char>, path: Seq<char>) -> Option<Seq<char>> {
    match url_stripped(base) {
        Some(rest) => if text::byte_len(rest) > LARGEST || text::byte_len(path) > LARGEST {
            None
        } else {
            url_with_path(rest, path)
        },
        None => None,
    }
}

fn stripped(base: &str) -> (result: Option<String>)
    ensures
        text::view_of(result) == url_stripped(base@),
        is_web(base@) ==> result is Some && is_bare(result->0@, base@) && is_web(result->0@),
{
    match anonymous(base) {
        Some(open) => match without_query(&open) {
            Some(short) => without_fragment(&short),
            None => None,
        },
        None => None,
    }
}

/// A URL with another path, without a user, a password, a query and a fragment.
pub(crate) fn bare(base: &str, path: &str) -> (result: Option<String>)
    ensures
        text::view_of(result) == url_bare(base@, path@),
        is_web(base@) && result is Some ==> is_bare(result->0@, base@),
{
    match stripped(base) {
        Some(rest) => if text::fits(&rest, LARGEST) && text::fits(path, LARGEST) {
            with_path(&rest, path)
        } else {
            None
        },
        None => None,
    }
}

/// Whether `http` reads a text as a URI.
pub uninterp spec fn is_uri(value: Seq<char>) -> bool;

/// Reads a URI: whether `str::parse` into `http::Uri` succeeds, which depends on the text alone.
#[verifier::external_body]
pub(crate) fn uri(value: &str) -> (result: bool)
    ensures
        result == is_uri(value@),
{
    value.parse::<http::Uri>().is_ok()
}

/// The parts of a URL of the web with a host.
pub open spec fn web_of(value: Seq<char>) -> Option<Parts> {
    match parsed_url(value) {
        Ok(url) => if (url.scheme == "http"@ || url.scheme == "https"@) && url.host is Some {
            Some(url)
        } else {
            None
        },
        Err(_) => None,
    }
}

/// The parts of a URL, where there is one.
pub open spec fn parts_of(value: Option<Address>) -> Option<Parts> {
    match value {
        Some(url) => Some(url.parts()),
        None => None,
    }
}

/// Reads a URL of the web with a host.
pub fn web(value: &str) -> (result: Option<Address>)
    ensures
        parts_of(result) == web_of(value@),
{
    match parse(value) {
        Ok(url) => if (text::same(&url.scheme, "http") || text::same(&url.scheme, "https"))
            && url.host.is_some() {
            Some(url)
        } else {
            None
        },
        Err(_) => None,
    }
}

/// Two addresses are of one origin where both are of the web and agree in the scheme, the host and the port.
pub proof fn lemma_origins(left: Parts, right: Parts)
    ensures
        left.scheme != right.scheme ==> !same_origin(left, right),
        left.host != right.host ==> !same_origin(left, right),
        left.known_port != right.known_port ==> !same_origin(left, right),
        left.scheme != "http"@ && left.scheme != "https"@ ==> !same_origin(left, right),
        (left.scheme == "http"@ || left.scheme == "https"@) && left.scheme == right.scheme && left.host
            == right.host && left.known_port == right.known_port ==> same_origin(left, right) && same_origin(
            right,
            left,
        ),
{
}

/// Whether two addresses are of one origin does not depend on the order, and carries over.
pub proof fn lemma_origins_alike(first: Parts, second: Parts, third: Parts)
    ensures
        same_origin(first, second) <==> same_origin(second, first),
        same_origin(first, second) && same_origin(second, third) ==> same_origin(first, third),
{
}

/// An address of the web has a scheme of it and a host.
pub proof fn lemma_web(value: Seq<char>)
    ensures
        web_of(value) matches Some(url) ==> parsed_url(value) == Ok::<Parts, Seq<char>>(url) && url.host is Some
            && (url.scheme == "http"@ || url.scheme == "https"@) && is_web(value),
        parsed_url(value) matches Ok(url) ==> ((url.scheme == "http"@ || url.scheme == "https"@) && url.host
            is Some ==> web_of(value) == Some(url)),
        parsed_url(value) is Err ==> web_of(value) is None && !is_web(value),
        parsed_url(value) matches Ok(url) ==> (url.scheme == "http"@ || url.scheme == "https"@ ==> is_web(value)),
{
}

/// A bare address is of the origin of its base, with no user, no password, no query and no fragment.
pub proof fn lemma_bare(value: Seq<char>, base: Seq<char>)
    requires
        is_bare(value, base),
    ensures
        parsed_url(value) matches Ok(parts) && parts.username.len() == 0 && parts.password is None && parts.query
            is None && parts.fragment is None,
        parsed_url(base) matches Ok(other) && same_origin(parsed_url(value)->Ok_0, other),
{
}

/// A segment that needs no escape holds letters, digits and four marks, and is neither dot nor two dots.
pub proof fn lemma_segments(value: Seq<char>, at: int)
    ensures
        is_segment(value) && 0 <= at < value.len() ==> text::is_alnum(value[at]) || value[at] == '-' || value[at]
            == '.' || value[at] == '_' || value[at] == '~',
        is_segment(value) ==> value.len() > 0 && value != "."@ && value != ".."@,
        !is_segment("."@) && !is_segment(".."@) && !is_segment(Seq::empty()),
        is_segment(value) && 0 <= at < value.len() ==> value[at] != '/' && value[at] != '%' && value[at] != '?'
            && value[at] != '#',
{
}

} // verus!
