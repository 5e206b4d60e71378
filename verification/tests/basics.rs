use otunnel::address;
use otunnel::digest;
use otunnel::header;
use otunnel::json::{self, Json};
use otunnel::pattern;
use otunnel::table::Table;
use otunnel::text;
use otunnel::words::{words, Break};

fn list(items: &[&str]) -> Vec<String> {
    items.iter().map(|item| item.to_string()).collect()
}

#[test]
fn table_keeps_its_keys_in_order() {
    let table = Table::new()
        .insert("b".to_owned(), 2)
        .insert("a".to_owned(), 1)
        .insert("b".to_owned(), 3);
    assert_eq!(table.len(), 2);
    assert_eq!(table.key(0), "a");
    assert_eq!(table.key(1), "b");
    assert_eq!(table.get("b"), Some(&3));
    let table = table.remove("a");
    assert_eq!(table.len(), 1);
    assert!(!table.contains("a"));
}

#[test]
fn documents_are_written_in_the_order_of_their_keys() {
    let value = Json::object()
        .with("zeta", Json::number(7))
        .with("alpha", Json::texts(&list(&["x", "y"])))
        .with("zeta", Json::Bool(true));
    assert_eq!(json::write(value), r#"{"alpha":["x","y"],"zeta":true}"#);
}

#[test]
fn documents_are_read_back() {
    let value = json::parse(r#"{"a":[1,2.5,"x",null,true],"b":{"c":"d"}}"#).expect("document");
    assert_eq!(value.get("b").and_then(|inner| inner.get_text("c")), Some("d".to_owned()));
    assert_eq!(json::write(value), r#"{"a":[1,2.5,"x",null,true],"b":{"c":"d"}}"#);
    assert!(json::parse("{").is_none());
}

#[test]
fn copies_of_documents_say_the_same() {
    let value = json::parse(r#"{"a":[1,{"b":-3}]}"#).expect("document");
    assert_eq!(json::write(json::copy(&value)), r#"{"a":[1,{"b":-3}]}"#);
}

#[test]
fn figures_become_numbers() {
    assert_eq!(json::write(Json::figures("12")), "12");
    assert_eq!(json::write(Json::figures("-4.25")), "-4.25");
}

#[test]
fn entries_keep_their_text() {
    assert_eq!(json::entry(r#"{"a": {"b" : 1}}"#, "a"), Some(r#"{"b":1}"#.to_owned()));
    assert_eq!(json::entry(r#"{"a": 1}"#, "b"), None);
    assert_eq!(json::compact(" [ 1 , 2 ] "), Some("[1,2]".to_owned()));
    let table = json::raw_table(r#"{"b": [1, 2], "a": "x"}"#).expect("object");
    assert_eq!(table.key(0), "a");
    assert_eq!(table.get("b").map(String::as_str), Some("[1, 2]"));
    assert!(json::raw_table("[]").is_err());
}

#[test]
fn documents_are_written_in_yaml() {
    let value = Json::object().with("b", Json::text("x")).with("a", Json::number(1));
    assert_eq!(json::write_yaml(value), Ok("a: 1\nb: x\n".to_owned()));
}

#[test]
fn white_space_is_trimmed_once() {
    assert_eq!(text::trim("\u{2003} a b \n"), "a b");
    assert_eq!(text::trim(&text::trim("  x ")), text::trim("  x "));
    assert_eq!(text::trim(" \t"), "");
}

#[test]
fn texts_are_split_and_joined() {
    assert_eq!(text::split("a,b,,c", ','), list(&["a", "b", "", "c"]));
    assert_eq!(text::join(&list(&["a", "b", "c"]), ", "), "a, b, c");
    assert_eq!(text::split_once("k=v=w", '='), Some(("k".to_owned(), "v=w".to_owned())));
    assert_eq!(text::rsplit_once("k=v=w", '='), Some(("k=v".to_owned(), "w".to_owned())));
    assert_eq!(text::split_at("a::b::c", "::"), Some(("a".to_owned(), "b::c".to_owned())));
}

#[test]
fn texts_come_once() {
    let items = list(&["b", "a", "b", "c", "a"]);
    assert_eq!(text::distinct(&items), list(&["b", "a", "c"]));
}

#[test]
fn texts_are_sorted() {
    assert_eq!(text::sorted(&list(&["b", "a", "ab", "B"])), list(&["B", "a", "ab", "b"]));
    assert!(text::before("a", "ab"));
    assert!(!text::before("b", "ab"));
}

#[test]
fn numbers_are_read_and_written() {
    assert_eq!(text::decimal(0), "0");
    assert_eq!(text::decimal(18446744073709551615), "18446744073709551615");
    assert_eq!(text::signed(-17), "-17");
    assert_eq!(text::unsigned("+42"), Some(42));
    assert_eq!(text::unsigned("18446744073709551616"), None);
    assert_eq!(text::unsigned(""), None);
}

#[test]
fn bytes_and_texts_agree() {
    assert_eq!(text::bytes("h\u{e9}"), vec![104, 195, 169]);
    assert_eq!(text::from_utf8(&vec![104, 195, 169]), Some("h\u{e9}".to_owned()));
    assert_eq!(text::from_utf8(&vec![195]), None);
    assert_eq!(text::front("h\u{e9}llo", 2), "h");
    assert!(text::fits("h\u{e9}", 3));
    assert!(!text::fits("h\u{e9}", 2));
}

#[test]
fn words_are_found() {
    assert_eq!(words("  run  --now ", Break::Space), list(&["run", "--now"]));
}

#[test]
fn urls_have_parts() {
    let url = address::parse("HTTPS://u:p@Example.COM:8443/a/b?q=1#f").expect("URL");
    assert_eq!(url.scheme, "https");
    assert_eq!(url.host.as_deref(), Some("example.com"));
    assert_eq!(url.port, Some(8443));
    assert_eq!(url.username, "u");
    assert_eq!(url.password.as_deref(), Some("p"));
    assert_eq!(url.path, "/a/b");
    assert_eq!(url.query.as_deref(), Some("q=1"));
    assert_eq!(url.fragment.as_deref(), Some("f"));
    assert_eq!(address::parse("http://x").expect("URL").known_port, Some(80));
    assert_eq!(
        address::parse("no url").err().as_deref(),
        Some("relative URL without a base")
    );
}

#[test]
fn references_are_joined() {
    assert_eq!(
        address::join("https://a.example/x/y", "../z?q"),
        Ok("https://a.example/z?q".to_owned())
    );
}

#[test]
fn origins_are_compared() {
    let one = address::parse("https://a.example/x").expect("URL");
    let two = address::parse("https://A.example:443/y").expect("URL");
    let three = address::parse("https://a.example:444/").expect("URL");
    assert!(address::one_origin(&one, &two));
    assert!(!address::one_origin(&one, &three));
    assert!(address::web("ftp://a.example").is_none());
    assert_eq!(address::web("http://a.example/p").map(|url| url.path), Some("/p".to_owned()));
}

#[test]
fn digests_are_written_in_hex() {
    assert_eq!(digest::hex(&[0, 255, 16]), "00ff10");
}

#[test]
fn queries_are_encoded() {
    assert_eq!(pattern::form_encoded("a b&c=\u{e9}"), "a+b%26c%3D%C3%A9");
}

#[test]
fn header_values_are_read_as_text() {
    assert_eq!(header::ascii(&b"a\tb".to_vec()), Some("a\tb".to_owned()));
    assert_eq!(header::ascii(&vec![0xe9]), None);
}

#[test]
fn header_maps_are_measured() {
    let mut map: header::Headers = http::HeaderMap::default();
    map.insert("a-b", b"xyz".to_vec());
    assert!(header::within(&map, 100));
    assert!(!header::within(&map, 2));
}
