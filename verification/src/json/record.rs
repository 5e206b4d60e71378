//! Objects with known fields.

use vstd::prelude::*;
use crate::json::{self, parsed_json, raw_list, raw_map, Doc, Json};
use crate::table::{strings_of, Table};
use crate::text;

verus! {

/// A piece of an object and what stands behind it: a colon behind a key, and a comma or the end behind a
/// value.
pub struct Piece {
    pub end: char,
    pub text: String,
}

/// The contents of [`Piece`].
#[verifier::ext_equal]
pub struct PieceView {
    pub end: char,
    pub text: Seq<char>,
}

impl View for Piece {
    type V = PieceView;

    open spec fn view(&self) -> PieceView {
        PieceView { end: self.end, text: self.text@ }
    }
}

/// The contents of a list of pieces.
pub open spec fn piece_views(pieces: Seq<Piece>) -> Seq<PieceView> {
    pieces.map_values(|piece: Piece| piece@)
}

/// The pieces of an object from a place on, at some depth, inside a string or behind a backslash in it,
/// where the present piece begins at `from`.
pub open spec fn pieces_from(
    value: Seq<char>,
    at: int,
    depth: int,
    quoted: bool,
    escaped: bool,
    from: int,
) -> Seq<PieceView>
    decreases value.len() - at,
{
    if at < 0 || at >= value.len() {
        Seq::empty()
    } else {
        let ch = value[at];
        let own = PieceView { end: ch, text: text::trim_of(value.subrange(from, at)) };
        if quoted {
            pieces_from(
                value,
                at + 1,
                depth,
                escaped || ch != '"',
                !escaped && ch == '\\',
                from,
            )
        } else if ch == '"' {
            pieces_from(value, at + 1, depth, true, false, from)
        } else if ch == '{' || ch == '[' {
            pieces_from(
                value,
                at + 1,
                depth + 1,
                false,
                false,
                if depth == 0 {
                    at + 1
                } else {
                    from
                },
            )
        } else if ch == '}' || ch == ']' {
            if depth > 1 {
                pieces_from(value, at + 1, depth - 1, false, false, from)
            } else {
                seq![own]
            }
        } else if depth == 1 && (ch == ':' || ch == ',') {
            seq![own] + pieces_from(value, at + 1, depth, false, false, at + 1)
        } else {
            pieces_from(value, at + 1, depth, false, false, from)
        }
    }
}

/// The pieces of an object as it is written: its keys and its values in turn.
pub open spec fn pieces_of(value: Seq<char>) -> Seq<PieceView> {
    pieces_from(value, 0, 0, false, false, 0)
}

fn pieces(value: &str) -> (result: Vec<Piece>)
    ensures
        piece_views(result@) == pieces_of(value@),
{
    let all = text::chars(value);
    let mut result: Vec<Piece> = Vec::new();
    let mut at: usize = 0;
    let mut depth: usize = 0;
    let mut quoted = false;
    let mut escaped = false;
    let mut from: usize = 0;
    assert(piece_views(result@) + pieces_of(value@) =~= pieces_of(value@));
    while at < all.len()
        invariant
            all@ == value@,
            at <= all.len(),
            depth <= at,
            from <= at,
            piece_views(result@) + pieces_from(
                value@,
                at as int,
                depth as int,
                quoted,
                escaped,
                from as int,
            ) == pieces_of(value@),
        decreases all.len() - at,
    {
        let ch: char = all[at];
        let ghost before = piece_views(result@);
        let ghost rest = pieces_from(
            value@,
            at as int,
            depth as int,
            quoted,
            escaped,
            from as int,
        );
        if quoted {
            let still = escaped || ch != '"';
            escaped = !escaped && ch == '\\';
            quoted = still;
        } else if ch == '"' {
            quoted = true;
            escaped = false;
        } else if ch == '{' || ch == '[' {
            escaped = false;
            if depth == 0 {
                from = at + 1;
            }
            depth = depth + 1;
        } else if ch == '}' || ch == ']' {
            escaped = false;
            if depth <= 1 {
                let piece = Piece { end: ch, text: text::trim(&text::piece(&all, from, at)) };
                assert(rest =~= seq![piece@]);
                assert(piece_views(result@.push(piece)) =~= before + seq![piece@]);
                result.push(piece);
                return result;
            }
            depth = depth - 1;
        } else if depth == 1 && (ch == ':' || ch == ',') {
            escaped = false;
            let piece = Piece { end: ch, text: text::trim(&text::piece(&all, from, at)) };
            let ghost own = piece@;
            from = at + 1;
            proof {
                let left = pieces_from(value@, at + 1, depth as int, false, false, from as int);
                assert(rest =~= seq![own] + left);
                assert(piece_views(result@.push(piece)) =~= before.push(own));
                assert(before + rest =~= before.push(own) + left);
            }
            result.push(piece);
        } else {
            escaped = false;
        }
        at = at + 1;
    }
    assert(piece_views(result@) + Seq::<PieceView>::empty() =~= piece_views(result@));
    result
}

/// Whether a piece is the key of a name.
pub open spec fn is_key(piece: PieceView, name: Seq<char>) -> bool {
    piece.end == ':' && parsed_json(piece.text) == Some(Doc::Text(name))
}

fn key(piece: &Piece, name: &str) -> (result: bool)
    ensures
        result == is_key(piece@, name@),
{
    if piece.end != ':' {
        return false;
    }
    match json::parse(&piece.text) {
        Some(Json::Text(own)) => text::same(&own, name),
        _ => false,
    }
}

/// How often a name is the key of one of the first pieces.
pub open spec fn times(pieces: Seq<PieceView>, name: Seq<char>, count: int) -> nat
    decreases count,
{
    if count <= 0 {
        0
    } else {
        times(pieces, name, count - 1) + if is_key(pieces[count - 1], name) {
            1nat
        } else {
            0nat
        }
    }
}

/// Whether an object as it is written has a key more than once.
pub open spec fn repeats(value: Seq<char>, name: Seq<char>) -> bool {
    times(pieces_of(value), name, pieces_of(value).len() as int) > 1
}

fn repeated(pieces: &Vec<Piece>, name: &str) -> (result: bool)
    ensures
        result == (times(piece_views(pieces@), name@, pieces@.len() as int) > 1),
{
    let ghost all = piece_views(pieces@);
    let mut found: usize = 0;
    let mut index: usize = 0;
    while index < pieces.len()
        invariant
            index <= pieces.len(),
            all == piece_views(pieces@),
            found == times(all, name@, index as int),
            found <= index,
        decreases pieces.len() - index,
    {
        assert(all[index as int] == pieces@[index as int]@);
        if key(&pieces[index], name) {
            found = found + 1;
        }
        index = index + 1;
    }
    found > 1
}

/// The first of the names from `at` on that is a key more than once.
pub open spec fn repeated_from(value: Seq<char>, names: Seq<Seq<char>>, at: int) -> Option<Seq<char>>
    decreases names.len() - at,
{
    if at < 0 || at >= names.len() {
        None
    } else if repeats(value, names[at]) {
        Some(names[at])
    } else {
        repeated_from(value, names, at + 1)
    }
}

/// The first of the names that is a key of an object more than once.
pub fn repeated_name(value: &str, names: &Vec<String>) -> (result: Option<String>)
    ensures
        text::view_of(result) == repeated_from(value@, text::views(names@), 0),
{
    let all = pieces(value);
    let ghost known = text::views(names@);
    assert(piece_views(all@).len() == all@.len());
    let mut index: usize = 0;
    while index < names.len()
        invariant
            index <= names.len(),
            known == text::views(names@),
            piece_views(all@) == pieces_of(value@),
            piece_views(all@).len() == all@.len(),
            repeated_from(value@, known, 0) == repeated_from(value@, known, index as int),
        decreases names.len() - index,
    {
        assert(known[index as int] == names@[index as int]@);
        if repeated(&all, &names[index]) {
            return Some(names[index].clone());
        }
        index = index + 1;
    }
    None
}

/// Whether a piece is a string that begins with the text.
pub open spec fn opens(piece: PieceView, front: Seq<char>) -> bool {
    match parsed_json(piece.text) {
        Some(Doc::Text(value)) => front.is_prefix_of(value),
        _ => false,
    }
}

/// Whether an object as it is written has an entry of the name that is a string which begins with the
/// text, however often it has the name.
pub open spec fn holds_opening(value: Seq<char>, name: Seq<char>, front: Seq<char>) -> bool {
    let pieces = pieces_of(value);
    exists|i: int|
        0 <= i < pieces.len() - 1 && is_key(#[trigger] pieces[i], name) && opens(
            pieces[i + 1],
            front,
        )
}

/// Whether an object has an entry of the name that is a string which begins with the text.
pub fn has_opening(value: &str, name: &str, front: &str) -> (result: bool)
    ensures
        result == holds_opening(value@, name@, front@),
{
    let all = pieces(value);
    let ghost views = piece_views(all@);
    assert(views.len() == all@.len());
    let mut index: usize = 1;
    while index < all.len()
        invariant
            1 <= index,
            index <= all.len() || index == 1,
            views == piece_views(all@),
            views == pieces_of(value@),
            views.len() == all@.len(),
            forall|i: int|
                0 <= i < index - 1 ==> !(is_key(#[trigger] views[i], name@) && opens(
                    views[i + 1],
                    front@,
                )),
        decreases all.len() - index,
    {
        assert(views[index - 1] == all@[index - 1]@);
        assert(views[index as int] == all@[index as int]@);
        if key(&all[index - 1], name) {
            if let Some(Json::Text(inner)) = json::parse(&all[index].text) {
                if text::starts_with(&inner, front) {
                    assert(is_key(views[index - 1], name@) && opens(views[index - 1 + 1], front@));
                    return true;
                }
            }
        }
        index = index + 1;
    }
    false
}

/// The entries of an object under some names.
pub open spec fn picked(map: Map<Seq<char>, Seq<char>>, names: Seq<Seq<char>>) -> Seq<
    Option<Seq<char>>,
> {
    names.map_values(
        |name: Seq<char>|
            if map.dom().contains(name) {
                Some(map[name])
            } else {
                None
            },
    )
}

/// The items of a list, with nothing behind them up to a length.
pub open spec fn padded(items: Seq<Seq<char>>, count: nat) -> Seq<Option<Seq<char>>> {
    Seq::new(
        count,
        |i: int|
            if i < items.len() {
                Some(items[i])
            } else {
                None
            },
    )
}

/// The known fields of an object as they are written, or why the text holds none: a known field occurs
/// once at most. A list stands for the fields in their order; it is as long as there are fields, or
/// shorter where the last ones can be left out.
pub open spec fn record_of(value: Seq<char>, names: Seq<Seq<char>>, short: bool) -> Result<
    Seq<Option<Seq<char>>>,
    Seq<char>,
> {
    match raw_map(value) {
        Ok(map) => match repeated_from(value, names, 0) {
            Some(name) => Err("duplicate field `"@ + name + "`"@),
            None => Ok(picked(map, names)),
        },
        Err(reason) => match raw_list(value) {
            Some(items) => if items.len() == names.len() || (short && items.len() < names.len()) {
                Ok(padded(items, names.len()))
            } else {
                Err("invalid length "@ + text::decimal_of(items.len()))
            },
            None => Err(reason),
        },
    }
}

/// The contents of a list of optional strings.
pub open spec fn option_views(items: Seq<Option<String>>) -> Seq<Option<Seq<char>>> {
    items.map_values(|item: Option<String>| text::view_of(item))
}

fn pick(table: &Table<String>, names: &Vec<String>) -> (result: Vec<Option<String>>)
    ensures
        option_views(result@) == picked(strings_of(table@), text::views(names@)),
{
    let ghost all = picked(strings_of(table@), text::views(names@));
    let mut result: Vec<Option<String>> = Vec::new();
    let mut index: usize = 0;
    while index < names.len()
        invariant
            index <= names.len(),
            all == picked(strings_of(table@), text::views(names@)),
            option_views(result@) == all.take(index as int),
        decreases names.len() - index,
    {
        let found = match table.get(&names[index]) {
            Some(value) => Some(value.clone()),
            None => None,
        };
        assert(text::views(names@)[index as int] == names@[index as int]@);
        proof {
            assert(all[index as int] == text::view_of(found));
            assert(option_views(result@.push(found)) =~= option_views(result@).push(
                text::view_of(found),
            ));
            assert(all.take(index + 1) =~= all.take(index as int).push(all[index as int]));
        }
        result.push(found);
        index = index + 1;
    }
    assert(all.take(all.len() as int) =~= all);
    result
}

fn pad(items: &Vec<String>, count: usize) -> (result: Vec<Option<String>>)
    ensures
        option_views(result@) == padded(text::views(items@), count as nat),
{
    let ghost all = padded(text::views(items@), count as nat);
    let mut result: Vec<Option<String>> = Vec::new();
    let mut index: usize = 0;
    while index < count
        invariant
            index <= count,
            all == padded(text::views(items@), count as nat),
            option_views(result@) == all.take(index as int),
        decreases count - index,
    {
        let found = if index < items.len() {
            assert(text::views(items@)[index as int] == items@[index as int]@);
            Some(items[index].clone())
        } else {
            None
        };
        proof {
            assert(all[index as int] == text::view_of(found));
            assert(option_views(result@.push(found)) =~= option_views(result@).push(
                text::view_of(found),
            ));
            assert(all.take(index + 1) =~= all.take(index as int).push(all[index as int]));
        }
        result.push(found);
        index = index + 1;
    }
    assert(all.take(all.len() as int) =~= all);
    result
}

/// The known fields of an object as they are written.
pub fn record(value: &str, names: &Vec<String>, short: bool) -> (result: Result<
    Vec<Option<String>>,
    String,
>)
    ensures
        match (result, record_of(value@, text::views(names@), short)) {
            (Ok(fields), Ok(expected)) => option_views(fields@) == expected && fields@.len()
                == names@.len(),
            (Err(reason), Err(expected)) => reason@ == expected,
            _ => false,
        },
{
    assert(text::views(names@).len() == names@.len());
    match json::raw_table(value) {
        Ok(table) => match repeated_name(value, names) {
            Some(name) => Err(text::cat3("duplicate field `", &name, "`")),
            None => {
                let fields = pick(&table, names);
                assert(option_views(fields@).len() == fields@.len());
                Ok(fields)
            },
        },
        Err(reason) => match json::raw_items(value) {
            Some(items) => {
                assert(text::views(items@).len() == items@.len());
                if items.len() == names.len() || (short && items.len() < names.len()) {
                    let fields = pad(&items, names.len());
                    assert(option_views(fields@).len() == fields@.len());
                    Ok(fields)
                } else {
                    Err(text::cat("invalid length ", &text::decimal(items.len() as u64)))
                }
            },
            None => Err(reason),
        },
    }
}

/// A record is an object whose names stand once each, or a list of all its values, or of the first of them where that is
/// allowed.
pub proof fn lemma_record_read(value: Seq<char>, names: Seq<Seq<char>>, short: bool, map: Map<Seq<char>, Seq<char>>, items: Seq<Seq<char>>, at: int)
    ensures
        raw_map(value) == Ok::<Map<Seq<char>, Seq<char>>, Seq<char>>(map) ==> {
            &&& 0 <= at < names.len() && repeats(value, names[at]) ==> record_of(value, names, short) is Err
            &&& record_of(value, names, short) matches Ok(found) ==> found.len() == names.len() && (0 <= at
                < names.len() ==> found[at] == if map.dom().contains(names[at]) {
                Some(map[names[at]])
            } else {
                None
            })
            &&& (forall|i: int| 0 <= i < names.len() ==> !repeats(value, #[trigger] names[i])) ==> record_of(
                value,
                names,
                short,
            ) is Ok
        },
        raw_map(value) is Err && raw_list(value) == Some(items) ==> {
            &&& items.len() > names.len() ==> record_of(value, names, short) is Err
            &&& items.len() < names.len() && !short ==> record_of(value, names, short) is Err
            &&& record_of(value, names, short) matches Ok(found) ==> found.len() == names.len() && (0 <= at
                < names.len() ==> found[at] == if at < items.len() {
                Some(items[at])
            } else {
                None
            })
            &&& items.len() == names.len() ==> record_of(value, names, short) is Ok
            &&& items.len() < names.len() && short ==> record_of(value, names, short) is Ok
        },
        raw_map(value) is Err && raw_list(value) is None ==> record_of(value, names, short) is Err,
{
    lemma_repeated_from(value, names, 0, at);
    if names.len() > 0 {
        lemma_repeated_from(value, names, 0, 0);
    }
}

proof fn lemma_repeated_from(value: Seq<char>, names: Seq<Seq<char>>, from: int, at: int)
    requires
        0 <= from <= names.len(),
    ensures
        from <= at < names.len() && repeats(value, names[at]) ==> repeated_from(value, names, from) is Some,
        (forall|i: int| from <= i < names.len() ==> !repeats(value, #[trigger] names[i])) ==> repeated_from(
            value,
            names,
            from,
        ) is None,
    decreases names.len() - from,
{
    if from < names.len() {
        lemma_repeated_from(value, names, from + 1, at);
        assert(names[from] == names[from]);
    }
}

/// How the pieces of a document are found: inside quotes nothing parts them, and only what stands in the outermost
/// object or list does.
pub proof fn lemma_pieces_found(value: Seq<char>, at: int, depth: int, from: int)
    requires
        0 <= from <= at < value.len(),
    ensures
        value[at] == '"' ==> pieces_from(value, at, depth, false, false, from) == pieces_from(
            value,
            at + 1,
            depth,
            true,
            false,
            from,
        ),
        value[at] == '"' ==> pieces_from(value, at, depth, true, false, from) == pieces_from(
            value,
            at + 1,
            depth,
            false,
            false,
            from,
        ),
        pieces_from(value, at, depth, true, true, from) == pieces_from(value, at + 1, depth, true, false, from),
        value[at] == '\\' ==> pieces_from(value, at, depth, true, false, from) == pieces_from(
            value,
            at + 1,
            depth,
            true,
            true,
            from,
        ),
        (value[at] == ':' || value[at] == ',') && depth == 1 ==> pieces_from(value, at, depth, false, false, from)
            == seq![PieceView { end: value[at], text: text::trim_of(value.subrange(from, at)) }] + pieces_from(
            value,
            at + 1,
            1,
            false,
            false,
            at + 1,
        ),
        (value[at] == ':' || value[at] == ',') && depth != 1 ==> pieces_from(value, at, depth, false, false, from)
            == pieces_from(value, at + 1, depth, false, false, from),
        (value[at] == '{' || value[at] == '[') && depth == 0 ==> pieces_from(value, at, depth, false, false, from)
            == pieces_from(value, at + 1, 1, false, false, at + 1),
        (value[at] == '{' || value[at] == '[') && depth > 0 ==> pieces_from(value, at, depth, false, false, from)
            == pieces_from(value, at + 1, depth + 1, false, false, from),
        (value[at] == '}' || value[at] == ']') && depth > 1 ==> pieces_from(value, at, depth, false, false, from)
            == pieces_from(value, at + 1, depth - 1, false, false, from),
        value[at] == '}' && depth == 1 ==> pieces_from(value, at, depth, false, false, from) == seq![
            PieceView { end: '}', text: text::trim_of(value.subrange(from, at)) },
        ],
{
}

/// A name stands as often as a piece is it in front of a colon; it is repeated where it stands more than once.
pub proof fn lemma_names_counted(pieces: Seq<PieceView>, name: Seq<char>, count: int, value: Seq<char>)
    requires
        0 < count <= pieces.len(),
    ensures
        pieces[count - 1].end == ':' && parsed_json(pieces[count - 1].text) == Some(Doc::Text(name)) ==> times(
            pieces,
            name,
            count,
        ) == times(pieces, name, count - 1) + 1,
        pieces[count - 1].end != ':' ==> times(pieces, name, count) == times(pieces, name, count - 1),
        parsed_json(pieces[count - 1].text) != Some(Doc::Text(name)) ==> times(pieces, name, count) == times(
            pieces,
            name,
            count - 1,
        ),
        times(pieces, name, 0) == 0,
        repeats(value, name) <==> times(pieces_of(value), name, pieces_of(value).len() as int) > 1,
{
}

} // verus!
