//! Hyprland's monitors: reading their state, and writing the Lua that sets it.

use crate::numeral::{
    decimal, i32_value, push_decimal, push_signed_decimal, signed_decimal,
    signed_decimal_reads_back,
};
use crate::reading::{
    after, lacks, lemma_after, lemma_mode_reads_back, lemma_number_lacks, lemma_place_reads_back,
    lemma_split_once, read_mode, read_place, split_once,
};
use crate::text::{chars_of, copy_text, joined, same_text, trim_trailing, without_trailing};
use vstd::prelude::*;

verus! {

// ---------------------------------------------------------------------------
// The JSON that describes the monitors
// ---------------------------------------------------------------------------

/// A field of a JSON object, by what its value can be read as: text, a signed or
/// an unsigned integer, and a number, written with six decimals and in the
/// shortest form that gives it back.
#[derive(Debug)]
pub struct JsonField {
    pub key: String,
    pub text: Option<String>,
    pub signed: Option<i64>,
    pub unsigned: Option<u64>,
    pub six_decimals: Option<String>,
    pub shortest: Option<String>,
}

/// What a [`JsonField`] stands for.
#[verifier::ext_equal]
pub ghost struct JsonFieldView {
    pub key: Seq<char>,
    pub text: Option<Seq<char>>,
    pub signed: Option<i64>,
    pub unsigned: Option<u64>,
    pub six_decimals: Option<Seq<char>>,
    pub shortest: Option<Seq<char>>,
}

/// The text that an optional string holds.
pub open spec fn optional_text(s: Option<String>) -> Option<Seq<char>> {
    match s {
        Some(s) => Some(s@),
        None => None,
    }
}

impl View for JsonField {
    type V = JsonFieldView;

    open spec fn view(&self) -> JsonFieldView {
        JsonFieldView {
            key: self.key@,
            text: optional_text(self.text),
            signed: self.signed,
            unsigned: self.unsigned,
            six_decimals: optional_text(self.six_decimals),
            shortest: optional_text(self.shortest),
        }
    }
}

/// What the fields of an object stand for.
pub open spec fn field_views(fields: Seq<JsonField>) -> Seq<JsonFieldView> {
    fields.map_values(|f: JsonField| f@)
}

/// What a JSON document stands for: the fields of each item of the array that it
/// is, or nothing where it is no array.
pub open spec fn document_view(document: Option<Vec<Vec<JsonField>>>) -> Option<
    Seq<Seq<JsonFieldView>>,
> {
    match document {
        Some(items) => Some(items@.map_values(|fields: Vec<JsonField>| field_views(fields@))),
        None => None,
    }
}

/// An error of the JSON parser.
#[verifier::external_type_specification]
#[verifier::external_body]
pub struct ExJsonError(serde_json::Error);

/// The document that `serde_json::from_str` reads out of a text, if it reads one.
pub uninterp spec fn json_document(text: Seq<char>) -> Option<Option<Seq<Seq<JsonFieldView>>>>;

/// `serde_json::from_str` parses a text as a JSON value. Whether it does, and
/// what the value holds, depends on the text alone. Of the value this keeps the
/// items where it is an array, and of an item its fields where it is an object.
#[verifier::external_body]
fn parse_json(text: &str) -> (r: Result<Option<Vec<Vec<JsonField>>>, serde_json::Error>)
    ensures
        match r {
            Ok(document) => json_document(text@) == Some(document_view(document)),
            Err(_) => json_document(text@) is None,
        },
{
    let value: serde_json::Value = serde_json::from_str(text)?;
    Ok(value.as_array().map(|items| items.iter().map(|item| {
        item.as_object().into_iter().flatten().map(|(key, v)| JsonField {
            key: key.clone(),
            text: v.as_str().map(str::to_string),
            signed: v.as_i64(),
            unsigned: v.as_u64(),
            six_decimals: v.as_f64().map(|f| format!("{:.6}", f)),
            shortest: v.as_f64().map(|f| format!("{}", f)),
        }).collect()
    }).collect()))
}

// ---------------------------------------------------------------------------
// Monitor state
// ---------------------------------------------------------------------------

/// One monitor as Hyprland has it set. The refresh rate is written with six
/// decimals, the scale in its shortest form.
#[derive(Debug, Clone)]
pub struct MonitorState {
    pub name: String,
    pub x: i32,
    pub y: i32,
    pub width: u32,
    pub height: u32,
    pub refresh_rate: String,
    pub scale: String,
    pub transform: i32,
}

/// What a [`MonitorState`] stands for.
#[verifier::ext_equal]
pub ghost struct MonitorView {
    pub name: Seq<char>,
    pub x: i32,
    pub y: i32,
    pub width: u32,
    pub height: u32,
    pub refresh_rate: Seq<char>,
    pub scale: Seq<char>,
    pub transform: i32,
}

impl View for MonitorState {
    type V = MonitorView;

    open spec fn view(&self) -> MonitorView {
        MonitorView {
            name: self.name@,
            x: self.x,
            y: self.y,
            width: self.width,
            height: self.height,
            refresh_rate: self.refresh_rate@,
            scale: self.scale@,
            transform: self.transform,
        }
    }
}

/// What a list of monitors stands for.
pub open spec fn monitor_views(states: Seq<MonitorState>) -> Seq<MonitorView> {
    states.map_values(|m: MonitorState| m@)
}

/// What is wrong with a document that is to describe monitors.
#[derive(Debug, Clone, Copy, PartialEq, Eq, Structural)]
pub enum MonitorDefect {
    NotAnArray,
    NoName,
    NoX,
    NoY,
    NoWidth,
    NoHeight,
    NoRefreshRate,
    NoScale,
    NoTransform,
    XOutOfRange,
    YOutOfRange,
    WidthOutOfRange,
    HeightOutOfRange,
    TransformOutOfRange,
}

impl MonitorDefect {
    /// The text that tells a person what went wrong.
    pub open spec fn message(self) -> Seq<char> {
        match self {
            MonitorDefect::NotAnArray => "Hyprland monitor JSON is not an array"@,
            MonitorDefect::NoName => "Hyprland monitor has no name"@,
            MonitorDefect::NoX => "Hyprland monitor has no x position"@,
            MonitorDefect::NoY => "Hyprland monitor has no y position"@,
            MonitorDefect::NoWidth => "Hyprland monitor has no width"@,
            MonitorDefect::NoHeight => "Hyprland monitor has no height"@,
            MonitorDefect::NoRefreshRate => "Hyprland monitor has no refresh rate"@,
            MonitorDefect::NoScale => "Hyprland monitor has no scale"@,
            MonitorDefect::NoTransform => "Hyprland monitor has no transform"@,
            MonitorDefect::XOutOfRange => "Hyprland monitor x position is out of range: out of range integral type conversion attempted"@,
            MonitorDefect::YOutOfRange => "Hyprland monitor y position is out of range: out of range integral type conversion attempted"@,
            MonitorDefect::WidthOutOfRange => "Hyprland monitor width is out of range: out of range integral type conversion attempted"@,
            MonitorDefect::HeightOutOfRange => "Hyprland monitor height is out of range: out of range integral type conversion attempted"@,
            MonitorDefect::TransformOutOfRange => "Hyprland monitor transform is out of range: out of range integral type conversion attempted"@,
        }
    }

    pub fn to_string(&self) -> (r: String)
        ensures
            r@ == self.message(),
    {
        copy_text(
            match *self {
                MonitorDefect::NotAnArray => "Hyprland monitor JSON is not an array",
                MonitorDefect::NoName => "Hyprland monitor has no name",
                MonitorDefect::NoX => "Hyprland monitor has no x position",
                MonitorDefect::NoY => "Hyprland monitor has no y position",
                MonitorDefect::NoWidth => "Hyprland monitor has no width",
                MonitorDefect::NoHeight => "Hyprland monitor has no height",
                MonitorDefect::NoRefreshRate => "Hyprland monitor has no refresh rate",
                MonitorDefect::NoScale => "Hyprland monitor has no scale",
                MonitorDefect::NoTransform => "Hyprland monitor has no transform",
                MonitorDefect::XOutOfRange => "Hyprland monitor x position is out of range: out of range integral type conversion attempted",
                MonitorDefect::YOutOfRange => "Hyprland monitor y position is out of range: out of range integral type conversion attempted",
                MonitorDefect::WidthOutOfRange => "Hyprland monitor width is out of range: out of range integral type conversion attempted",
                MonitorDefect::HeightOutOfRange => "Hyprland monitor height is out of range: out of range integral type conversion attempted",
                MonitorDefect::TransformOutOfRange => "Hyprland monitor transform is out of range: out of range integral type conversion attempted",
            },
        )
    }
}

/// Why the monitors could not be read.
#[derive(Debug)]
pub enum MonitorError {
    /// The text is no JSON.
    NotJson(serde_json::Error),
    Defect(MonitorDefect),
}

/// The field of an object with this key.
pub open spec fn field_of(fields: Seq<JsonFieldView>, key: Seq<char>) -> Option<JsonFieldView>
    decreases fields.len(),
{
    if fields.len() == 0 {
        None
    } else if fields[0].key == key {
        Some(fields[0])
    } else {
        field_of(fields.skip(1), key)
    }
}

pub open spec fn text_of(fields: Seq<JsonFieldView>, key: Seq<char>) -> Option<Seq<char>> {
    match field_of(fields, key) {
        Some(f) => f.text,
        None => None,
    }
}

pub open spec fn signed_of(fields: Seq<JsonFieldView>, key: Seq<char>) -> Option<i64> {
    match field_of(fields, key) {
        Some(f) => f.signed,
        None => None,
    }
}

pub open spec fn unsigned_of(fields: Seq<JsonFieldView>, key: Seq<char>) -> Option<u64> {
    match field_of(fields, key) {
        Some(f) => f.unsigned,
        None => None,
    }
}

pub open spec fn six_decimals_of(fields: Seq<JsonFieldView>, key: Seq<char>) -> Option<Seq<char>> {
    match field_of(fields, key) {
        Some(f) => f.six_decimals,
        None => None,
    }
}

pub open spec fn shortest_of(fields: Seq<JsonFieldView>, key: Seq<char>) -> Option<Seq<char>> {
    match field_of(fields, key) {
        Some(f) => f.shortest,
        None => None,
    }
}

/// Whether a value has a place in an `i32`.
pub open spec fn fits_i32(n: i64) -> bool {
    i32::MIN <= n <= i32::MAX
}

/// The monitor that the fields of an object describe. A field that is missing or
/// of another type is reported ahead of any value that is out of range, and
/// among its like in the order of the fields.
pub open spec fn monitor_of(fields: Seq<JsonFieldView>) -> Result<MonitorView, MonitorDefect> {
    match (
        text_of(fields, "name"@),
        signed_of(fields, "x"@),
        signed_of(fields, "y"@),
        unsigned_of(fields, "width"@),
        unsigned_of(fields, "height"@),
        six_decimals_of(fields, "refreshRate"@),
        shortest_of(fields, "scale"@),
        signed_of(fields, "transform"@),
    ) {
        (None, _, _, _, _, _, _, _) => Err(MonitorDefect::NoName),
        (_, None, _, _, _, _, _, _) => Err(MonitorDefect::NoX),
        (_, _, None, _, _, _, _, _) => Err(MonitorDefect::NoY),
        (_, _, _, None, _, _, _, _) => Err(MonitorDefect::NoWidth),
        (_, _, _, _, None, _, _, _) => Err(MonitorDefect::NoHeight),
        (_, _, _, _, _, None, _, _) => Err(MonitorDefect::NoRefreshRate),
        (_, _, _, _, _, _, None, _) => Err(MonitorDefect::NoScale),
        (_, _, _, _, _, _, _, None) => Err(MonitorDefect::NoTransform),
        (
            Some(name),
            Some(x),
            Some(y),
            Some(width),
            Some(height),
            Some(refresh_rate),
            Some(scale),
            Some(transform),
        ) => if !fits_i32(x) {
            Err(MonitorDefect::XOutOfRange)
        } else if !fits_i32(y) {
            Err(MonitorDefect::YOutOfRange)
        } else if width > u32::MAX {
            Err(MonitorDefect::WidthOutOfRange)
        } else if height > u32::MAX {
            Err(MonitorDefect::HeightOutOfRange)
        } else if !fits_i32(transform) {
            Err(MonitorDefect::TransformOutOfRange)
        } else {
            Ok(
                MonitorView {
                    name,
                    x: x as i32,
                    y: y as i32,
                    width: width as u32,
                    height: height as u32,
                    refresh_rate,
                    scale,
                    transform: transform as i32,
                },
            )
        },
    }
}

/// The monitors that items describe, or the defect of the first item with one.
pub open spec fn monitors_of(items: Seq<Seq<JsonFieldView>>) -> Result<
    Seq<MonitorView>,
    MonitorDefect,
>
    decreases items.len(),
{
    if items.len() == 0 {
        Ok(seq![])
    } else {
        match (monitors_of(items.drop_last()), monitor_of(items.last())) {
            (Err(defect), _) => Err(defect),
            (Ok(_), Err(defect)) => Err(defect),
            (Ok(monitors), Ok(monitor)) => Ok(monitors.push(monitor)),
        }
    }
}

/// The monitors that a document describes.
pub open spec fn monitors_in(document: Option<Seq<Seq<JsonFieldView>>>) -> Result<
    Seq<MonitorView>,
    MonitorDefect,
> {
    match document {
        Some(items) => monitors_of(items),
        None => Err(MonitorDefect::NotAnArray),
    }
}

fn find_field<'a>(fields: &'a Vec<JsonField>, key: &str) -> (r: Option<&'a JsonField>)
    ensures
        match r {
            Some(f) => field_of(field_views(fields@), key@) == Some(f@),
            None => field_of(field_views(fields@), key@) is None,
        },
{
    let ghost all = field_views(fields@);
    let mut i: usize = 0;
    assert(all.skip(0) =~= all);
    while i < fields.len()
        invariant
            i <= fields@.len(),
            all == field_views(fields@),
            field_of(all, key@) == field_of(all.skip(i as int), key@),
        decreases fields@.len() - i,
    {
        assert(all.skip(i as int)[0] == fields@[i as int]@);
        assert(all.skip(i as int).skip(1) =~= all.skip(i + 1));
        if same_text(fields[i].key.as_str(), key) {
            return Some(&fields[i]);
        }
        i = i + 1;
    }
    None
}

fn copy_optional(s: &Option<String>) -> (r: Option<String>)
    ensures
        optional_text(r) == optional_text(*s),
{
    match s {
        Some(s) => Some(copy_text(s.as_str())),
        None => None,
    }
}

fn text_field(fields: &Vec<JsonField>, key: &str) -> (r: Option<String>)
    ensures
        optional_text(r) == text_of(field_views(fields@), key@),
{
    match find_field(fields, key) {
        Some(f) => copy_optional(&f.text),
        None => None,
    }
}

fn signed_field(fields: &Vec<JsonField>, key: &str) -> (r: Option<i64>)
    ensures
        r == signed_of(field_views(fields@), key@),
{
    match find_field(fields, key) {
        Some(f) => f.signed,
        None => None,
    }
}

fn unsigned_field(fields: &Vec<JsonField>, key: &str) -> (r: Option<u64>)
    ensures
        r == unsigned_of(field_views(fields@), key@),
{
    match find_field(fields, key) {
        Some(f) => f.unsigned,
        None => None,
    }
}

fn six_decimals_field(fields: &Vec<JsonField>, key: &str) -> (r: Option<String>)
    ensures
        optional_text(r) == six_decimals_of(field_views(fields@), key@),
{
    match find_field(fields, key) {
        Some(f) => copy_optional(&f.six_decimals),
        None => None,
    }
}

fn shortest_field(fields: &Vec<JsonField>, key: &str) -> (r: Option<String>)
    ensures
        optional_text(r) == shortest_of(field_views(fields@), key@),
{
    match find_field(fields, key) {
        Some(f) => copy_optional(&f.shortest),
        None => None,
    }
}

fn to_i32(n: i64) -> (r: Option<i32>)
    ensures
        match r {
            Some(m) => m == n,
            None => !fits_i32(n),
        },
{
    if i32::MIN as i64 <= n && n <= i32::MAX as i64 {
        Some(n as i32)
    } else {
        None
    }
}

fn to_u32(n: u64) -> (r: Option<u32>)
    ensures
        match r {
            Some(m) => m == n,
            None => n > u32::MAX,
        },
{
    if n <= u32::MAX as u64 {
        Some(n as u32)
    } else {
        None
    }
}

/// The monitor that the fields of an object describe.
pub fn read_monitor(fields: &Vec<JsonField>) -> (r: Result<MonitorState, MonitorDefect>)
    ensures
        match r {
            Ok(m) => monitor_of(field_views(fields@)) == Ok::<_, MonitorDefect>(m@),
            Err(defect) => monitor_of(field_views(fields@)) == Err::<MonitorView, _>(defect),
        },
{
    let Some(name) = text_field(fields, "name") else {
        return Err(MonitorDefect::NoName);
    };
    let Some(x) = signed_field(fields, "x") else {
        return Err(MonitorDefect::NoX);
    };
    let Some(y) = signed_field(fields, "y") else {
        return Err(MonitorDefect::NoY);
    };
    let Some(width) = unsigned_field(fields, "width") else {
        return Err(MonitorDefect::NoWidth);
    };
    let Some(height) = unsigned_field(fields, "height") else {
        return Err(MonitorDefect::NoHeight);
    };
    let Some(refresh_rate) = six_decimals_field(fields, "refreshRate") else {
        return Err(MonitorDefect::NoRefreshRate);
    };
    let Some(scale) = shortest_field(fields, "scale") else {
        return Err(MonitorDefect::NoScale);
    };
    let Some(transform) = signed_field(fields, "transform") else {
        return Err(MonitorDefect::NoTransform);
    };
    let Some(x) = to_i32(x) else {
        return Err(MonitorDefect::XOutOfRange);
    };
    let Some(y) = to_i32(y) else {
        return Err(MonitorDefect::YOutOfRange);
    };
    let Some(width) = to_u32(width) else {
        return Err(MonitorDefect::WidthOutOfRange);
    };
    let Some(height) = to_u32(height) else {
        return Err(MonitorDefect::HeightOutOfRange);
    };
    let Some(transform) = to_i32(transform) else {
        return Err(MonitorDefect::TransformOutOfRange);
    };
    Ok(MonitorState { name, x, y, width, height, refresh_rate, scale, transform })
}

/// The monitors that a document describes.
pub fn read_monitors(document: &Option<Vec<Vec<JsonField>>>) -> (r: Result<
    Vec<MonitorState>,
    MonitorDefect,
>)
    ensures
        match r {
            Ok(states) => monitors_in(document_view(*document)) == Ok::<_, MonitorDefect>(
                monitor_views(states@),
            ),
            Err(defect) => monitors_in(document_view(*document)) == Err::<Seq<MonitorView>, _>(
                defect,
            ),
        },
{
    let Some(items) = document else {
        return Err(MonitorDefect::NotAnArray);
    };
    let ghost all = items@.map_values(|fields: Vec<JsonField>| field_views(fields@));
    let mut states: Vec<MonitorState> = Vec::new();
    let mut i: usize = 0;
    assert(monitor_views(states@) =~= seq![]);
    while i < items.len()
        invariant
            i <= items@.len(),
            all == items@.map_values(|fields: Vec<JsonField>| field_views(fields@)),
            document_view(*document) == Some(all),
            monitors_of(all.take(i as int)) == Ok::<_, MonitorDefect>(monitor_views(states@)),
        decreases items@.len() - i,
    {
        assert(all.take(i + 1).drop_last() =~= all.take(i as int));
        assert(all.take(i + 1).last() == field_views(items@[i as int]@));
        match read_monitor(&items[i]) {
            Ok(state) => {
                let ghost before = states@;
                states.push(state);
                assert(monitor_views(states@) =~= monitor_views(before).push(state@));
            },
            Err(defect) => {
                proof {
                    lemma_defect_stays(all, i + 1, defect);
                }
                return Err(defect);
            },
        }
        i = i + 1;
    }
    assert(all.take(i as int) =~= all);
    Ok(states)
}

proof fn lemma_defect_stays(items: Seq<Seq<JsonFieldView>>, n: int, defect: MonitorDefect)
    requires
        0 <= n <= items.len(),
        monitors_of(items.take(n)) == Err::<Seq<MonitorView>, _>(defect),
    ensures
        monitors_of(items) == Err::<Seq<MonitorView>, _>(defect),
    decreases items.len() - n,
{
    if n < items.len() {
        assert(items.take(n + 1).drop_last() =~= items.take(n));
        lemma_defect_stays(items, n + 1, defect);
    } else {
        assert(items.take(n) =~= items);
    }
}

/// The state of all monitors, read from what Hyprland says of them.
pub fn hyprland_monitor_state(json: &str) -> (r: Result<Vec<MonitorState>, MonitorError>)
    ensures
        match (json_document(json@), r) {
            (None, Err(MonitorError::NotJson(_))) => true,
            (Some(document), Ok(states)) => monitors_in(document) == Ok::<_, MonitorDefect>(
                monitor_views(states@),
            ),
            (Some(document), Err(MonitorError::Defect(defect))) => monitors_in(document) == Err::<
                Seq<MonitorView>,
                _,
            >(defect),
            _ => false,
        },
{
    match parse_json(json) {
        Ok(document) => match read_monitors(&document) {
            Ok(states) => Ok(states),
            Err(defect) => Err(MonitorError::Defect(defect)),
        },
        Err(e) => Err(MonitorError::NotJson(e)),
    }
}

// ---------------------------------------------------------------------------
// Lua
// ---------------------------------------------------------------------------

/// How a character is written inside a Lua string.
pub open spec fn lua_char(c: char) -> Seq<char> {
    if c == '\\' {
        seq!['\\', '\\']
    } else if c == '"' {
        seq!['\\', '"']
    } else if c == '\n' {
        seq!['\\', 'n']
    } else if c == '\r' {
        seq!['\\', 'r']
    } else if c == '\t' {
        seq!['\\', 't']
    } else {
        seq![c]
    }
}

/// How a text is written inside a Lua string.
pub open spec fn lua_chars(s: Seq<char>) -> Seq<char>
    decreases s.len(),
{
    if s.len() == 0 {
        seq![]
    } else {
        lua_chars(s.drop_last()) + lua_char(s.last())
    }
}

/// A text as a Lua string literal.
pub open spec fn lua_literal(s: Seq<char>) -> Seq<char> {
    seq!['"'] + lua_chars(s) + seq!['"']
}

fn push_lua_char(out: &mut String, c: char)
    ensures
        final(out)@ == old(out)@ + lua_char(c),
{
    let ghost before = out@;
    if c == '\\' {
        out.push('\\');
        out.push('\\');
    } else if c == '"' {
        out.push('\\');
        out.push('"');
    } else if c == '\n' {
        out.push('\\');
        out.push('n');
    } else if c == '\r' {
        out.push('\\');
        out.push('r');
    } else if c == '\t' {
        out.push('\\');
        out.push('t');
    } else {
        out.push(c);
    }
    assert(out@ =~= before + lua_char(c));
}

/// A text as a Lua string literal.
pub fn lua_string(value: &str) -> (r: String)
    ensures
        r@ == lua_literal(value@),
{
    let chars = chars_of(value);
    let mut escaped = String::new();
    escaped.push('"');
    let mut i: usize = 0;
    assert(escaped@ =~= seq!['"'] + lua_chars(chars@.take(0)));
    while i < chars.len()
        invariant
            i <= chars@.len(),
            escaped@ == seq!['"'] + lua_chars(chars@.take(i as int)),
        decreases chars@.len() - i,
    {
        assert(chars@.take(i + 1).drop_last() =~= chars@.take(i as int));
        push_lua_char(&mut escaped, chars[i]);
        i = i + 1;
        assert(escaped@ =~= seq!['"'] + lua_chars(chars@.take(i as int)));
    }
    assert(chars@.take(i as int) =~= chars@);
    escaped.push('"');
    assert(escaped@ =~= lua_literal(value@));
    escaped
}

/// The character that Lua reads for one that follows a backslash.
pub open spec fn lua_unescaped(c: char) -> char {
    if c == 'n' {
        '\n'
    } else if c == 'r' {
        '\r'
    } else if c == 't' {
        '\t'
    } else {
        c
    }
}

/// What Lua reads up to the quote that closes a string, and what follows it.
pub open spec fn read_lua_chars(t: Seq<char>) -> Option<(Seq<char>, Seq<char>)>
    decreases t.len(),
{
    if t.len() == 0 {
        None
    } else if t[0] == '"' {
        Some((seq![], t.skip(1)))
    } else if t[0] == '\\' {
        if t.len() < 2 {
            None
        } else {
            match read_lua_chars(t.skip(2)) {
                Some((s, rest)) => Some((seq![lua_unescaped(t[1])] + s, rest)),
                None => None,
            }
        }
    } else {
        match read_lua_chars(t.skip(1)) {
            Some((s, rest)) => Some((seq![t[0]] + s, rest)),
            None => None,
        }
    }
}

/// The text that Lua reads from a string literal, and what follows the literal.
pub open spec fn read_lua_literal(t: Seq<char>) -> Option<(Seq<char>, Seq<char>)> {
    if t.len() > 0 && t[0] == '"' {
        read_lua_chars(t.skip(1))
    } else {
        None
    }
}

proof fn lemma_lua_chars_append(a: Seq<char>, b: Seq<char>)
    ensures
        lua_chars(a + b) == lua_chars(a) + lua_chars(b),
    decreases b.len(),
{
    if b.len() == 0 {
        assert(a + b =~= a);
        assert(lua_chars(a) + lua_chars(b) =~= lua_chars(a));
    } else {
        lemma_lua_chars_append(a, b.drop_last());
        assert((a + b).drop_last() =~= a + b.drop_last());
        assert(lua_chars(a + b) =~= lua_chars(a) + lua_chars(b));
    }
}

proof fn lemma_lua_chars_read_back(s: Seq<char>, rest: Seq<char>)
    ensures
        read_lua_chars(lua_chars(s) + seq!['"'] + rest) == Some((s, rest)),
    decreases s.len(),
{
    let t = lua_chars(s) + seq!['"'] + rest;
    if s.len() == 0 {
        assert(t.skip(1) =~= rest);
        assert(s =~= seq![]);
    } else {
        let first = seq![s[0]];
        let others = s.skip(1);
        lemma_lua_chars_append(first, others);
        assert(first + others =~= s);
        lemma_lua_chars_read_back(others, rest);
        assert(first.drop_last() =~= seq![]);
        assert(lua_chars(first) =~= lua_char(s[0])) by {
            reveal_with_fuel(lua_chars, 2);
        }
        let tail = lua_chars(others) + seq!['"'] + rest;
        let n = lua_char(s[0]).len() as int;
        assert(t =~= lua_char(s[0]) + tail);
        assert(t.skip(n) =~= tail);
        assert(n == 2 ==> lua_unescaped(t[1]) == s[0]);
        assert(first + others =~= s);
    }
}

/// Lua reads a literal back as the text that was written, whatever that text
/// holds, and goes on right after the literal.
pub proof fn lua_literal_reads_back(s: Seq<char>, rest: Seq<char>)
    ensures
        read_lua_literal(lua_literal(s) + rest) == Some((s, rest)),
{
    let t = lua_literal(s) + rest;
    lemma_lua_chars_read_back(s, rest);
    assert(t.skip(1) =~= lua_chars(s) + seq!['"'] + rest);
}

// ---------------------------------------------------------------------------
// Restoring the monitors
// ---------------------------------------------------------------------------

/// A number with six decimals, without the zeros that end it and without a point
/// that would end it.
pub open spec fn shortened(six_decimals: Seq<char>) -> Seq<char> {
    without_trailing(without_trailing(six_decimals, '0'), '.')
}

/// The Lua rule that sets a monitor to its state.
pub open spec fn monitor_rule(m: MonitorView) -> Seq<char> {
    "hl.monitor({ output = "@ + lua_literal(m.name) + ", mode = \""@ + decimal(m.width as nat)
        + "x"@ + decimal(m.height as nat) + "@"@ + shortened(m.refresh_rate) + "\", position = \""@
        + signed_decimal(m.x as int) + "x"@ + signed_decimal(m.y as int) + "\", scale = "@ + m.scale
        + ", transform = "@ + signed_decimal(m.transform as int) + " })"@
}

fn monitor_rule_of(m: &MonitorState) -> (r: String)
    ensures
        r@ == monitor_rule(m@),
{
    let mut r = copy_text("hl.monitor({ output = ");
    r.append(lua_string(m.name.as_str()).as_str());
    r.append(", mode = \"");
    push_decimal(&mut r, m.width as u64);
    r.append("x");
    push_decimal(&mut r, m.height as u64);
    r.append("@");
    let refresh = trim_trailing(trim_trailing(m.refresh_rate.as_str(), '0').as_str(), '.');
    r.append(refresh.as_str());
    r.append("\", position = \"");
    push_signed_decimal(&mut r, m.x as i64);
    r.append("x");
    push_signed_decimal(&mut r, m.y as i64);
    r.append("\", scale = ");
    r.append(m.scale.as_str());
    r.append(", transform = ");
    push_signed_decimal(&mut r, m.transform as i64);
    r.append(" })");
    r
}

/// The rules of all monitors but the excluded one, in order.
pub open spec fn rules_but(states: Seq<MonitorView>, excluded: Seq<char>) -> Seq<Seq<char>>
    decreases states.len(),
{
    if states.len() == 0 {
        seq![]
    } else if states.last().name == excluded {
        rules_but(states.drop_last(), excluded)
    } else {
        rules_but(states.drop_last(), excluded).push(monitor_rule(states.last()))
    }
}

/// The Lua that sets every monitor but the excluded one to its state.
pub open spec fn restore_script(states: Seq<MonitorView>, excluded: Seq<char>) -> Seq<char> {
    joined(rules_but(states, excluded), "; "@)
}

pub fn restore_hyprland_monitor_state(states: &Vec<MonitorState>, excluded_output: &str) -> (r:
    String)
    ensures
        r@ == restore_script(monitor_views(states@), excluded_output@),
{
    let ghost all = monitor_views(states@);
    let mut lua = String::new();
    let mut first = true;
    let mut i: usize = 0;
    assert(lua@ =~= joined(seq![], "; "@));
    while i < states.len()
        invariant
            i <= states@.len(),
            all == monitor_views(states@),
            lua@ == joined(rules_but(all.take(i as int), excluded_output@), "; "@),
            first == (rules_but(all.take(i as int), excluded_output@).len() == 0),
        decreases states@.len() - i,
    {
        let ghost rules = rules_but(all.take(i as int), excluded_output@);
        assert(all.take(i + 1).drop_last() =~= all.take(i as int));
        assert(all.take(i + 1).last() == states@[i as int]@);
        if !same_text(states[i].name.as_str(), excluded_output) {
            let rule = monitor_rule_of(&states[i]);
            assert(rules.push(rule@).drop_last() =~= rules);
            if first {
                assert(lua@ + rule@ =~= rule@);
            } else {
                lua.append("; ");
            }
            lua.append(rule.as_str());
            first = false;
        }
        i = i + 1;
    }
    assert(all.take(i as int) =~= all);
    lua
}

/// Every monitor is set back but the excluded one: each other has its rule, in
/// the order of the monitors, and there are no further rules.
pub proof fn every_other_monitor_is_restored(states: Seq<MonitorView>, excluded: Seq<char>)
    ensures
        rules_but(states, excluded) == states.filter(|m: MonitorView| m.name != excluded).map_values(
            |m: MonitorView| monitor_rule(m),
        ),
    decreases states.len(),
{
    let others = |m: MonitorView| m.name != excluded;
    let rule = |m: MonitorView| monitor_rule(m);
    reveal(Seq::filter);
    if states.len() > 0 {
        every_other_monitor_is_restored(states.drop_last(), excluded);
        let kept = states.drop_last().filter(others);
        if others(states.last()) {
            assert(kept.push(states.last()).map_values(rule) =~= kept.map_values(rule).push(
                rule(states.last()),
            ));
        }
    } else {
        assert(states.filter(others).map_values(rule) =~= seq![]);
    }
}

/// Whether some monitor has this name.
pub open spec fn has_monitor(states: Seq<MonitorView>, name: Seq<char>) -> bool {
    exists|i: int| 0 <= i < states.len() && #[trigger] states[i].name == name
}

pub fn monitor_exists(states: &Vec<MonitorState>, name: &str) -> (r: bool)
    ensures
        r == has_monitor(monitor_views(states@), name@),
{
    let mut i: usize = 0;
    while i < states.len()
        invariant
            i <= states@.len(),
            forall|j: int| 0 <= j < i ==> #[trigger] monitor_views(states@)[j].name != name@,
        decreases states@.len() - i,
    {
        if same_text(states[i].name.as_str(), name) {
            assert(monitor_views(states@)[i as int].name == name@);
            return true;
        }
        i = i + 1;
    }
    false
}

/// The shortened form of a number that is written as a whole part, a point and
/// decimals: the whole part alone where all decimals are zero, and no zero at
/// the end otherwise.
pub proof fn shortened_keeps_the_number(whole: Seq<char>, decimals: Seq<char>)
    requires
        forall|i: int| 0 <= i < decimals.len() ==> #[trigger] decimals[i] != '.',
        whole.len() > 0 && whole.last() != '.',
    ensures
        shortened(whole + seq!['.'] + decimals) == ({
            let kept = without_trailing(decimals, '0');
            if kept.len() == 0 {
                whole
            } else {
                whole + seq!['.'] + kept
            }
        }),
    decreases decimals.len(),
{
    let s = whole + seq!['.'] + decimals;
    if decimals.len() == 0 {
        assert(s.last() == '.');
        assert(s.drop_last() =~= whole);
        reveal_with_fuel(without_trailing, 2);
    } else {
        assert(s.drop_last() =~= whole + seq!['.'] + decimals.drop_last());
        assert(s.last() == decimals.last());
        if decimals.last() == '0' {
            shortened_keeps_the_number(whole, decimals.drop_last());
        }
    }
}

// ---------------------------------------------------------------------------
// What the rules say
// ---------------------------------------------------------------------------

/// What a rule tells Hyprland of where an output is and in which mode, up to its
/// position: the output's name, its size, its refresh rate and its position.
pub ghost struct RuleHead {
    pub name: Seq<char>,
    pub size: (int, int),
    pub rate: Seq<char>,
    pub place: (int, int),
}

/// The head of a rule, and what follows it.
#[verifier::opaque]
pub open spec fn read_rule_head(t: Seq<char>) -> Option<(RuleHead, Seq<char>)> {
    match after(t, "hl.monitor({ output = "@) {
        None => None,
        Some(t) => match read_lua_literal(t) {
            None => None,
            Some((name, t)) => match after(t, ", mode = "@) {
                None => None,
                Some(t) => match read_lua_literal(t) {
                    None => None,
                    Some((mode, t)) => match after(t, ", position = "@) {
                        None => None,
                        Some(t) => match read_lua_literal(t) {
                            None => None,
                            Some((place, t)) => match (read_mode(mode), read_place(place, 'x')) {
                                (Some((size, rate)), Some(place)) => Some(
                                    (RuleHead { name, size, rate, place }, t),
                                ),
                                _ => None,
                            },
                        },
                    },
                },
            },
        },
    }
}

/// What a whole rule tells Hyprland of an output.
pub ghost struct Rule {
    pub head: RuleHead,
    pub scale: Seq<char>,
    pub transform: int,
}

/// The rule that a text begins with, and what follows it.
#[verifier::opaque]
pub open spec fn read_rule(t: Seq<char>) -> Option<(Rule, Seq<char>)> {
    match read_rule_head(t) {
        None => None,
        Some((head, t)) => match after(t, ", scale = "@) {
            None => None,
            Some(t) => match split_once(t, ',') {
                None => None,
                Some((scale, t)) => match after(t, " transform = "@) {
                    None => None,
                    Some(t) => match split_once(t, ' ') {
                        None => None,
                        Some((transform, t)) => match (i32_value(transform), after(t, "})"@)) {
                            (Some(transform), Some(t)) => Some((Rule { head, scale, transform }, t)),
                            _ => None,
                        },
                    },
                },
            },
        },
    }
}

/// The rules that a script is made of, with `; ` between each two.
pub open spec fn read_rules(t: Seq<char>) -> Option<Seq<Rule>>
    decreases t.len(),
{
    if t.len() == 0 {
        Some(seq![])
    } else {
        match read_rule(t) {
            None => None,
            Some((rule, rest)) => if rest.len() == 0 {
                Some(seq![rule])
            } else {
                match after(rest, "; "@) {
                    Some(rest) if 0 < rest.len() < t.len() => match read_rules(rest) {
                        Some(rules) => Some(seq![rule] + rules),
                        None => None,
                    },
                    _ => None,
                }
            },
        }
    }
}

/// What is to be told of a monitor so that it is as it was.
pub open spec fn as_it_was(m: MonitorView) -> Rule {
    Rule {
        head: RuleHead {
            name: m.name,
            size: (m.width as int, m.height as int),
            rate: shortened(m.refresh_rate),
            place: (m.x as int, m.y as int),
        },
        scale: m.scale,
        transform: m.transform as int,
    }
}

/// Whether the refresh rate and the scale of a monitor are written as numbers are:
/// without quotes, backslashes and commas.
pub open spec fn has_plain_numbers(m: MonitorView) -> bool {
    &&& lacks(m.refresh_rate, '"')
    &&& lacks(m.refresh_rate, '\\')
    &&& lacks(m.scale, ',')
}

/// A text without quotes and backslashes reads as itself up to a quote.
proof fn lemma_plain_chars(s: Seq<char>, rest: Seq<char>)
    requires
        lacks(s, '"'),
        lacks(s, '\\'),
    ensures
        read_lua_chars(s + seq!['"'] + rest) == Some((s, rest)),
    decreases s.len(),
{
    let t = s + seq!['"'] + rest;
    if s.len() == 0 {
        assert(t.skip(1) =~= rest);
        assert(s =~= seq![]);
    } else {
        assert(t[0] == s[0]);
        lemma_plain_chars(s.skip(1), rest);
        assert(t.skip(1) =~= s.skip(1) + seq!['"'] + rest);
        assert(seq![s[0]] + s.skip(1) =~= s);
    }
}

/// A text without quotes and backslashes, in quotes, reads as itself.
proof fn lemma_plain_literal(s: Seq<char>, rest: Seq<char>)
    requires
        lacks(s, '"'),
        lacks(s, '\\'),
    ensures
        read_lua_literal(seq!['"'] + s + seq!['"'] + rest) == Some((s, rest)),
{
    lemma_plain_chars(s, rest);
    assert((seq!['"'] + s + seq!['"'] + rest).skip(1) =~= s + seq!['"'] + rest);
}

/// How the head of a rule is written.
pub open spec fn rule_head(
    name: Seq<char>,
    width: u32,
    height: u32,
    rate: Seq<char>,
    x: i32,
    y: i32,
) -> Seq<char> {
    "hl.monitor({ output = "@ + lua_literal(name) + ", mode = \""@ + decimal(width as nat) + "x"@
        + decimal(height as nat) + "@"@ + rate + "\", position = \""@ + signed_decimal(x as int)
        + "x"@ + signed_decimal(y as int) + "\""@
}

/// The head of a rule reads back.
pub proof fn lemma_rule_head_reads_back(
    name: Seq<char>,
    width: u32,
    height: u32,
    rate: Seq<char>,
    x: i32,
    y: i32,
    rest: Seq<char>,
)
    requires
        lacks(rate, '"'),
        lacks(rate, '\\'),
    ensures
        read_rule_head(rule_head(name, width, height, rate, x, y) + rest) == Some(
            (
                RuleHead {
                    name,
                    size: (width as int, height as int),
                    rate,
                    place: (x as int, y as int),
                },
                rest,
            ),
        ),
{
    reveal_strlit("x");
    reveal_strlit("@");
    reveal_strlit("\"");
    reveal_strlit(", mode = \"");
    reveal_strlit(", mode = ");
    reveal_strlit("\", position = \"");
    reveal_strlit(", position = ");
    reveal(read_rule_head);
    let w = decimal(width as nat);
    let h = decimal(height as nat);
    let mode = w + seq!['x'] + h + seq!['@'] + rate;
    let place = signed_decimal(x as int) + seq!['x'] + signed_decimal(y as int);
    let t3 = seq!['"'] + place + seq!['"'] + rest;
    let t2 = seq!['"'] + mode + seq!['"'] + (", position = "@ + t3);
    let t1 = lua_literal(name) + (", mode = "@ + t2);
    let t = rule_head(name, width, height, rate, x, y) + rest;
    assert("x"@ =~= seq!['x']);
    assert("@"@ =~= seq!['@']);
    assert("\""@ =~= seq!['"']);
    assert(", mode = \""@ =~= ", mode = "@ + seq!['"']);
    assert("\", position = \""@ =~= seq!['"'] + ", position = "@ + seq!['"']);
    assert(t =~= "hl.monitor({ output = "@ + t1);
    lemma_after("hl.monitor({ output = "@, t1);
    lua_literal_reads_back(name, ", mode = "@ + t2);
    lemma_after(", mode = "@, t2);
    lemma_number_lacks(width as int, '"');
    lemma_number_lacks(height as int, '"');
    lemma_number_lacks(width as int, '\\');
    lemma_number_lacks(height as int, '\\');
    lemma_number_lacks(x as int, '"');
    lemma_number_lacks(y as int, '"');
    lemma_number_lacks(x as int, '\\');
    lemma_number_lacks(y as int, '\\');
    assert(lacks(mode, '"') && lacks(mode, '\\'));
    assert(lacks(place, '"') && lacks(place, '\\'));
    lemma_plain_literal(mode, ", position = "@ + t3);
    lemma_after(", position = "@, t3);
    lemma_plain_literal(place, rest);
    lemma_mode_reads_back(width, height, rate);
    lemma_place_reads_back(x, y, 'x');
}

/// What is left of a text after cutting its end holds nothing new.
proof fn lemma_cut_lacks(s: Seq<char>, cut: char, c: char)
    requires
        lacks(s, c),
    ensures
        lacks(without_trailing(s, cut), c),
    decreases s.len(),
{
    if s.len() > 0 && s.last() == cut {
        assert(lacks(s.drop_last(), c));
        lemma_cut_lacks(s.drop_last(), cut, c);
    }
}

/// Read back, the rule of a monitor gives the state that the monitor was saved in:
/// its name, size, refresh rate, position, scale and transform, whatever they are
/// and whatever follows the rule.
pub proof fn rule_reads_back(m: MonitorView, rest: Seq<char>)
    requires
        has_plain_numbers(m),
    ensures
        read_rule(monitor_rule(m) + rest) == Some((as_it_was(m), rest)),
{
    reveal_strlit("\"");
    reveal_strlit("\", scale = ");
    reveal_strlit(", scale = ");
    reveal_strlit(", transform = ");
    reveal_strlit(" transform = ");
    reveal_strlit(" })");
    reveal_strlit("})");
    reveal(read_rule);
    let rate = shortened(m.refresh_rate);
    lemma_cut_lacks(m.refresh_rate, '0', '"');
    lemma_cut_lacks(m.refresh_rate, '0', '\\');
    lemma_cut_lacks(without_trailing(m.refresh_rate, '0'), '.', '"');
    lemma_cut_lacks(without_trailing(m.refresh_rate, '0'), '.', '\\');
    let transform = signed_decimal(m.transform as int);
    let t4 = "})"@ + rest;
    let t3 = transform + seq![' '] + t4;
    let t2 = " transform = "@ + t3;
    let t1 = m.scale + seq![','] + t2;
    let head = rule_head(m.name, m.width, m.height, rate, m.x, m.y);
    let t = monitor_rule(m) + rest;
    assert("\", scale = "@ =~= "\""@ + ", scale = "@);
    assert(", transform = "@ =~= seq![','] + " transform = "@);
    assert(" })"@ =~= seq![' '] + "})"@);
    assert(t =~= head + (", scale = "@ + t1));
    lemma_rule_head_reads_back(
        m.name,
        m.width,
        m.height,
        rate,
        m.x,
        m.y,
        ", scale = "@ + t1,
    );
    lemma_after(", scale = "@, t1);
    lemma_split_once(m.scale, ',', t2);
    lemma_after(" transform = "@, t3);
    lemma_number_lacks(m.transform as int, ' ');
    lemma_split_once(transform, ' ', t4);
    lemma_after("})"@, rest);
    signed_decimal_reads_back(m.transform);
}

/// The rules of two monitors that are not in the same state differ, so setting one
/// back never leaves it where another was.
pub proof fn rules_tell_monitors_apart(a: MonitorView, b: MonitorView)
    requires
        has_plain_numbers(a),
        has_plain_numbers(b),
        monitor_rule(a) == monitor_rule(b),
    ensures
        a.name == b.name,
        a.x == b.x && a.y == b.y,
        a.width == b.width && a.height == b.height,
        a.scale == b.scale,
        a.transform == b.transform,
        shortened(a.refresh_rate) == shortened(b.refresh_rate),
{
    rule_reads_back(a, seq![]);
    rule_reads_back(b, seq![]);
}

proof fn lemma_joined_first(list: Seq<Seq<char>>, separator: Seq<char>)
    requires
        list.len() > 1,
    ensures
        joined(list, separator) == list[0] + separator + joined(list.skip(1), separator),
    decreases list.len(),
{
    let rest = list.skip(1);
    if list.len() == 2 {
        assert(list.drop_last() =~= seq![list[0]]);
        assert(joined(list.drop_last(), separator) == list[0]);
        assert(joined(rest, separator) == list[1]);
    } else {
        lemma_joined_first(list.drop_last(), separator);
        assert(list.drop_last().skip(1) =~= rest.drop_last());
        assert(joined(list, separator) =~= list[0] + separator + joined(rest, separator));
    }
}

proof fn lemma_rule_is_not_empty(m: MonitorView)
    ensures
        monitor_rule(m).len() > 0,
{
    reveal_strlit("hl.monitor({ output = ");
}

proof fn lemma_rules_read_back(states: Seq<MonitorView>)
    requires
        forall|i: int| 0 <= i < states.len() ==> has_plain_numbers(#[trigger] states[i]),
    ensures
        read_rules(joined(states.map_values(|m: MonitorView| monitor_rule(m)), "; "@)) == Some(
            states.map_values(|m: MonitorView| as_it_was(m)),
        ),
    decreases states.len(),
{
    reveal_strlit("; ");
    let rules = states.map_values(|m: MonitorView| monitor_rule(m));
    let read = states.map_values(|m: MonitorView| as_it_was(m));
    let t = joined(rules, "; "@);
    if states.len() == 0 {
        assert(read =~= seq![]);
    } else if states.len() == 1 {
        assert(t =~= monitor_rule(states[0]) + seq![]);
        rule_reads_back(states[0], seq![]);
        lemma_rule_is_not_empty(states[0]);
        assert(read =~= seq![as_it_was(states[0])]);
    } else {
        let others = states.skip(1);
        let rest = joined(rules.skip(1), "; "@);
        lemma_joined_first(rules, "; "@);
        assert(rules.skip(1) =~= others.map_values(|m: MonitorView| monitor_rule(m)));
        assert(t =~= monitor_rule(states[0]) + ("; "@ + rest));
        rule_reads_back(states[0], "; "@ + rest);
        lemma_after("; "@, rest);
        assert forall|i: int| 0 <= i < others.len() implies has_plain_numbers(#[trigger] others[i]) by {
            assert(others[i] == states[i + 1]);
        }
        lemma_rules_read_back(others);
        assert(rest.len() > 0) by {
            let first = monitor_rule(others[0]);
            lemma_rule_is_not_empty(others[0]);
            if others.len() == 1 {
                assert(rest == first);
            } else {
                lemma_joined_first(rules.skip(1), "; "@);
            }
        }
        assert(read =~= seq![as_it_was(states[0])] + others.map_values(
            |m: MonitorView| as_it_was(m),
        ));
    }
}

proof fn lemma_kept_numbers_are_plain(
    states: Seq<MonitorView>,
    keep: spec_fn(MonitorView) -> bool,
)
    requires
        forall|i: int| 0 <= i < states.len() ==> has_plain_numbers(#[trigger] states[i]),
    ensures
        forall|i: int|
            0 <= i < states.filter(keep).len() ==> has_plain_numbers(
                #[trigger] states.filter(keep)[i],
            ),
    decreases states.len(),
{
    reveal(Seq::filter);
    if states.len() > 0 {
        let less = states.drop_last();
        lemma_kept_numbers_are_plain(less, keep);
        assert(has_plain_numbers(states[states.len() - 1]));
        let kept = less.filter(keep);
        assert(states.filter(keep) == if keep(states.last()) {
            kept.push(states.last())
        } else {
            kept
        });
    }
}

/// Read back, the script that sets the monitors back tells of every monitor but the
/// excluded one, in order, that it is to be as it was saved, and tells of nothing
/// else.
pub proof fn script_sets_every_other_monitor_back(states: Seq<MonitorView>, excluded: Seq<char>)
    requires
        forall|i: int| 0 <= i < states.len() ==> has_plain_numbers(#[trigger] states[i]),
    ensures
        read_rules(restore_script(states, excluded)) == Some(
            states.filter(|m: MonitorView| m.name != excluded).map_values(
                |m: MonitorView| as_it_was(m),
            ),
        ),
{
    let others = |m: MonitorView| m.name != excluded;
    let kept = states.filter(others);
    every_other_monitor_is_restored(states, excluded);
    lemma_kept_numbers_are_plain(states, others);
    lemma_rules_read_back(kept);
}

// ---------------------------------------------------------------------------
// What is saved
// ---------------------------------------------------------------------------

/// The field of an object by a key is a field of it with that key, and there is one
/// wherever any field has the key.
pub proof fn fields_are_found_by_their_key(fields: Seq<JsonFieldView>, key: Seq<char>)
    ensures
        match field_of(fields, key) {
            Some(f) => fields.contains(f) && f.key == key,
            None => forall|i: int| 0 <= i < fields.len() ==> (#[trigger] fields[i]).key != key,
        },
    decreases fields.len(),
{
    if fields.len() > 0 {
        if fields[0].key == key {
            assert(fields.contains(fields[0]));
        } else {
            let rest = fields.skip(1);
            fields_are_found_by_their_key(rest, key);
            match field_of(rest, key) {
                Some(f) => {
                    let i = choose|i: int| 0 <= i < rest.len() && rest[i] == f;
                    assert(fields[i + 1] == f);
                },
                None => {
                    assert forall|i: int| 0 <= i < fields.len() implies (
                    #[trigger] fields[i]).key != key by {
                        if i > 0 {
                            assert(fields[i] == rest[i - 1]);
                        }
                    }
                },
            }
        }
    }
}

/// Whether a monitor is what the fields of an object say, each of its parts under
/// its own key.
pub open spec fn is_described_by(m: MonitorView, fields: Seq<JsonFieldView>) -> bool {
    &&& field_of(fields, "name"@) matches Some(f) && f.text == Some(m.name)
    &&& field_of(fields, "x"@) matches Some(f) && (f.signed matches Some(n) && n == m.x)
    &&& field_of(fields, "y"@) matches Some(f) && (f.signed matches Some(n) && n == m.y)
    &&& field_of(fields, "width"@) matches Some(f) && (f.unsigned matches Some(n) && n == m.width)
    &&& field_of(fields, "height"@) matches Some(f) && (f.unsigned matches Some(n) && n == m.height)
    &&& field_of(fields, "refreshRate"@) matches Some(f) && f.six_decimals == Some(m.refresh_rate)
    &&& field_of(fields, "scale"@) matches Some(f) && f.shortest == Some(m.scale)
    &&& field_of(fields, "transform"@) matches Some(f) && (f.signed matches Some(n) && n
        == m.transform)
}

/// A monitor is saved exactly as the fields of its object say, and it is saved
/// whenever there is a monitor that they describe. What is reported instead is what
/// is wrong with the object.
pub proof fn monitors_are_saved_as_described(fields: Seq<JsonFieldView>, m: MonitorView)
    ensures
        monitor_of(fields) matches Ok(saved) ==> is_described_by(saved, fields),
        is_described_by(m, fields) ==> monitor_of(fields) == Ok::<_, MonitorDefect>(m),
        monitor_of(fields) == Err::<MonitorView, _>(MonitorDefect::NoName) <==> text_of(
            fields,
            "name"@,
        ) is None,
        monitor_of(fields) matches Err(d) ==> d !is NotAnArray && match d {
            MonitorDefect::NoX => signed_of(fields, "x"@) is None,
            MonitorDefect::NoY => signed_of(fields, "y"@) is None,
            MonitorDefect::NoWidth => unsigned_of(fields, "width"@) is None,
            MonitorDefect::NoHeight => unsigned_of(fields, "height"@) is None,
            MonitorDefect::NoRefreshRate => six_decimals_of(fields, "refreshRate"@) is None,
            MonitorDefect::NoScale => shortest_of(fields, "scale"@) is None,
            MonitorDefect::NoTransform => signed_of(fields, "transform"@) is None,
            MonitorDefect::XOutOfRange => signed_of(fields, "x"@) matches Some(n) && !(i32::MIN
                <= n <= i32::MAX),
            MonitorDefect::YOutOfRange => signed_of(fields, "y"@) matches Some(n) && !(i32::MIN
                <= n <= i32::MAX),
            MonitorDefect::WidthOutOfRange => unsigned_of(fields, "width"@) matches Some(n) && n
                > u32::MAX,
            MonitorDefect::HeightOutOfRange => unsigned_of(fields, "height"@) matches Some(n) && n
                > u32::MAX,
            MonitorDefect::TransformOutOfRange => signed_of(fields, "transform"@) matches Some(n)
                && !(i32::MIN <= n <= i32::MAX),
            _ => true,
        },
{
    if is_described_by(m, fields) {
        assert(monitor_of(fields)->Ok_0 =~= m);
    }
}

/// As many monitors are saved as there are items, each as its own item says, in
/// order. Where that cannot be, the first item that is no monitor says why.
pub proof fn every_item_is_saved(items: Seq<Seq<JsonFieldView>>)
    ensures
        match monitors_of(items) {
            Ok(saved) => saved.len() == items.len() && forall|i: int|
                0 <= i < items.len() ==> is_described_by(#[trigger] saved[i], items[i]),
            Err(defect) => exists|i: int|
                0 <= i < items.len() && #[trigger] monitor_of(items[i]) == Err::<MonitorView, _>(
                    defect,
                ) && forall|j: int| 0 <= j < i ==> (#[trigger] monitor_of(items[j])) is Ok,
        },
    decreases items.len(),
{
    if items.len() > 0 {
        let less = items.drop_last();
        every_item_is_saved(less);
        lemma_all_ok(less);
        match monitors_of(less) {
            Err(defect) => {
                let i = choose|i: int|
                    0 <= i < less.len() && #[trigger] monitor_of(less[i]) == Err::<MonitorView, _>(
                        defect,
                    ) && forall|j: int| 0 <= j < i ==> (#[trigger] monitor_of(less[j])) is Ok;
                assert(items[i] == less[i]);
                assert forall|j: int| 0 <= j < i implies (#[trigger] monitor_of(items[j])) is Ok by {
                    assert(items[j] == less[j]);
                    assert(monitor_of(less[j]) is Ok);
                }
            },
            Ok(saved) => {
                match monitor_of(items.last()) {
                    Ok(m) => {
                        monitors_are_saved_as_described(items.last(), m);
                        let all = saved.push(m);
                        assert forall|i: int| 0 <= i < items.len() implies is_described_by(
                            #[trigger] all[i],
                            items[i],
                        ) by {
                            if i < less.len() {
                                assert(items[i] == less[i]);
                                assert(all[i] == saved[i]);
                            }
                        }
                    },
                    Err(_) => {
                        let n = items.len() - 1;
                        assert forall|j: int| 0 <= j < n implies (
                        #[trigger] monitor_of(items[j])) is Ok by {
                            assert(items[j] == less[j]);
                            assert(monitor_of(less[j]) is Ok);
                        }
                        assert(monitor_of(items[n]) is Err);
                    },
                }
            },
        }
    }
}

proof fn lemma_all_ok(items: Seq<Seq<JsonFieldView>>)
    ensures
        monitors_of(items) is Ok ==> forall|j: int|
            0 <= j < items.len() ==> (#[trigger] monitor_of(items[j])) is Ok,
    decreases items.len(),
{
    if items.len() > 0 {
        let less = items.drop_last();
        lemma_all_ok(less);
        assert forall|j: int| monitors_of(items) is Ok && 0 <= j < items.len() implies (
        #[trigger] monitor_of(items[j])) is Ok by {
            if j < less.len() {
                assert(items[j] == less[j]);
                assert(monitor_of(less[j]) is Ok);
            }
        }
    }
}

/// A text cannot be read as monitors exactly where its document is no array or has
/// an item that is no monitor.
pub proof fn only_arrays_hold_monitors(document: Option<Seq<Seq<JsonFieldView>>>)
    ensures
        document is None <==> monitors_in(document) == Err::<Seq<MonitorView>, _>(
            MonitorDefect::NotAnArray,
        ),
        document matches Some(items) ==> monitors_in(document) == monitors_of(items),
{
    if let Some(items) = document {
        every_item_is_saved(items);
        if let Err(defect) = monitors_of(items) {
            let i = choose|i: int|
                0 <= i < items.len() && #[trigger] monitor_of(items[i]) == Err::<MonitorView, _>(
                    defect,
                ) && forall|j: int| 0 <= j < i ==> (#[trigger] monitor_of(items[j])) is Ok;
            monitors_are_saved_as_described(items[i], arbitrary());
        }
    }
}

} // verus!
