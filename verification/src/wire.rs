//! The wire form of an event: one JSON object per connection.
//!
//! ```text
//! {"eventcmd":"songstart","info":{"artist":"Count Basie", ... ,"stations":["Jazz Radio"]}}
//! ```
//!
//! The object holds the eventcmd by its token and the info as a nested
//! object, its fields in the order of `wire_schema`, without white space.
//! `wire_text` is the text of an event, `Event::encode` writes it, and
//! `Event::decode` accepts that text and no other. On the socket the text
//! travels in UTF-8: `Event::encode_bytes` and `Event::decode_bytes` are the
//! same two functions on bytes.

use vstd::prelude::*;
use vstd::string::{StrSliceExecFns, StringExecFns};
use vstd::utf8::{
    decode_utf8, decode_utf8_encode_utf8, encode_utf8, encode_utf8_decode_utf8,
    encode_utf8_valid_utf8, valid_utf8,
};
use crate::decimal::{decimal, push_decimal};
use crate::event::{Event, EventView};
use crate::eventcmd::{classify, lemma_classify, lemma_classify_token, EventCmd};
use crate::info::{CurlStatus, Info, InfoView, PianobarStatus, Song, StatusView};
use crate::json::{
    expect, is_number_char, lemma_take_list, lemma_take_list_sound, lemma_take_number,
    lemma_take_number_sound, lemma_take_optional, lemma_take_optional_sound, lemma_take_string,
    lemma_take_string_sound, list_text, optional_text, push_list, push_optional, push_quoted,
    quoted, read_list, read_number, read_optional, read_string, take_list, take_number,
    take_optional, take_string,
};
use crate::text::{optional_view, strings_view, to_chars};

verus! {

/// `core::str::from_utf8` checks that the bytes are valid UTF-8 and, if they
/// are, hands them back as a string slice; otherwise it returns an error.
/// The contract says that valid bytes are accepted and that the bytes of an
/// accepted string are the bytes given.
pub assume_specification[ core::str::from_utf8 ](v: &[u8]) -> (r: Result<
    &str,
    core::str::Utf8Error,
>)
    ensures
        valid_utf8(v@) ==> r is Ok,
        r matches Ok(s) ==> encode_utf8(s@) == v@,
;

/// The error of `core::str::from_utf8`. Nothing is read from it.
#[verifier::external_type_specification]
#[verifier::external_body]
pub struct ExUtf8Error(core::str::Utf8Error);

/// An error which can be returned when decoding an event: the text is not
/// the wire form of any event.
#[derive(Debug, Clone, Copy, PartialEq, Eq)]
pub struct DecodeError;

/// The kinds of value that the wire form holds.
pub enum WireKind {
    Text,
    Optional,
    Number,
    List,
}

/// A value of the wire form.
pub enum WireValue {
    Text(Seq<char>),
    Optional(Option<Seq<char>>),
    Number(i32),
    List(Seq<Seq<char>>),
}

/// The kind of a value.
pub open spec fn kind_of(v: WireValue) -> WireKind {
    match v {
        WireValue::Text(_) => WireKind::Text,
        WireValue::Optional(_) => WireKind::Optional,
        WireValue::Number(_) => WireKind::Number,
        WireValue::List(_) => WireKind::List,
    }
}

/// The JSON text of a value.
pub open spec fn value_text(v: WireValue) -> Seq<char> {
    match v {
        WireValue::Text(s) => quoted(s),
        WireValue::Optional(s) => optional_text(s),
        WireValue::Number(n) => decimal(n as int),
        WireValue::List(xs) => list_text(xs),
    }
}

/// The fields of the wire form, in order: what stands before each value, and
/// the kind of the value.
pub open spec fn wire_schema() -> Seq<(Seq<char>, WireKind)> {
    seq![
        ("{\"eventcmd\":"@, WireKind::Text),
        (",\"info\":{\"artist\":"@, WireKind::Optional),
        (",\"title\":"@, WireKind::Optional),
        (",\"album\":"@, WireKind::Optional),
        (",\"cover_art\":"@, WireKind::Optional),
        (",\"station_name\":"@, WireKind::Optional),
        (",\"song_station_name\":"@, WireKind::Optional),
        (",\"pianobar_status\":{\"code\":"@, WireKind::Number),
        (",\"message\":"@, WireKind::Text),
        ("},\"curl_status\":{\"code\":"@, WireKind::Number),
        (",\"message\":"@, WireKind::Text),
        ("},\"song\":{\"duration\":"@, WireKind::Number),
        (",\"played\":"@, WireKind::Number),
        ("},\"rating\":"@, WireKind::Number),
        (",\"detail_url\":"@, WireKind::Optional),
        (",\"stations\":"@, WireKind::List),
    ]
}

/// What stands behind the last value.
pub open spec fn wire_closing() -> Seq<char> {
    "}}"@
}

/// The values of an event, in the order of the schema.
pub open spec fn wire_values(e: EventView) -> Seq<WireValue> {
    seq![
        WireValue::Text(e.eventcmd.token()),
        WireValue::Optional(e.info.artist),
        WireValue::Optional(e.info.title),
        WireValue::Optional(e.info.album),
        WireValue::Optional(e.info.cover_art),
        WireValue::Optional(e.info.station_name),
        WireValue::Optional(e.info.song_station_name),
        WireValue::Number(e.info.pianobar_status.code),
        WireValue::Text(e.info.pianobar_status.message),
        WireValue::Number(e.info.curl_status.code),
        WireValue::Text(e.info.curl_status.message),
        WireValue::Number(e.info.song.duration),
        WireValue::Number(e.info.song.played),
        WireValue::Number(e.info.rating),
        WireValue::Optional(e.info.detail_url),
        WireValue::List(e.info.stations),
    ]
}

/// The wire form from field `k` on: each field's label and the text of its
/// value, then the closing.
pub open spec fn fields_text(schema: Seq<(Seq<char>, WireKind)>, values: Seq<WireValue>, k: int)
    -> Seq<char>
    decreases schema.len() - k,
{
    if 0 <= k < schema.len() {
        schema[k].0 + value_text(values[k]) + fields_text(schema, values, k + 1)
    } else {
        wire_closing()
    }
}

/// The wire form of an event.
pub open spec fn wire_text(e: EventView) -> Seq<char> {
    fields_text(wire_schema(), wire_values(e), 0)
}

/// The event that a text is the wire form of, if it is one.
pub open spec fn decoded(text: Seq<char>) -> Option<EventView> {
    if exists|e: EventView| wire_text(e) == text {
        Some(choose|e: EventView| wire_text(e) == text)
    } else {
        None
    }
}

/// The wire form of an event as the bytes that travel: its text in UTF-8.
pub open spec fn wire_bytes(e: EventView) -> Seq<u8> {
    encode_utf8(wire_text(e))
}

/// The event that the bytes are the wire form of, if they are one.
pub open spec fn decoded_bytes(bytes: Seq<u8>) -> Option<EventView> {
    if valid_utf8(bytes) {
        decoded(decode_utf8(bytes))
    } else {
        None
    }
}

/// The value of the given kind at the front of `s`, and how many characters
/// it takes.
pub open spec fn take_value(kind: WireKind, s: Seq<char>) -> Option<(WireValue, int)> {
    match kind {
        WireKind::Text => match take_string(s) {
            Some((x, n)) => Some((WireValue::Text(x), n)),
            None => None,
        },
        WireKind::Optional => match take_optional(s) {
            Some((x, n)) => Some((WireValue::Optional(x), n)),
            None => None,
        },
        WireKind::Number => match take_number(s) {
            Some((x, n)) => Some((WireValue::Number(x), n)),
            None => None,
        },
        WireKind::List => match take_list(s) {
            Some((x, n)) => Some((WireValue::List(x), n)),
            None => None,
        },
    }
}

/// The field with the given label and kind at the front of `s`: its value,
/// and how many characters label and value take.
pub open spec fn take_field(label: Seq<char>, kind: WireKind, s: Seq<char>) -> Option<
    (WireValue, int),
> {
    if label.is_prefix_of(s) {
        match take_value(kind, s.skip(label.len() as int)) {
            Some((v, n)) => Some((v, label.len() + n)),
            None => None,
        }
    } else {
        None
    }
}

/// The values of the fields from `k` on that `s` holds, behind those already
/// read; `s` must end with the closing.
pub open spec fn take_fields(
    schema: Seq<(Seq<char>, WireKind)>,
    s: Seq<char>,
    k: int,
    read: Seq<WireValue>,
) -> Option<Seq<WireValue>>
    decreases schema.len() - k,
{
    if 0 <= k < schema.len() {
        match take_field(schema[k].0, schema[k].1, s) {
            Some((v, n)) => take_fields(schema, s.skip(n), k + 1, read.push(v)),
            None => None,
        }
    } else if s == wire_closing() {
        Some(read)
    } else {
        None
    }
}

/// The values are as many as the schema's fields, each of its field's kind.
pub open spec fn fits_schema(schema: Seq<(Seq<char>, WireKind)>, values: Seq<WireValue>) -> bool {
    &&& values.len() == schema.len()
    &&& forall|k: int| 0 <= k < schema.len() ==> kind_of(#[trigger] values[k]) == schema[k].1
}

/// No label, and not the closing, begins with a character that could
/// belong to a number before it.
pub open spec fn parts_numbers(schema: Seq<(Seq<char>, WireKind)>) -> bool {
    &&& wire_closing().len() > 0
    &&& !is_number_char(wire_closing()[0])
    &&& forall|k: int|
        0 <= k < schema.len() ==> (#[trigger] schema[k]).0.len() > 0 && !is_number_char(
            schema[k].0[0],
        )
}

/// A written value is read back, when what follows cannot belong to it.
pub proof fn lemma_take_value(v: WireValue, rest: Seq<char>)
    requires
        rest.len() > 0,
        !is_number_char(rest[0]),
    ensures
        take_value(kind_of(v), value_text(v) + rest) == Some((v, value_text(v).len() as int)),
{
    match v {
        WireValue::Text(s) => lemma_take_string(s, rest),
        WireValue::Optional(s) => lemma_take_optional(s, rest),
        WireValue::Number(n) => lemma_take_number(n, rest),
        WireValue::List(xs) => lemma_take_list(xs, rest),
    }
}

/// What is written from any field on is not empty and begins with no
/// character of a number.
pub proof fn lemma_fields_text_front(
    schema: Seq<(Seq<char>, WireKind)>,
    values: Seq<WireValue>,
    k: int,
)
    requires
        parts_numbers(schema),
    ensures
        fields_text(schema, values, k).len() > 0,
        !is_number_char(fields_text(schema, values, k)[0]),
{
}

/// Written fields are read back.
pub proof fn lemma_take_fields(
    schema: Seq<(Seq<char>, WireKind)>,
    values: Seq<WireValue>,
    k: int,
    read: Seq<WireValue>,
)
    requires
        parts_numbers(schema),
        fits_schema(schema, values),
        0 <= k <= schema.len(),
    ensures
        take_fields(schema, fields_text(schema, values, k), k, read) == Some(
            read + values.skip(k),
        ),
    decreases schema.len() - k,
{
    if k < schema.len() {
        let s = fields_text(schema, values, k);
        let label = schema[k].0;
        let v = values[k];
        let rest = fields_text(schema, values, k + 1);
        lemma_fields_text_front(schema, values, k + 1);
        assert(s.skip(label.len() as int) == value_text(v) + rest);
        lemma_take_value(v, rest);
        assert(s.skip((label.len() + value_text(v).len()) as int) == rest);
        lemma_take_fields(schema, values, k + 1, read.push(v));
    }
}

/// The event whose values these are, where they are the values of one.
pub open spec fn event_of(values: Seq<WireValue>) -> Option<EventView> {
    if fits_schema(wire_schema(), values) {
        match classify(values[0]->Text_0) {
            Some(eventcmd) => Some(
                EventView {
                    eventcmd,
                    info: InfoView {
                        artist: values[1]->Optional_0,
                        title: values[2]->Optional_0,
                        album: values[3]->Optional_0,
                        cover_art: values[4]->Optional_0,
                        station_name: values[5]->Optional_0,
                        song_station_name: values[6]->Optional_0,
                        pianobar_status: StatusView {
                            code: values[7]->Number_0,
                            message: values[8]->Text_0,
                        },
                        curl_status: StatusView {
                            code: values[9]->Number_0,
                            message: values[10]->Text_0,
                        },
                        song: Song {
                            duration: values[11]->Number_0,
                            played: values[12]->Number_0,
                        },
                        rating: values[13]->Number_0,
                        detail_url: values[14]->Optional_0,
                        stations: values[15]->List_0,
                    },
                },
            ),
            None => None,
        }
    } else {
        None
    }
}

/// The event that a text holds, read field by field.
pub open spec fn read_event(text: Seq<char>) -> Option<EventView> {
    match take_fields(wire_schema(), text, 0, Seq::empty()) {
        Some(values) => event_of(values),
        None => None,
    }
}

/// The schema keeps numbers apart from what follows them.
pub proof fn lemma_schema_parts_numbers()
    ensures
        parts_numbers(wire_schema()),
{
    reveal_strlit("}}");
    reveal_strlit("{\"eventcmd\":");
    reveal_strlit(",\"info\":{\"artist\":");
    reveal_strlit(",\"title\":");
    reveal_strlit(",\"album\":");
    reveal_strlit(",\"cover_art\":");
    reveal_strlit(",\"station_name\":");
    reveal_strlit(",\"song_station_name\":");
    reveal_strlit(",\"pianobar_status\":{\"code\":");
    reveal_strlit(",\"message\":");
    reveal_strlit("},\"curl_status\":{\"code\":");
    reveal_strlit("},\"song\":{\"duration\":");
    reveal_strlit(",\"played\":");
    reveal_strlit("},\"rating\":");
    reveal_strlit(",\"detail_url\":");
    reveal_strlit(",\"stations\":");
    assert forall|k: int| 0 <= k < wire_schema().len() implies (#[trigger] wire_schema()[k]).0.len()
        > 0 && !is_number_char(wire_schema()[k].0[0]) by {}
}

/// The values of an event are those of the event that they give.
pub proof fn lemma_event_of_values(e: EventView)
    ensures
        fits_schema(wire_schema(), wire_values(e)),
        event_of(wire_values(e)) == Some(e),
{
    lemma_classify_token(e.eventcmd);
}

/// Reading the wire form of an event gives the event back.
pub proof fn lemma_read_wire_text(e: EventView)
    ensures
        read_event(wire_text(e)) == Some(e),
{
    lemma_schema_parts_numbers();
    lemma_event_of_values(e);
    lemma_take_fields(wire_schema(), wire_values(e), 0, Seq::empty());
}

/// What is read as a value is that value as `value_text` writes it.
pub proof fn lemma_take_value_sound(kind: WireKind, s: Seq<char>)
    ensures
        take_value(kind, s) matches Some((v, n)) ==> kind_of(v) == kind && 1 <= n <= s.len()
            && s.take(n) == value_text(v),
{
    match kind {
        WireKind::Text => lemma_take_string_sound(s),
        WireKind::Optional => lemma_take_optional_sound(s),
        WireKind::Number => lemma_take_number_sound(s),
        WireKind::List => lemma_take_list_sound(s),
    }
}

/// What is read as fields is those fields as `fields_text` writes them:
/// behind the values already read stand values of the kinds of the schema,
/// and the text is theirs.
pub proof fn lemma_take_fields_sound(
    schema: Seq<(Seq<char>, WireKind)>,
    s: Seq<char>,
    k: int,
    read: Seq<WireValue>,
)
    requires
        0 <= k <= schema.len(),
        read.len() == k,
    ensures
        take_fields(schema, s, k, read) matches Some(values) ==> {
            &&& values.len() == schema.len()
            &&& values.take(k) == read
            &&& forall|j: int|
                k <= j < schema.len() ==> kind_of(#[trigger] values[j]) == schema[j].1
            &&& s == fields_text(schema, values, k)
        },
    decreases schema.len() - k,
{
    if take_fields(schema, s, k, read) is Some {
        let values = take_fields(schema, s, k, read).unwrap();
        if k < schema.len() {
            let label = schema[k].0;
            let (v, n) = take_field(label, schema[k].1, s).unwrap();
            lemma_take_value_sound(schema[k].1, s.skip(label.len() as int));
            lemma_take_fields_sound(schema, s.skip(n), k + 1, read.push(v));
            assert(values.take(k + 1)[k] == v);
            assert(values.take(k) == values.take(k + 1).take(k));
            assert(s == s.take(n) + s.skip(n));
        } else {
            assert(values.take(k) == values);
        }
    }
}

/// The values that give an event are the values of that event.
pub proof fn lemma_event_of_sound(values: Seq<WireValue>)
    ensures
        event_of(values) matches Some(e) ==> wire_values(e) == values,
{
    if event_of(values) is Some {
        let e = event_of(values).unwrap();
        lemma_classify(values[0]->Text_0);
        assert forall|k: int| 0 <= k < values.len() implies wire_values(e)[k] == values[k] by {}
    }
}

/// A text that reads as an event is the wire form of that event.
pub proof fn lemma_read_event_sound(text: Seq<char>)
    ensures
        read_event(text) matches Some(e) ==> wire_text(e) == text,
{
    lemma_take_fields_sound(wire_schema(), text, 0, Seq::empty());
    match take_fields(wire_schema(), text, 0, Seq::empty()) {
        Some(values) => lemma_event_of_sound(values),
        None => {},
    }
}

/// Reading field by field decodes: it gives the event that the text is the
/// wire form of, and none where it is the wire form of none.
pub proof fn lemma_read_event_decodes(text: Seq<char>)
    ensures
        read_event(text) == decoded(text),
{
    lemma_read_event_sound(text);
    match decoded(text) {
        Some(e) => lemma_read_wire_text(e),
        None => {},
    }
}

/// No two events share a wire form.
pub proof fn lemma_wire_text_injective(a: EventView, b: EventView)
    requires
        wire_text(a) == wire_text(b),
    ensures
        a == b,
{
    lemma_read_wire_text(a);
    lemma_read_wire_text(b);
}

/// Decoding is the inverse of encoding: the wire form of an event decodes as
/// that event, equal in every field.
pub proof fn lemma_decode_encode(e: EventView)
    ensures
        decoded(wire_text(e)) == Some(e),
{
    let found = choose|x: EventView| wire_text(x) == wire_text(e);
    lemma_wire_text_injective(found, e);
}

/// Decoding is the inverse of encoding on bytes too: the bytes written for
/// an event decode as that event.
pub proof fn lemma_decode_encode_bytes(e: EventView)
    ensures
        decoded_bytes(wire_bytes(e)) == Some(e),
{
    encode_utf8_valid_utf8(wire_text(e));
    encode_utf8_decode_utf8(wire_text(e));
    lemma_decode_encode(e);
}

/// The bytes that decode as an event are the bytes written for it.
pub proof fn lemma_decoded_bytes(bytes: Seq<u8>)
    ensures
        decoded_bytes(bytes) matches Some(e) ==> wire_bytes(e) == bytes,
{
    if valid_utf8(bytes) {
        decode_utf8_encode_utf8(bytes);
    }
}

/// What decodes as an event is that event's wire form, and what is no
/// event's wire form decodes as none.
pub proof fn lemma_decoded(text: Seq<char>)
    ensures
        match decoded(text) {
            Some(e) => wire_text(e) == text,
            None => forall|e: EventView| wire_text(e) != text,
        },
{
}

/// Appends field `k`, a text: its label and its value.
fn push_text_field(
    out: &mut String,
    label: &str,
    value: &str,
    Ghost(k): Ghost<int>,
    Ghost(values): Ghost<Seq<WireValue>>,
)
    requires
        0 <= k < wire_schema().len(),
        wire_schema()[k].0 == label@,
        values[k] == WireValue::Text(value@),
    ensures
        final(out)@ + fields_text(wire_schema(), values, k + 1) == old(out)@ + fields_text(
            wire_schema(),
            values,
            k,
        ),
{
    out.append(label);
    push_quoted(out, value);
}

/// Reads field `k`, a text, at `pos`: its value and the position behind
/// it.
fn read_text_field(
    chars: &Vec<char>,
    pos: usize,
    label: &str,
    Ghost(k): Ghost<int>,
    Ghost(read): Ghost<Seq<WireValue>>,
) -> (r: Option<(String, usize)>)
    requires
        pos <= chars.len(),
        0 <= k < wire_schema().len(),
        wire_schema()[k] == (label@, WireKind::Text),
    ensures
        match r {
            Some((s, p)) => p <= chars.len() && take_fields(
                wire_schema(),
                chars@.skip(pos as int),
                k,
                read,
            ) == take_fields(
                wire_schema(),
                chars@.skip(p as int),
                k + 1,
                read.push(WireValue::Text(s@)),
            ),
            None => take_fields(wire_schema(), chars@.skip(pos as int), k, read) is None,
        },
{
    let at = match expect(chars, pos, label) {
        Some(at) => at,
        None => {
            return None;
        },
    };
    assert(chars@.skip(pos as int).skip(label@.len() as int) == chars@.skip(at as int));
    match read_string(chars, at) {
        Some((s, p)) => {
            assert(chars@.skip(pos as int).skip(p - pos) == chars@.skip(p as int));
            Some((s, p))
        },
        None => None,
    }
}

/// Appends field `k`, an optional text: its label and its value.
fn push_optional_field(
    out: &mut String,
    label: &str,
    value: &Option<String>,
    Ghost(k): Ghost<int>,
    Ghost(values): Ghost<Seq<WireValue>>,
)
    requires
        0 <= k < wire_schema().len(),
        wire_schema()[k].0 == label@,
        values[k] == WireValue::Optional(optional_view(*value)),
    ensures
        final(out)@ + fields_text(wire_schema(), values, k + 1) == old(out)@ + fields_text(
            wire_schema(),
            values,
            k,
        ),
{
    out.append(label);
    push_optional(out, value);
}

/// Reads field `k`, an optional text, at `pos`: its value and the position
/// behind it.
fn read_optional_field(
    chars: &Vec<char>,
    pos: usize,
    label: &str,
    Ghost(k): Ghost<int>,
    Ghost(read): Ghost<Seq<WireValue>>,
) -> (r: Option<(Option<String>, usize)>)
    requires
        pos <= chars.len(),
        0 <= k < wire_schema().len(),
        wire_schema()[k] == (label@, WireKind::Optional),
    ensures
        match r {
            Some((s, p)) => p <= chars.len() && take_fields(
                wire_schema(),
                chars@.skip(pos as int),
                k,
                read,
            ) == take_fields(
                wire_schema(),
                chars@.skip(p as int),
                k + 1,
                read.push(WireValue::Optional(optional_view(s))),
            ),
            None => take_fields(wire_schema(), chars@.skip(pos as int), k, read) is None,
        },
{
    let at = match expect(chars, pos, label) {
        Some(at) => at,
        None => {
            return None;
        },
    };
    assert(chars@.skip(pos as int).skip(label@.len() as int) == chars@.skip(at as int));
    match read_optional(chars, at) {
        Some((s, p)) => {
            assert(chars@.skip(pos as int).skip(p - pos) == chars@.skip(p as int));
            Some((s, p))
        },
        None => None,
    }
}

/// Appends field `k`, a number: its label and its value.
fn push_number_field(
    out: &mut String,
    label: &str,
    value: i32,
    Ghost(k): Ghost<int>,
    Ghost(values): Ghost<Seq<WireValue>>,
)
    requires
        0 <= k < wire_schema().len(),
        wire_schema()[k].0 == label@,
        values[k] == WireValue::Number(value),
    ensures
        final(out)@ + fields_text(wire_schema(), values, k + 1) == old(out)@ + fields_text(
            wire_schema(),
            values,
            k,
        ),
{
    out.append(label);
    push_decimal(out, value);
}

/// Reads field `k`, a number, at `pos`: its value and the position behind
/// it.
fn read_number_field(
    chars: &Vec<char>,
    pos: usize,
    label: &str,
    Ghost(k): Ghost<int>,
    Ghost(read): Ghost<Seq<WireValue>>,
) -> (r: Option<(i32, usize)>)
    requires
        pos <= chars.len(),
        0 <= k < wire_schema().len(),
        wire_schema()[k] == (label@, WireKind::Number),
    ensures
        match r {
            Some((s, p)) => p <= chars.len() && take_fields(
                wire_schema(),
                chars@.skip(pos as int),
                k,
                read,
            ) == take_fields(
                wire_schema(),
                chars@.skip(p as int),
                k + 1,
                read.push(WireValue::Number(s)),
            ),
            None => take_fields(wire_schema(), chars@.skip(pos as int), k, read) is None,
        },
{
    let at = match expect(chars, pos, label) {
        Some(at) => at,
        None => {
            return None;
        },
    };
    assert(chars@.skip(pos as int).skip(label@.len() as int) == chars@.skip(at as int));
    match read_number(chars, at) {
        Some((s, p)) => {
            assert(chars@.skip(pos as int).skip(p - pos) == chars@.skip(p as int));
            Some((s, p))
        },
        None => None,
    }
}

/// Appends field `k`, a list: its label and its value.
fn push_list_field(
    out: &mut String,
    label: &str,
    value: &Vec<String>,
    Ghost(k): Ghost<int>,
    Ghost(values): Ghost<Seq<WireValue>>,
)
    requires
        0 <= k < wire_schema().len(),
        wire_schema()[k].0 == label@,
        values[k] == WireValue::List(strings_view(value@)),
    ensures
        final(out)@ + fields_text(wire_schema(), values, k + 1) == old(out)@ + fields_text(
            wire_schema(),
            values,
            k,
        ),
{
    out.append(label);
    push_list(out, value);
}

/// Reads field `k`, a list, at `pos`: its value and the position behind
/// it.
fn read_list_field(
    chars: &Vec<char>,
    pos: usize,
    label: &str,
    Ghost(k): Ghost<int>,
    Ghost(read): Ghost<Seq<WireValue>>,
) -> (r: Option<(Vec<String>, usize)>)
    requires
        pos <= chars.len(),
        0 <= k < wire_schema().len(),
        wire_schema()[k] == (label@, WireKind::List),
    ensures
        match r {
            Some((s, p)) => p <= chars.len() && take_fields(
                wire_schema(),
                chars@.skip(pos as int),
                k,
                read,
            ) == take_fields(
                wire_schema(),
                chars@.skip(p as int),
                k + 1,
                read.push(WireValue::List(strings_view(s@))),
            ),
            None => take_fields(wire_schema(), chars@.skip(pos as int), k, read) is None,
        },
{
    let at = match expect(chars, pos, label) {
        Some(at) => at,
        None => {
            return None;
        },
    };
    assert(chars@.skip(pos as int).skip(label@.len() as int) == chars@.skip(at as int));
    match read_list(chars, at) {
        Some((s, p)) => {
            assert(chars@.skip(pos as int).skip(p - pos) == chars@.skip(p as int));
            Some((s, p))
        },
        None => None,
    }
}

/// The event that the characters hold, read field by field.
fn read_fields(chars: &Vec<char>) -> (r: Option<Event>)
    ensures
        match read_event(chars@) {
            Some(e) => r matches Some(event) && event@ == e,
            None => r is None,
        },
{
    assert(chars@.skip(0) == chars@);
    let ghost read0 = Seq::<WireValue>::empty();
    let (token, p) = read_text_field(chars, 0, "{\"eventcmd\":", Ghost(0), Ghost(read0))?;
    let ghost read1 = read0.push(WireValue::Text(token@));
    let (artist, p) = read_optional_field(
        chars,
        p,
        ",\"info\":{\"artist\":",
        Ghost(1),
        Ghost(read1),
    )?;
    let ghost read2 = read1.push(WireValue::Optional(optional_view(artist)));
    let (title, p) = read_optional_field(chars, p, ",\"title\":", Ghost(2), Ghost(read2))?;
    let ghost read3 = read2.push(WireValue::Optional(optional_view(title)));
    let (album, p) = read_optional_field(chars, p, ",\"album\":", Ghost(3), Ghost(read3))?;
    let ghost read4 = read3.push(WireValue::Optional(optional_view(album)));
    let (cover_art, p) = read_optional_field(chars, p, ",\"cover_art\":", Ghost(4), Ghost(read4))?;
    let ghost read5 = read4.push(WireValue::Optional(optional_view(cover_art)));
    let (station_name, p) = read_optional_field(
        chars,
        p,
        ",\"station_name\":",
        Ghost(5),
        Ghost(read5),
    )?;
    let ghost read6 = read5.push(WireValue::Optional(optional_view(station_name)));
    let (song_station_name, p) = read_optional_field(
        chars,
        p,
        ",\"song_station_name\":",
        Ghost(6),
        Ghost(read6),
    )?;
    let ghost read7 = read6.push(WireValue::Optional(optional_view(song_station_name)));
    let (p_code, p) = read_number_field(
        chars,
        p,
        ",\"pianobar_status\":{\"code\":",
        Ghost(7),
        Ghost(read7),
    )?;
    let ghost read8 = read7.push(WireValue::Number(p_code));
    let (p_message, p) = read_text_field(chars, p, ",\"message\":", Ghost(8), Ghost(read8))?;
    let ghost read9 = read8.push(WireValue::Text(p_message@));
    let (w_code, p) = read_number_field(
        chars,
        p,
        "},\"curl_status\":{\"code\":",
        Ghost(9),
        Ghost(read9),
    )?;
    let ghost read10 = read9.push(WireValue::Number(w_code));
    let (w_message, p) = read_text_field(chars, p, ",\"message\":", Ghost(10), Ghost(read10))?;
    let ghost read11 = read10.push(WireValue::Text(w_message@));
    let (duration, p) = read_number_field(
        chars,
        p,
        "},\"song\":{\"duration\":",
        Ghost(11),
        Ghost(read11),
    )?;
    let ghost read12 = read11.push(WireValue::Number(duration));
    let (played, p) = read_number_field(chars, p, ",\"played\":", Ghost(12), Ghost(read12))?;
    let ghost read13 = read12.push(WireValue::Number(played));
    let (rating, p) = read_number_field(chars, p, "},\"rating\":", Ghost(13), Ghost(read13))?;
    let ghost read14 = read13.push(WireValue::Number(rating));
    let (detail_url, p) = read_optional_field(
        chars,
        p,
        ",\"detail_url\":",
        Ghost(14),
        Ghost(read14),
    )?;
    let ghost read15 = read14.push(WireValue::Optional(optional_view(detail_url)));
    let (stations, p) = read_list_field(chars, p, ",\"stations\":", Ghost(15), Ghost(read15))?;
    let ghost values = read15.push(WireValue::List(strings_view(stations@)));
    let end = expect(chars, p, "}}")?;
    if end != chars.len() {
        return None;
    }
    proof {
        let s = chars@.skip(p as int);
        assert(s.subrange(0, s.len() as int) == s);
        assert(take_fields(wire_schema(), chars@, 0, Seq::empty()) == Some(values));
    }
    let eventcmd = match EventCmd::from_str(token.as_str()) {
        Ok(eventcmd) => eventcmd,
        Err(_) => {
            return None;
        },
    };
    Some(
        Event {
            eventcmd,
            info: Info {
                artist,
                title,
                album,
                cover_art,
                station_name,
                song_station_name,
                pianobar_status: PianobarStatus { code: p_code, message: p_message },
                curl_status: CurlStatus { code: w_code, message: w_message },
                song: Song { duration, played },
                rating,
                detail_url,
                stations,
            },
        },
    )
}

impl DecodeError {
    /// What the error says.
    pub fn message(&self) -> (r: String)
        ensures
            r@ == "Invalid event"@,
    {
        String::from_str("Invalid event")
    }
}

impl Event {
    /// The wire form of the event.
    pub fn encode(&self) -> (text: String)
        ensures
            text@ == wire_text(self@),
    {
        let ghost values = wire_values(self@);
        let mut out = String::new();
        push_text_field(
            &mut out,
            "{\"eventcmd\":",
            self.eventcmd.as_str(),
            Ghost(0),
            Ghost(values),
        );
        push_optional_field(
            &mut out,
            ",\"info\":{\"artist\":",
            &self.info.artist,
            Ghost(1),
            Ghost(values),
        );
        push_optional_field(&mut out, ",\"title\":", &self.info.title, Ghost(2), Ghost(values));
        push_optional_field(&mut out, ",\"album\":", &self.info.album, Ghost(3), Ghost(values));
        push_optional_field(
            &mut out,
            ",\"cover_art\":",
            &self.info.cover_art,
            Ghost(4),
            Ghost(values),
        );
        push_optional_field(
            &mut out,
            ",\"station_name\":",
            &self.info.station_name,
            Ghost(5),
            Ghost(values),
        );
        push_optional_field(
            &mut out,
            ",\"song_station_name\":",
            &self.info.song_station_name,
            Ghost(6),
            Ghost(values),
        );
        push_number_field(
            &mut out,
            ",\"pianobar_status\":{\"code\":",
            self.info.pianobar_status.code,
            Ghost(7),
            Ghost(values),
        );
        push_text_field(
            &mut out,
            ",\"message\":",
            self.info.pianobar_status.message.as_str(),
            Ghost(8),
            Ghost(values),
        );
        push_number_field(
            &mut out,
            "},\"curl_status\":{\"code\":",
            self.info.curl_status.code,
            Ghost(9),
            Ghost(values),
        );
        push_text_field(
            &mut out,
            ",\"message\":",
            self.info.curl_status.message.as_str(),
            Ghost(10),
            Ghost(values),
        );
        push_number_field(
            &mut out,
            "},\"song\":{\"duration\":",
            self.info.song.duration,
            Ghost(11),
            Ghost(values),
        );
        push_number_field(
            &mut out,
            ",\"played\":",
            self.info.song.played,
            Ghost(12),
            Ghost(values),
        );
        push_number_field(&mut out, "},\"rating\":", self.info.rating, Ghost(13), Ghost(values));
        push_optional_field(
            &mut out,
            ",\"detail_url\":",
            &self.info.detail_url,
            Ghost(14),
            Ghost(values),
        );
        push_list_field(&mut out, ",\"stations\":", &self.info.stations, Ghost(15), Ghost(values));
        out.append("}}");
        out
    }

    /// The event that `text` is the wire form of. A text that is the wire
    /// form of no event is refused: decoding accepts what encoding writes,
    /// and nothing else.
    pub fn decode(text: &str) -> (r: Result<Event, DecodeError>)
        ensures
            match decoded(text@) {
                Some(e) => r matches Ok(event) && event@ == e,
                None => r is Err,
            },
    {
        let chars = to_chars(text);
        proof {
            lemma_read_event_decodes(text@);
        }
        match read_fields(&chars) {
            Some(event) => Ok(event),
            None => Err(DecodeError),
        }
    }

    /// The wire form of the event, as the bytes to send.
    pub fn encode_bytes(&self) -> (bytes: Vec<u8>)
        ensures
            bytes@ == wire_bytes(self@),
    {
        self.encode().as_str().as_bytes_vec()
    }

    /// The event that the bytes are the wire form of. Bytes that are no
    /// UTF-8, and bytes that are the wire form of no event, are refused.
    pub fn decode_bytes(bytes: &[u8]) -> (r: Result<Event, DecodeError>)
        ensures
            match decoded_bytes(bytes@) {
                Some(e) => r matches Ok(event) && event@ == e,
                None => r is Err,
            },
    {
        match core::str::from_utf8(bytes) {
            Ok(text) => {
                proof {
                    encode_utf8_valid_utf8(text@);
                    encode_utf8_decode_utf8(text@);
                }
                Event::decode(text)
            },
            Err(_) => Err(DecodeError),
        }
    }
}

} // verus!
