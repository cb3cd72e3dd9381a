//! Pianobar event info.
//!
//! Pianobar hands its event command a text of `key=value` lines, followed by
//! the station list in the form of an array:
//!
//! ```text
//! artist=Count Basie
//! title=Splanky
//! stationCount=2
//! station0=Jazz Radio
//! station1=Blues Radio
//! ```
//!
//! `parse_info` says what record such a text stands for, and
//! `Info::from_str` computes it.

use vstd::prelude::*;
use vstd::string::StringExecFns;
use crate::decimal::{parse_decimal, parse_i32};
use crate::text::{
    all_fit, find, find_first, index_of, line_spans, lines, optional_view, span_equals,
    split_once, strings_view, substring, texts_of, to_chars, Span,
};

verus! {

/// The status of pianobar's calls to the Pandora API.
#[derive(Debug, Clone, PartialEq, Eq)]
pub struct PianobarStatus {
    pub code: i32,
    pub message: String,
}

/// The status of pianobar's HTTP requests.
#[derive(Debug, Clone, PartialEq, Eq)]
pub struct CurlStatus {
    pub code: i32,
    pub message: String,
}

/// Metadata about the currently playing song, in seconds.
#[derive(Debug, Clone, Copy, PartialEq, Eq)]
pub struct Song {
    pub duration: i32,
    pub played: i32,
}

/// Pianobar event info.
#[derive(Debug, Clone, PartialEq, Eq)]
pub struct Info {
    pub artist: Option<String>,
    pub title: Option<String>,
    pub album: Option<String>,
    pub cover_art: Option<String>,
    pub station_name: Option<String>,
    pub song_station_name: Option<String>,
    pub pianobar_status: PianobarStatus,
    pub curl_status: CurlStatus,
    pub song: Song,
    pub rating: i32,
    pub detail_url: Option<String>,
    pub stations: Vec<String>,
}

/// An error which can be returned when parsing event info.
#[derive(Debug, Clone, Copy, PartialEq, Eq)]
pub struct ParseInfoError;

/// A status as a value: its code and the characters of its message.
pub struct StatusView {
    pub code: i32,
    pub message: Seq<char>,
}

/// An `Info` as a value, every string by its characters.
pub struct InfoView {
    pub artist: Option<Seq<char>>,
    pub title: Option<Seq<char>>,
    pub album: Option<Seq<char>>,
    pub cover_art: Option<Seq<char>>,
    pub station_name: Option<Seq<char>>,
    pub song_station_name: Option<Seq<char>>,
    pub pianobar_status: StatusView,
    pub curl_status: StatusView,
    pub song: Song,
    pub rating: i32,
    pub detail_url: Option<Seq<char>>,
    pub stations: Seq<Seq<char>>,
}

impl View for PianobarStatus {
    type V = StatusView;

    open spec fn view(&self) -> StatusView {
        StatusView { code: self.code, message: self.message@ }
    }
}

impl View for CurlStatus {
    type V = StatusView;

    open spec fn view(&self) -> StatusView {
        StatusView { code: self.code, message: self.message@ }
    }
}

impl View for Info {
    type V = InfoView;

    open spec fn view(&self) -> InfoView {
        InfoView {
            artist: optional_view(self.artist),
            title: optional_view(self.title),
            album: optional_view(self.album),
            cover_art: optional_view(self.cover_art),
            station_name: optional_view(self.station_name),
            song_station_name: optional_view(self.song_station_name),
            pianobar_status: self.pianobar_status@,
            curl_status: self.curl_status@,
            song: self.song,
            rating: self.rating,
            detail_url: optional_view(self.detail_url),
            stations: strings_view(self.stations@),
        }
    }
}

/// The marker that parts the `key=value` lines from the station array.
pub open spec fn station_marker() -> Seq<char> {
    "stationCount="@
}

/// The line is a `key=value` pair with this key.
pub open spec fn has_key(line: Seq<char>, key: Seq<char>) -> bool {
    match split_once(line, '=') {
        Some((k, _)) => k == key,
        None => false,
    }
}

/// What follows the first `=` of a line.
pub open spec fn value_of(line: Seq<char>) -> Seq<char> {
    match split_once(line, '=') {
        Some((_, v)) => v,
        None => Seq::empty(),
    }
}

/// Line `i` is the last one with this key.
pub open spec fn is_last_with_key(ls: Seq<Seq<char>>, key: Seq<char>, i: int) -> bool {
    &&& 0 <= i < ls.len()
    &&& has_key(ls[i], key)
    &&& forall|j: int| i < j < ls.len() ==> !has_key(#[trigger] ls[j], key)
}

/// The value under `key`; of several lines with the key, the last one
/// counts.
pub open spec fn field(ls: Seq<Seq<char>>, key: Seq<char>) -> Option<Seq<char>> {
    if exists|i: int| is_last_with_key(ls, key, i) {
        Some(value_of(ls[choose|i: int| is_last_with_key(ls, key, i)]))
    } else {
        None
    }
}

/// An optional field: absent where no line has the key or its value is
/// empty.
pub open spec fn optional(ls: Seq<Seq<char>>, key: Seq<char>) -> Option<Seq<char>> {
    match field(ls, key) {
        Some(v) => if v.len() > 0 {
            Some(v)
        } else {
            None
        },
        None => None,
    }
}

/// A numeric field: the value under `key` read as an `i32`.
pub open spec fn number(ls: Seq<Seq<char>>, key: Seq<char>) -> Option<i32> {
    match field(ls, key) {
        Some(v) => parse_decimal(v),
        None => None,
    }
}

/// Every line holds a `=`. An empty line holds none.
pub open spec fn all_pairs(ls: Seq<Seq<char>>) -> bool {
    forall|i: int| 0 <= i < ls.len() ==> split_once(#[trigger] ls[i], '=') is Some
}

/// The `key=value` lines of a text whose marker stands at `at`.
pub open spec fn head_lines(text: Seq<char>, at: int) -> Seq<Seq<char>> {
    lines(text.take(at))
}

/// The station lines of a text whose marker stands at `at`: the lines from
/// the marker on, without the first, which holds the count.
pub open spec fn station_lines(text: Seq<char>, at: int) -> Seq<Seq<char>> {
    let all = lines(text.skip(at + station_marker().len()));
    if all.len() > 0 {
        all.drop_first()
    } else {
        all
    }
}

/// The seven mandatory fields are there, the numeric ones as numbers.
pub open spec fn mandatory_present(head: Seq<Seq<char>>) -> bool {
    &&& number(head, "pRet"@) is Some
    &&& field(head, "pRetStr"@) is Some
    &&& number(head, "wRet"@) is Some
    &&& field(head, "wRetStr"@) is Some
    &&& number(head, "songDuration"@) is Some
    &&& number(head, "songPlayed"@) is Some
    &&& number(head, "rating"@) is Some
}

/// The record that the lines hold, where they hold one.
pub open spec fn info_of(head: Seq<Seq<char>>, stations: Seq<Seq<char>>) -> Option<InfoView> {
    if all_pairs(head) && all_pairs(stations) && mandatory_present(head) {
        Some(
            InfoView {
                artist: optional(head, "artist"@),
                title: optional(head, "title"@),
                album: optional(head, "album"@),
                cover_art: optional(head, "coverArt"@),
                station_name: optional(head, "stationName"@),
                song_station_name: optional(head, "songStationName"@),
                pianobar_status: StatusView {
                    code: number(head, "pRet"@)->0,
                    message: field(head, "pRetStr"@)->0,
                },
                curl_status: StatusView {
                    code: number(head, "wRet"@)->0,
                    message: field(head, "wRetStr"@)->0,
                },
                song: Song {
                    duration: number(head, "songDuration"@)->0,
                    played: number(head, "songPlayed"@)->0,
                },
                rating: number(head, "rating"@)->0,
                detail_url: optional(head, "detailUrl"@),
                stations: Seq::new(stations.len(), |i: int| value_of(stations[i])),
            },
        )
    } else {
        None
    }
}

/// The record that an event info text stands for. The text is cut at the
/// first `stationCount=`; without one it stands for nothing. It stands for
/// nothing either if a line on either side holds no `=`, if a mandatory key
/// is missing, or if the value of a numeric key is no number.
pub open spec fn parse_info(text: Seq<char>) -> Option<InfoView> {
    match find(text, station_marker()) {
        Some(at) => info_of(head_lines(text, at), station_lines(text, at)),
        None => None,
    }
}

/// Whether a string holds at least one character.
pub fn not_empty(string: &String) -> (r: bool)
    ensures
        r == (string@.len() > 0),
{
    !string.as_str().is_empty()
}

/// A `key=value` line, as the spans of its two halves.
#[derive(Clone, Copy, Debug)]
pub(crate) struct Field {
    pub key: Span,
    pub value: Span,
}

/// The fields are the halves of the lines, one for one.
pub(crate) open spec fn fields_match(
    text: Seq<char>,
    fields: Seq<Field>,
    ls: Seq<Seq<char>>,
) -> bool {
    &&& fields.len() == ls.len()
    &&& forall|k: int|
        0 <= k < fields.len() ==> {
            &&& (#[trigger] fields[k]).key.fits(text.len())
            &&& fields[k].value.fits(text.len())
            &&& split_once(ls[k], '=') == Some((fields[k].key.of(text), fields[k].value.of(text)))
        }
}

/// Splits each line from `from` on at its first `=`; `None` where a line has
/// none.
fn split_fields(chars: &Vec<char>, spans: &Vec<Span>, from: usize) -> (r: Option<Vec<Field>>)
    requires
        all_fit(spans@, chars@.len()),
        from <= spans.len(),
    ensures
        match r {
            Some(fields) => {
                &&& all_pairs(texts_of(chars@, spans@).skip(from as int))
                &&& fields_match(chars@, fields@, texts_of(chars@, spans@).skip(from as int))
            },
            None => !all_pairs(texts_of(chars@, spans@).skip(from as int)),
        },
{
    let ghost ls = texts_of(chars@, spans@).skip(from as int);
    let mut fields: Vec<Field> = Vec::new();
    let mut k: usize = from;
    while k < spans.len()
        invariant
            all_fit(spans@, chars@.len()),
            from <= k <= spans.len(),
            ls == texts_of(chars@, spans@).skip(from as int),
            fields.len() == k - from,
            forall|j: int|
                0 <= j < fields.len() ==> {
                    &&& (#[trigger] fields[j]).key.fits(chars@.len())
                    &&& fields[j].value.fits(chars@.len())
                    &&& split_once(ls[j], '=') == Some(
                        (fields[j].key.of(chars@), fields[j].value.of(chars@)),
                    )
                },
        decreases spans.len() - k,
    {
        let line = spans[k];
        assert(ls[k - from] == line.of(chars@));
        match index_of(chars, line, '=') {
            None => {
                return None;
            },
            Some(eq) => {
                let f = Field {
                    key: Span { start: line.start, end: eq },
                    value: Span { start: eq + 1, end: line.end },
                };
                fields.push(f);
            },
        }
        k = k + 1;
    }
    proof {
        assert forall|i: int| 0 <= i < ls.len() implies split_once(#[trigger] ls[i], '=')
            is Some by {
            assert(fields[i].key.fits(chars@.len()));
        }
    }
    Some(fields)
}

/// The value of the last field whose key is `key`.
fn lookup(
    chars: &Vec<char>,
    fields: &Vec<Field>,
    key: &str,
    Ghost(ls): Ghost<Seq<Seq<char>>>,
) -> (r: Option<Span>)
    requires
        fields_match(chars@, fields@, ls),
    ensures
        match r {
            Some(span) => span.fits(chars@.len()) && field(ls, key@) == Some(span.of(chars@)),
            None => field(ls, key@) is None,
        },
{
    let key_chars = to_chars(key);
    let mut k: usize = fields.len();
    while k > 0
        invariant
            fields_match(chars@, fields@, ls),
            key_chars@ == key@,
            0 <= k <= fields.len(),
            forall|j: int| k <= j < ls.len() ==> !has_key(#[trigger] ls[j], key@),
        decreases k,
    {
        k = k - 1;
        let f = fields[k];
        if span_equals(chars, f.key, &key_chars) {
            assert(is_last_with_key(ls, key@, k as int));
            return Some(f.value);
        }
    }
    None
}

/// The text under `key`, if a line has the key.
fn text_field(
    chars: &Vec<char>,
    fields: &Vec<Field>,
    key: &str,
    Ghost(ls): Ghost<Seq<Seq<char>>>,
) -> (r: Option<String>)
    requires
        fields_match(chars@, fields@, ls),
    ensures
        optional_view(r) == field(ls, key@),
{
    match lookup(chars, fields, key, Ghost(ls)) {
        Some(span) => Some(substring(chars, span)),
        None => None,
    }
}

/// The text under `key`, if a line has the key and a value that is not
/// empty.
fn optional_field(
    chars: &Vec<char>,
    fields: &Vec<Field>,
    key: &str,
    Ghost(ls): Ghost<Seq<Seq<char>>>,
) -> (r: Option<String>)
    requires
        fields_match(chars@, fields@, ls),
    ensures
        optional_view(r) == optional(ls, key@),
{
    match text_field(chars, fields, key, Ghost(ls)) {
        Some(text) => if not_empty(&text) {
            Some(text)
        } else {
            None
        },
        None => None,
    }
}

/// The number under `key`, if a line has the key and its value is one.
fn number_field(
    chars: &Vec<char>,
    fields: &Vec<Field>,
    key: &str,
    Ghost(ls): Ghost<Seq<Seq<char>>>,
) -> (r: Option<i32>)
    requires
        fields_match(chars@, fields@, ls),
    ensures
        r == number(ls, key@),
{
    match lookup(chars, fields, key, Ghost(ls)) {
        Some(span) => parse_i32(chars, span),
        None => None,
    }
}

/// The values of the fields, in order.
fn field_values(
    chars: &Vec<char>,
    fields: &Vec<Field>,
    Ghost(ls): Ghost<Seq<Seq<char>>>,
) -> (r: Vec<String>)
    requires
        fields_match(chars@, fields@, ls),
    ensures
        strings_view(r@) == Seq::new(ls.len(), |i: int| value_of(ls[i])),
{
    let mut values: Vec<String> = Vec::new();
    let mut k: usize = 0;
    while k < fields.len()
        invariant
            fields_match(chars@, fields@, ls),
            0 <= k <= fields.len(),
            values.len() == k,
            forall|j: int| 0 <= j < k ==> (#[trigger] values[j])@ == value_of(ls[j]),
        decreases fields.len() - k,
    {
        let f = fields[k];
        values.push(substring(chars, f.value));
        k = k + 1;
    }
    values
}

impl ParseInfoError {
    /// What the error says.
    pub fn message(&self) -> (r: String)
        ensures
            r@ == "Invalid info"@,
    {
        String::from_str("Invalid info")
    }
}

impl Info {
    /// Reads an event info text.
    pub fn from_str(input: &str) -> (r: Result<Info, ParseInfoError>)
        ensures
            match parse_info(input@) {
                Some(v) => r matches Ok(info) && info@ == v,
                None => r is Err,
            },
    {
        let chars = to_chars(input);
        let marker = to_chars("stationCount=");
        let at = match find_first(&chars, &marker) {
            Some(at) => at,
            None => {
                return Err(ParseInfoError);
            },
        };
        let ghost head = head_lines(input@, at as int);
        let ghost tail = station_lines(input@, at as int);
        let head_spans = line_spans(&chars, Span { start: 0, end: at });
        let tail_spans = line_spans(&chars, Span { start: at + marker.len(), end: chars.len() });
        assert(texts_of(chars@, head_spans@).skip(0) == head);
        let first: usize = if tail_spans.len() > 0 {
            1
        } else {
            0
        };
        let fields = match split_fields(&chars, &head_spans, 0) {
            Some(fields) => fields,
            None => {
                return Err(ParseInfoError);
            },
        };
        let station_fields = match split_fields(&chars, &tail_spans, first) {
            Some(fields) => fields,
            None => {
                return Err(ParseInfoError);
            },
        };
        let artist = optional_field(&chars, &fields, "artist", Ghost(head));
        let title = optional_field(&chars, &fields, "title", Ghost(head));
        let album = optional_field(&chars, &fields, "album", Ghost(head));
        let cover_art = optional_field(&chars, &fields, "coverArt", Ghost(head));
        let station_name = optional_field(&chars, &fields, "stationName", Ghost(head));
        let song_station_name = optional_field(&chars, &fields, "songStationName", Ghost(head));
        let detail_url = optional_field(&chars, &fields, "detailUrl", Ghost(head));
        let p_ret = number_field(&chars, &fields, "pRet", Ghost(head));
        let p_ret_str = text_field(&chars, &fields, "pRetStr", Ghost(head));
        let w_ret = number_field(&chars, &fields, "wRet", Ghost(head));
        let w_ret_str = text_field(&chars, &fields, "wRetStr", Ghost(head));
        let duration = number_field(&chars, &fields, "songDuration", Ghost(head));
        let played = number_field(&chars, &fields, "songPlayed", Ghost(head));
        let rating = number_field(&chars, &fields, "rating", Ghost(head));
        match (p_ret, p_ret_str, w_ret, w_ret_str, duration, played, rating) {
            (
                Some(p_ret),
                Some(p_ret_str),
                Some(w_ret),
                Some(w_ret_str),
                Some(duration),
                Some(played),
                Some(rating),
            ) => {
                let stations = field_values(&chars, &station_fields, Ghost(tail));
                Ok(
                    Info {
                        artist,
                        title,
                        album,
                        cover_art,
                        station_name,
                        song_station_name,
                        pianobar_status: PianobarStatus { code: p_ret, message: p_ret_str },
                        curl_status: CurlStatus { code: w_ret, message: w_ret_str },
                        song: Song { duration, played },
                        rating,
                        detail_url,
                        stations,
                    },
                )
            },
            _ => Err(ParseInfoError),
        }
    }
}

impl std::str::FromStr for Info {
    type Err = ParseInfoError;

    /// Reads an event info text, as `Info::from_str` does.
    fn from_str(input: &str) -> (r: Result<Info, ParseInfoError>)
        ensures
            match parse_info(input@) {
                Some(v) => r matches Ok(info) && info@ == v,
                None => r is Err,
            },
    {
        Info::from_str(input)
    }
}

/// The `key=value` lines of a text: those before its marker.
pub open spec fn scalar_lines(text: Seq<char>) -> Seq<Seq<char>> {
    match find(text, station_marker()) {
        Some(at) => head_lines(text, at),
        None => Seq::empty(),
    }
}

/// The station lines of a text: those after the line of its marker.
pub open spec fn array_lines(text: Seq<char>) -> Seq<Seq<char>> {
    match find(text, station_marker()) {
        Some(at) => station_lines(text, at),
        None => Seq::empty(),
    }
}

/// `key` is one of the seven keys that every event info must hold.
pub open spec fn is_mandatory_key(key: Seq<char>) -> bool {
    ||| key == "pRet"@
    ||| key == "pRetStr"@
    ||| key == "wRet"@
    ||| key == "wRetStr"@
    ||| key == "songDuration"@
    ||| key == "songPlayed"@
    ||| key == "rating"@
}

/// `key` is one of the five mandatory keys whose value is a number.
pub open spec fn is_numeric_key(key: Seq<char>) -> bool {
    ||| key == "pRet"@
    ||| key == "wRet"@
    ||| key == "songDuration"@
    ||| key == "songPlayed"@
    ||| key == "rating"@
}

/// Parsing is all or nothing: a text in which a mandatory key is missing, or
/// in which the value of a numeric one is no number, stands for no record.
pub proof fn lemma_mandatory_or_nothing(text: Seq<char>, key: Seq<char>)
    requires
        is_mandatory_key(key),
        field(scalar_lines(text), key) is None || (is_numeric_key(key) && number(
            scalar_lines(text),
            key,
        ) is None),
    ensures
        parse_info(text) is None,
{
}

/// The mandatory fields of a record are the values under their keys.
pub proof fn lemma_mandatory_fields(text: Seq<char>)
    ensures
        parse_info(text) matches Some(info) ==> {
            let head = scalar_lines(text);
            &&& number(head, "pRet"@) == Some(info.pianobar_status.code)
            &&& field(head, "pRetStr"@) == Some(info.pianobar_status.message)
            &&& number(head, "wRet"@) == Some(info.curl_status.code)
            &&& field(head, "wRetStr"@) == Some(info.curl_status.message)
            &&& number(head, "songDuration"@) == Some(info.song.duration)
            &&& number(head, "songPlayed"@) == Some(info.song.played)
            &&& number(head, "rating"@) == Some(info.rating)
        },
{
}

/// An optional field is absent where no line has its key and where the value
/// under the key is empty; otherwise it is that value. So no optional field
/// of a record holds an empty string.
pub proof fn lemma_optional_fields(text: Seq<char>)
    ensures
        forall|ls: Seq<Seq<char>>, key: Seq<char>| #[trigger]
            optional(ls, key) == match field(ls, key) {
                None => None,
                Some(v) => if v.len() == 0 {
                    None
                } else {
                    Some(v)
                },
            },
        parse_info(text) matches Some(info) ==> {
            let head = scalar_lines(text);
            &&& info.artist == optional(head, "artist"@)
            &&& info.title == optional(head, "title"@)
            &&& info.album == optional(head, "album"@)
            &&& info.cover_art == optional(head, "coverArt"@)
            &&& info.station_name == optional(head, "stationName"@)
            &&& info.song_station_name == optional(head, "songStationName"@)
            &&& info.detail_url == optional(head, "detailUrl"@)
            &&& info.normalized()
        },
{
}

/// The stations of a record are the values of the station lines, as many
/// and in the same order, whatever count the marker line gives.
pub proof fn lemma_stations_in_order(text: Seq<char>)
    ensures
        parse_info(text) matches Some(info) ==> {
            &&& info.stations.len() == array_lines(text).len()
            &&& forall|i: int|
                0 <= i < info.stations.len() ==> #[trigger] info.stations[i] == value_of(
                    array_lines(text)[i],
                )
        },
{
}

impl InfoView {
    /// No optional field holds an empty string.
    pub open spec fn normalized(self) -> bool {
        &&& self.artist != Some(Seq::<char>::empty())
        &&& self.title != Some(Seq::<char>::empty())
        &&& self.album != Some(Seq::<char>::empty())
        &&& self.cover_art != Some(Seq::<char>::empty())
        &&& self.station_name != Some(Seq::<char>::empty())
        &&& self.song_station_name != Some(Seq::<char>::empty())
        &&& self.detail_url != Some(Seq::<char>::empty())
    }
}

} // verus!
