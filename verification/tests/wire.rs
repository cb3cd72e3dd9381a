use hope::event::Event;
use hope::eventcmd::EventCmd;
use hope::info::{CurlStatus, Info, PianobarStatus, Song};
use hope::wire::DecodeError;

fn minimal_info() -> Info {
    Info {
        artist: None,
        title: None,
        album: None,
        cover_art: None,
        station_name: None,
        song_station_name: None,
        pianobar_status: PianobarStatus { code: 1, message: "OK".to_string() },
        curl_status: CurlStatus { code: 0, message: "OK".to_string() },
        song: Song { duration: 0, played: 0 },
        rating: 0,
        detail_url: None,
        stations: Vec::new(),
    }
}

fn songstart() -> Event {
    Event {
        eventcmd: EventCmd::SongStart,
        info: Info {
            artist: Some("Count Basie".to_string()),
            title: Some("Splanky".to_string()),
            album: Some("The Atomic Mr Basie".to_string()),
            cover_art: None,
            station_name: Some("Jazz Radio".to_string()),
            song_station_name: None,
            pianobar_status: PianobarStatus { code: 1, message: "OK".to_string() },
            curl_status: CurlStatus { code: 0, message: "OK".to_string() },
            song: Song { duration: 245, played: 12 },
            rating: 3,
            detail_url: Some("http://www.pandora.com/splanky".to_string()),
            stations: vec!["Jazz Radio".to_string(), "Blues Radio".to_string()],
        },
    }
}

const SONGSTART_TEXT: &str = "{\"eventcmd\":\"songstart\",\"info\":{\"artist\":\"Count Basie\",\"title\":\"Splanky\",\"album\":\"The Atomic Mr Basie\",\"cover_art\":null,\"station_name\":\"Jazz Radio\",\"song_station_name\":null,\"pianobar_status\":{\"code\":1,\"message\":\"OK\"},\"curl_status\":{\"code\":0,\"message\":\"OK\"},\"song\":{\"duration\":245,\"played\":12},\"rating\":3,\"detail_url\":\"http://www.pandora.com/splanky\",\"stations\":[\"Jazz Radio\",\"Blues Radio\"]}}";

const MINIMAL_TEXT: &str = "{\"eventcmd\":\"userlogin\",\"info\":{\"artist\":null,\"title\":null,\"album\":null,\"cover_art\":null,\"station_name\":null,\"song_station_name\":null,\"pianobar_status\":{\"code\":1,\"message\":\"OK\"},\"curl_status\":{\"code\":0,\"message\":\"OK\"},\"song\":{\"duration\":0,\"played\":0},\"rating\":0,\"detail_url\":null,\"stations\":[]}}";

/// Events whose strings and numbers lie at the edges of what is written.
fn awkward_events() -> Vec<Event> {
    let texts = [
        "",
        " ",
        "\"",
        "\\",
        "\\\"",
        "\\u0041",
        "null",
        "a\"b\\c/d",
        "line\nfeed\rreturn\ttab",
        "\u{0}\u{1}\u{7}\u{8}\u{b}\u{c}\u{e}\u{1f}",
        "\u{7f}\u{80}\u{9f}",
        "Sigur Rós · Ágætis byrjun 🎵",
        "\u{2028}\u{2029}\u{feff}\u{10ffff}",
        "],\"stations\":[",
        "}}",
    ];
    let numbers = [0, 1, -1, 9, 10, -10, 245, i32::MAX, i32::MIN, i32::MIN + 1];
    let mut events = Vec::new();
    for (i, text) in texts.iter().enumerate() {
        let number = numbers[i % numbers.len()];
        let mut event = songstart();
        event.info.artist = Some(text.to_string());
        event.info.song_station_name = Some(text.to_string());
        event.info.pianobar_status.message = text.to_string();
        event.info.curl_status.code = number;
        event.info.song.played = number;
        event.info.rating = -number.saturating_abs();
        event.info.stations = vec![text.to_string(), String::new(), text.to_string()];
        events.push(event);
    }
    for number in numbers {
        let mut event = Event { eventcmd: EventCmd::StationDeleteStationSeed, info: minimal_info() };
        event.info.pianobar_status.code = number;
        event.info.song.duration = number;
        event.info.stations = vec![number.to_string()];
        events.push(event);
    }
    events
}

#[test]
fn songstart_is_written_field_by_field() {
    assert_eq!(songstart().encode(), SONGSTART_TEXT);
}

#[test]
fn minimal_event_is_written_with_nulls_and_an_empty_list() {
    let event = Event { eventcmd: EventCmd::UserLogin, info: minimal_info() };
    assert_eq!(event.encode(), MINIMAL_TEXT);
}

#[test]
fn written_texts_decode() {
    assert_eq!(Event::decode(SONGSTART_TEXT), Ok(songstart()));
    assert_eq!(
        Event::decode(MINIMAL_TEXT),
        Ok(Event { eventcmd: EventCmd::UserLogin, info: minimal_info() })
    );
}

#[test]
fn decode_inverts_encode() {
    for event in awkward_events() {
        let text = event.encode();
        assert_eq!(Event::decode(&text), Ok(event), "{text}");
    }
}

#[test]
fn decode_inverts_encode_for_every_eventcmd() {
    let tokens = [
        "artistbookmark", "settingschange", "settingsget", "songban", "songbookmark",
        "songexplain", "songfinish", "songlove", "songshelf", "songstart", "stationaddgenre",
        "stationaddmusic", "stationaddshared", "stationcreate", "stationdelete",
        "stationdeleteartistseed", "stationdeletefeedback", "stationdeletesongseed",
        "stationdeletestationseed", "stationfetchgenre", "stationfetchinfo",
        "stationfetchplaylist", "stationgetmodes", "stationquickmixtoggle", "stationrename",
        "stationsetmode", "usergetstations", "userlogin",
    ];
    for token in tokens {
        let eventcmd = EventCmd::from_str(token).expect("a token of the set");
        let event = Event { eventcmd, info: songstart().info };
        let text = event.encode();
        assert!(text.starts_with(&format!("{{\"eventcmd\":\"{token}\",")));
        assert_eq!(Event::decode(&text), Ok(event));
    }
}

#[test]
fn some_of_an_empty_string_is_not_none() {
    let mut event = songstart();
    event.info.album = Some(String::new());
    let text = event.encode();
    assert!(text.contains("\"album\":\"\","));
    assert_eq!(Event::decode(&text).expect("written by encode").info.album, Some(String::new()));
}

#[test]
fn control_characters_are_escaped() {
    let mut event = Event { eventcmd: EventCmd::SongStart, info: minimal_info() };
    event.info.title = Some("\u{0}\u{8}\t\n\u{b}\u{c}\r\u{1f} \"\\\u{7f}".to_string());
    let text = event.encode();
    assert!(text.contains(
        "\"title\":\"\\u0000\\b\\t\\n\\u000b\\f\\r\\u001f \\\"\\\\\u{7f}\""
    ));
}

#[test]
fn numbers_are_written_in_shortest_decimal() {
    let mut event = Event { eventcmd: EventCmd::SongStart, info: minimal_info() };
    event.info.pianobar_status.code = i32::MIN;
    event.info.curl_status.code = i32::MAX;
    event.info.song = Song { duration: -1, played: 1000 };
    event.info.rating = 0;
    let text = event.encode();
    assert!(text.contains("\"pianobar_status\":{\"code\":-2147483648,"));
    assert!(text.contains("\"curl_status\":{\"code\":2147483647,"));
    assert!(text.contains("\"song\":{\"duration\":-1,\"played\":1000}"));
    assert!(text.contains("\"rating\":0,"));
}

#[test]
fn encoded_text_is_the_json_that_serde_json_reads() {
    for event in awkward_events() {
        let text = event.encode();
        let value: serde_json::Value = serde_json::from_str(&text).expect("valid JSON");
        assert_eq!(value["eventcmd"].as_str(), Some(event.eventcmd.as_str()));
        let info = &value["info"];
        assert_eq!(info.as_object().expect("an object").len(), 12);
        assert_eq!(info["artist"].as_str(), event.info.artist.as_deref());
        assert_eq!(info["title"].as_str(), event.info.title.as_deref());
        assert_eq!(info["album"].as_str(), event.info.album.as_deref());
        assert_eq!(info["cover_art"].as_str(), event.info.cover_art.as_deref());
        assert!(info["cover_art"].is_null());
        assert_eq!(info["station_name"].as_str(), event.info.station_name.as_deref());
        assert_eq!(info["song_station_name"].as_str(), event.info.song_station_name.as_deref());
        assert_eq!(info["detail_url"].as_str(), event.info.detail_url.as_deref());
        let status = &info["pianobar_status"];
        assert_eq!(status["code"].as_i64(), Some(event.info.pianobar_status.code as i64));
        assert_eq!(status["message"].as_str(), Some(event.info.pianobar_status.message.as_str()));
        let status = &info["curl_status"];
        assert_eq!(status["code"].as_i64(), Some(event.info.curl_status.code as i64));
        assert_eq!(status["message"].as_str(), Some(event.info.curl_status.message.as_str()));
        assert_eq!(info["song"]["duration"].as_i64(), Some(event.info.song.duration as i64));
        assert_eq!(info["song"]["played"].as_i64(), Some(event.info.song.played as i64));
        assert_eq!(info["rating"].as_i64(), Some(event.info.rating as i64));
        let stations: Vec<String> = info["stations"]
            .as_array()
            .expect("an array")
            .iter()
            .map(|station| station.as_str().expect("a string").to_string())
            .collect();
        assert_eq!(stations, event.info.stations);
    }
}

/// The wire form of an event, every string and number written by serde_json.
fn written_by_serde_json(event: &Event) -> String {
    let text = |s: &str| serde_json::to_string(s).expect("a string");
    let optional = |s: &Option<String>| serde_json::to_string(s).expect("an optional string");
    let number = |n: i32| serde_json::to_string(&n).expect("a number");
    let info = &event.info;
    format!(
        "{{\"eventcmd\":{},\"info\":{{\"artist\":{},\"title\":{},\"album\":{},\"cover_art\":{},\"station_name\":{},\"song_station_name\":{},\"pianobar_status\":{{\"code\":{},\"message\":{}}},\"curl_status\":{{\"code\":{},\"message\":{}}},\"song\":{{\"duration\":{},\"played\":{}}},\"rating\":{},\"detail_url\":{},\"stations\":{}}}}}",
        text(event.eventcmd.as_str()),
        optional(&info.artist),
        optional(&info.title),
        optional(&info.album),
        optional(&info.cover_art),
        optional(&info.station_name),
        optional(&info.song_station_name),
        number(info.pianobar_status.code),
        text(&info.pianobar_status.message),
        number(info.curl_status.code),
        text(&info.curl_status.message),
        number(info.song.duration),
        number(info.song.played),
        number(info.rating),
        optional(&info.detail_url),
        serde_json::to_string(&info.stations).expect("a list of strings"),
    )
}

#[test]
fn strings_and_numbers_are_written_as_serde_json_writes_them() {
    for event in awkward_events() {
        let expected = written_by_serde_json(&event);
        assert_eq!(event.encode(), expected);
        assert_eq!(Event::decode(&expected), Ok(event));
    }
}

#[test]
fn every_single_character_is_written_as_serde_json_writes_it() {
    let mut codes: Vec<u32> = (0..0x300).collect();
    codes.extend([0xd7ff, 0xe000, 0xfffd, 0xffff, 0x10000, 0x10ffff]);
    for code in codes {
        let c = char::from_u32(code).expect("a scalar value");
        let mut event = Event { eventcmd: EventCmd::SongLove, info: minimal_info() };
        event.info.title = Some(c.to_string());
        let text = event.encode();
        assert_eq!(text, written_by_serde_json(&event), "{code:#x}");
        assert_eq!(Event::decode(&text), Ok(event), "{code:#x}");
    }
}

#[test]
fn text_that_is_no_json_is_rejected() {
    for text in ["", " ", "lolwut", "{", "}", "{}", "[]", "null", "\"songstart\"", "{\"eventcmd\":"] {
        assert_eq!(Event::decode(text), Err(DecodeError), "{text:?}");
    }
}

#[test]
fn unknown_eventcmd_is_rejected() {
    for token in ["lolwut", "", "SongStart", "songstart "] {
        let text = SONGSTART_TEXT.replace("\"songstart\"", &format!("\"{token}\""));
        assert_eq!(Event::decode(&text), Err(DecodeError), "{token:?}");
    }
}

#[test]
fn every_cut_of_a_valid_text_is_rejected() {
    let chars: Vec<char> = SONGSTART_TEXT.chars().collect();
    for end in 0..chars.len() {
        let cut: String = chars[..end].iter().collect();
        assert_eq!(Event::decode(&cut), Err(DecodeError), "{cut:?}");
    }
    for start in 1..chars.len() {
        let cut: String = chars[start..].iter().collect();
        assert_eq!(Event::decode(&cut), Err(DecodeError), "{cut:?}");
    }
}

#[test]
fn text_around_a_valid_text_is_rejected() {
    for (before, after) in [("", " "), (" ", ""), ("", "\n"), ("", "}"), ("{", ""), ("", "x")] {
        let text = format!("{before}{SONGSTART_TEXT}{after}");
        assert_eq!(Event::decode(&text), Err(DecodeError), "{text:?}");
    }
    let twice = format!("{SONGSTART_TEXT}{SONGSTART_TEXT}");
    assert_eq!(Event::decode(&twice), Err(DecodeError));
}

#[test]
fn another_way_to_write_the_same_json_is_rejected() {
    let changes = [
        ("{\"eventcmd\":", "{ \"eventcmd\":"),
        ("\"eventcmd\":\"", "\"eventcmd\": \""),
        ("\"rating\":3", "\"rating\":03"),
        ("\"rating\":3", "\"rating\":+3"),
        ("\"rating\":3", "\"rating\":3.0"),
        ("\"rating\":3", "\"rating\":\"3\""),
        ("\"rating\":3", "\"rating\":null"),
        ("\"rating\":3", "\"rating\":2147483648"),
        ("\"code\":0", "\"code\":-0"),
        ("\"played\":12", "\"played\":12e0"),
        ("\"Splanky\"", "\"Spl\\u0061nky\""),
        ("\"Splanky\"", "\"Splanky\\/\""),
        ("\"Splanky\"", "\"Splanky\\x\""),
        ("\"Splanky\"", "\"Splanky\\u000A\""),
        ("\"Splanky\"", "\"Splanky\\u000a\""),
        ("\"Splanky\"", "\"Splanky\n\""),
        ("\"Splanky\"", "\"Splanky"),
        ("\"Splanky\"", "Splanky"),
        ("\"Splanky\"", "[\"Splanky\"]"),
        ("\"cover_art\":null", "\"cover_art\":NULL"),
        ("\"cover_art\":null", "\"cover_art\":nul"),
        ("\"cover_art\":null,", ""),
        ("\"cover_art\"", "\"coverArt\""),
        ("\"message\":\"OK\"", "\"message\":null"),
        ("[\"Jazz Radio\",\"Blues Radio\"]", "[\"Jazz Radio\", \"Blues Radio\"]"),
        ("[\"Jazz Radio\",\"Blues Radio\"]", "[\"Jazz Radio\",\"Blues Radio\",]"),
        ("[\"Jazz Radio\",\"Blues Radio\"]", "[\"Jazz Radio\"\"Blues Radio\"]"),
        ("[\"Jazz Radio\",\"Blues Radio\"]", "[\"Jazz Radio\",null]"),
        ("[\"Jazz Radio\",\"Blues Radio\"]", "[,]"),
        ("[\"Jazz Radio\",\"Blues Radio\"]", "null"),
        ("\"artist\":\"Count Basie\",\"title\":\"Splanky\"", "\"title\":\"Splanky\",\"artist\":\"Count Basie\""),
        ("}}", "},\"extra\":1}"),
    ];
    for (from, to) in changes {
        assert!(SONGSTART_TEXT.contains(from), "{from}");
        let text = SONGSTART_TEXT.replacen(from, to, 1);
        assert_eq!(Event::decode(&text), Err(DecodeError), "{text}");
    }
}

#[test]
fn bytes_are_the_text_in_utf8() {
    for event in awkward_events() {
        let bytes = event.encode_bytes();
        assert_eq!(bytes, event.encode().into_bytes());
        assert_eq!(Event::decode_bytes(&bytes), Ok(event));
    }
}

#[test]
fn bytes_that_are_no_utf8_are_rejected() {
    let valid = SONGSTART_TEXT.as_bytes();
    assert_eq!(Event::decode_bytes(valid), Ok(songstart()));
    let at = SONGSTART_TEXT.find("Splanky").expect("the title");
    for broken in [&[0xffu8][..], &[0xc3], &[0xc0, 0xaf], &[0xed, 0xa0, 0x80], &[0xf4, 0x90, 0x80, 0x80], &[0x80]] {
        let mut bytes = valid.to_vec();
        for (i, byte) in broken.iter().enumerate() {
            bytes.insert(at + i, *byte);
        }
        assert_eq!(Event::decode_bytes(&bytes), Err(DecodeError), "{broken:x?}");
        assert_eq!(Event::decode_bytes(broken), Err(DecodeError), "{broken:x?}");
    }
}

#[test]
fn bytes_that_are_no_event_are_rejected() {
    assert_eq!(Event::decode_bytes(b""), Err(DecodeError));
    assert_eq!(Event::decode_bytes(b"{}"), Err(DecodeError));
    assert_eq!(Event::decode_bytes("Ünïcödé".as_bytes()), Err(DecodeError));
}

#[test]
fn decode_error_says_invalid_event() {
    assert_eq!(DecodeError.message(), "Invalid event");
}
