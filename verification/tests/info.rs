use hope::info::{not_empty, CurlStatus, Info, ParseInfoError, PianobarStatus, Song};

const SONG_START: &str = "artist=Count Basie
title=Splanky
album=The Atomic Mr Basie
coverArt=http://cont-1.p-cdn.com/images/public/amz/7/6/3/2/724349522367_500W_500H.jpg
stationName=Jazz Radio
songStationName=
pRet=1
pRetStr=OK
wRet=0
wRetStr=OK
songDuration=245
songPlayed=12
rating=3
detailUrl=http://www.pandora.com/count-basie/atomic-mr-basie/splanky
stationCount=2
station0=Jazz Radio
station1=Blues Radio
";

const USER_LOGIN: &str = "artist=
title=
album=
coverArt=
stationName=
songStationName=
pRet=1
pRetStr=Everything is fine :)
wRet=0
wRetStr=No error
songDuration=0
songPlayed=0
rating=0
detailUrl=
stationCount=0
";

const USER_GET_STATIONS: &str = "artist=
title=
album=
coverArt=
stationName=
songStationName=
pRet=1
pRetStr=Everything is fine :)
wRet=0
wRetStr=No error
songDuration=0
songPlayed=0
rating=0
detailUrl=
stationCount=3
station0=2Pac (Tupac) Radio
station1=A Tribe Called Quest Radio
station2=QuickMix
";

const STATION_FETCH_PLAYLIST: &str = "artist=
title=
album=
coverArt=
stationName=A Tribe Called Quest Radio
songStationName=
pRet=1
pRetStr=Everything is fine :)
wRet=0
wRetStr=No error
songDuration=0
songPlayed=0
rating=0
detailUrl=
stationCount=2
station0=2Pac (Tupac) Radio
station1=A Tribe Called Quest Radio
";

/// A text with the mandatory keys only, each on its own line.
fn minimal_with(replaced: &str, line: Option<&str>) -> String {
    let lines = [
        ("pRet", "pRet=1"),
        ("pRetStr", "pRetStr=OK"),
        ("wRet", "wRet=0"),
        ("wRetStr", "wRetStr=OK"),
        ("songDuration", "songDuration=245"),
        ("songPlayed", "songPlayed=12"),
        ("rating", "rating=3"),
    ];
    let mut text = String::new();
    for (key, given) in lines {
        if key == replaced {
            if let Some(line) = line {
                text.push_str(line);
                text.push('\n');
            }
        } else {
            text.push_str(given);
            text.push('\n');
        }
    }
    text.push_str("stationCount=0\n");
    text
}

fn strings(items: &[&str]) -> Vec<String> {
    items.iter().map(|s| s.to_string()).collect()
}

#[test]
fn parse_info_userlogin() {
    let info: Info = USER_LOGIN.parse().expect("Failed to parse info");
    assert_eq!(info.artist, None);
    assert_eq!(info.pianobar_status.message, "Everything is fine :)");
    assert_eq!(info.curl_status.message, "No error");
    assert!(info.stations.is_empty());
}

#[test]
fn parse_info_usergetstations() {
    let info: Info = USER_GET_STATIONS.parse().expect("Failed to parse info");
    assert_eq!(
        info.stations,
        strings(&["2Pac (Tupac) Radio", "A Tribe Called Quest Radio", "QuickMix"])
    );
}

#[test]
fn parse_info_songstart() {
    let info: Info = SONG_START.parse().expect("Failed to parse info");
    assert_eq!(info.album, Some("The Atomic Mr Basie".to_string()));
}

#[test]
fn parse_info_stationfetchplaylist() {
    let info: Info = STATION_FETCH_PLAYLIST.parse().expect("Failed to parse info");
    assert_eq!(info.station_name, Some("A Tribe Called Quest Radio".to_string()));
}

#[test]
fn songstart_fixture_yields_every_field() {
    let info = Info::from_str(SONG_START).expect("the fixture is valid");
    let expected = Info {
        artist: Some("Count Basie".to_string()),
        title: Some("Splanky".to_string()),
        album: Some("The Atomic Mr Basie".to_string()),
        cover_art: Some(
            "http://cont-1.p-cdn.com/images/public/amz/7/6/3/2/724349522367_500W_500H.jpg"
                .to_string(),
        ),
        station_name: Some("Jazz Radio".to_string()),
        song_station_name: None,
        pianobar_status: PianobarStatus { code: 1, message: "OK".to_string() },
        curl_status: CurlStatus { code: 0, message: "OK".to_string() },
        song: Song { duration: 245, played: 12 },
        rating: 3,
        detail_url: Some(
            "http://www.pandora.com/count-basie/atomic-mr-basie/splanky".to_string(),
        ),
        stations: strings(&["Jazz Radio", "Blues Radio"]),
    };
    assert_eq!(info, expected);
}

#[test]
fn songstart_notification_without_optional_lines() {
    let text = "artist=Count Basie\ntitle=Splanky\nrating=3\npRet=1\npRetStr=OK\nwRet=0\nwRetStr=OK\nsongDuration=245\nsongPlayed=12\nstationCount=2\nstation0=Jazz Radio\nstation1=Blues Radio\n";
    let info = Info::from_str(text).expect("the text is valid");
    assert_eq!(info.artist, Some("Count Basie".to_string()));
    assert_eq!(info.title, Some("Splanky".to_string()));
    assert_eq!(info.rating, 3);
    assert_eq!(info.pianobar_status, PianobarStatus { code: 1, message: "OK".to_string() });
    assert_eq!(info.curl_status, CurlStatus { code: 0, message: "OK".to_string() });
    assert_eq!(info.song, Song { duration: 245, played: 12 });
    assert_eq!(info.stations, strings(&["Jazz Radio", "Blues Radio"]));
    assert_eq!(info.album, None);
    assert_eq!(info.detail_url, None);
}

#[test]
fn missing_marker_is_rejected() {
    assert_eq!(Info::from_str("artist=x\n"), Err(ParseInfoError));
    assert_eq!(Info::from_str(""), Err(ParseInfoError));
    let without = SONG_START.replace("stationCount=", "stationcount=");
    assert_eq!(Info::from_str(&without), Err(ParseInfoError));
}

#[test]
fn minimal_text_is_accepted() {
    let info = Info::from_str(&minimal_with("", None)).expect("all mandatory keys are there");
    assert_eq!(info.artist, None);
    assert_eq!(info.rating, 3);
    assert!(info.stations.is_empty());
}

#[test]
fn each_missing_mandatory_key_is_rejected() {
    for key in ["pRet", "pRetStr", "wRet", "wRetStr", "songDuration", "songPlayed", "rating"] {
        assert_eq!(Info::from_str(&minimal_with(key, None)), Err(ParseInfoError), "{key}");
    }
}

#[test]
fn each_malformed_number_is_rejected() {
    for key in ["pRet", "wRet", "songDuration", "songPlayed", "rating"] {
        for value in ["", "x", "1x", " 1", "1 ", "-", "+", "1.0", "2147483648", "-2147483649"] {
            let line = format!("{key}={value}");
            assert_eq!(
                Info::from_str(&minimal_with(key, Some(&line))),
                Err(ParseInfoError),
                "{line}"
            );
        }
    }
}

#[test]
fn numbers_are_read_as_the_standard_library_reads_them() {
    let samples = [
        "0", "-0", "+0", "7", "+7", "-7", "007", "-007", "2147483647", "-2147483648",
        "2147483648", "-2147483649", "99999999999999999999", "00000000000000000000001", "",
        "-", "+", "+-1", "--1", "1-", "12a", "a12", " 12", "12 ", "1_000", "0x10", "١٢",
    ];
    for sample in samples {
        let line = format!("rating={sample}");
        let parsed = Info::from_str(&minimal_with("rating", Some(&line))).map(|info| info.rating);
        let expected = sample.parse::<i32>().map_err(|_| ParseInfoError);
        assert_eq!(parsed, expected, "{sample:?}");
    }
}

#[test]
fn empty_message_is_a_message() {
    let info = Info::from_str(&minimal_with("pRetStr", Some("pRetStr="))).expect("present");
    assert_eq!(info.pianobar_status.message, "");
}

#[test]
fn optional_fields_empty_absent_or_present() {
    let text = format!("artist=\ntitle=Splanky\n{}", minimal_with("", None));
    let info = Info::from_str(&text).expect("valid");
    assert_eq!(info.artist, None);
    assert_eq!(info.title, Some("Splanky".to_string()));
    assert_eq!(info.album, None);
    assert_eq!(info.cover_art, None);
    assert_eq!(info.station_name, None);
    assert_eq!(info.song_station_name, None);
    assert_eq!(info.detail_url, None);
}

#[test]
fn every_optional_key_is_read() {
    let text = format!(
        "artist=a\ntitle=b\nalbum=c\ncoverArt=d\nstationName=e\nsongStationName=f\ndetailUrl=g\n{}",
        minimal_with("", None)
    );
    let info = Info::from_str(&text).expect("valid");
    assert_eq!(info.artist, Some("a".to_string()));
    assert_eq!(info.title, Some("b".to_string()));
    assert_eq!(info.album, Some("c".to_string()));
    assert_eq!(info.cover_art, Some("d".to_string()));
    assert_eq!(info.station_name, Some("e".to_string()));
    assert_eq!(info.song_station_name, Some("f".to_string()));
    assert_eq!(info.detail_url, Some("g".to_string()));
}

#[test]
fn last_of_two_lines_with_one_key_counts() {
    let text = format!("artist=first\nartist=second\nrating=1\n{}", minimal_with("", None));
    let info = Info::from_str(&text).expect("valid");
    assert_eq!(info.artist, Some("second".to_string()));
    assert_eq!(info.rating, 3);
    let text = format!("{}", minimal_with("rating", Some("rating=3\nrating=5")));
    assert_eq!(Info::from_str(&text).expect("valid").rating, 5);
}

#[test]
fn order_of_lines_is_irrelevant_and_unknown_keys_are_ignored() {
    let text = "unknown=1\nrating=3\nsongPlayed=12\nsongDuration=245\nwRetStr=OK\nwRet=0\npRetStr=OK\npRet=1\nstationCount=0\n";
    assert_eq!(Info::from_str(text), Info::from_str(&minimal_with("", None)));
}

#[test]
fn value_is_cut_at_the_first_equals_sign() {
    let text = format!("title=a=b=c\n{}", minimal_with("", None));
    assert_eq!(Info::from_str(&text).expect("valid").title, Some("a=b=c".to_string()));
    let text = "pRet=1\npRetStr=OK\nwRet=0\nwRetStr=OK\nsongDuration=1\nsongPlayed=1\nrating=1\nstationCount=1\nstation0=a=b\n";
    assert_eq!(Info::from_str(text).expect("valid").stations, strings(&["a=b"]));
}

#[test]
fn line_without_equals_sign_is_rejected() {
    let text = format!("artist\n{}", minimal_with("", None));
    assert_eq!(Info::from_str(&text), Err(ParseInfoError));
    let text = format!("\n{}", minimal_with("", None));
    assert_eq!(Info::from_str(&text), Err(ParseInfoError));
    let text = format!("{}station0\n", minimal_with("", None));
    assert_eq!(Info::from_str(&text), Err(ParseInfoError));
    let text = format!("{}station0=a\n\nstation1=b\n", minimal_with("", None));
    assert_eq!(Info::from_str(&text), Err(ParseInfoError));
}

#[test]
fn stations_keep_order_and_count_is_not_checked() {
    let text = "pRet=1\npRetStr=OK\nwRet=0\nwRetStr=OK\nsongDuration=1\nsongPlayed=1\nrating=1\nstationCount=124\nstation0=c\nstation1=a\nstation2=b\nstation3=a\n";
    assert_eq!(Info::from_str(text).expect("valid").stations, strings(&["c", "a", "b", "a"]));
    let text = "pRet=1\npRetStr=OK\nwRet=0\nwRetStr=OK\nsongDuration=1\nsongPlayed=1\nrating=1\nstationCount=nonsense\nx=only\n";
    assert_eq!(Info::from_str(text).expect("valid").stations, strings(&["only"]));
}

#[test]
fn nothing_behind_the_marker_means_no_stations() {
    let text = "pRet=1\npRetStr=OK\nwRet=0\nwRetStr=OK\nsongDuration=1\nsongPlayed=1\nrating=1\nstationCount=";
    assert!(Info::from_str(text).expect("valid").stations.is_empty());
    let text = "pRet=1\npRetStr=OK\nwRet=0\nwRetStr=OK\nsongDuration=1\nsongPlayed=1\nrating=1\nstationCount=2";
    assert!(Info::from_str(text).expect("valid").stations.is_empty());
}

#[test]
fn last_line_needs_no_line_feed() {
    let text = "pRet=1\npRetStr=OK\nwRet=0\nwRetStr=OK\nsongDuration=1\nsongPlayed=1\nrating=1\nstationCount=1\nstation0=Jazz Radio";
    assert_eq!(Info::from_str(text).expect("valid").stations, strings(&["Jazz Radio"]));
}

#[test]
fn carriage_return_before_line_feed_ends_the_line() {
    let text = "artist=Count Basie\r\npRet=1\r\npRetStr=OK\r\nwRet=0\r\nwRetStr=OK\r\nsongDuration=1\r\nsongPlayed=1\r\nrating=1\r\nstationCount=1\r\nstation0=Jazz Radio\r\nstation1=Blues\r";
    let info = Info::from_str(text).expect("valid");
    assert_eq!(info.artist, Some("Count Basie".to_string()));
    assert_eq!(info.rating, 1);
    assert_eq!(info.stations, strings(&["Jazz Radio", "Blues\r"]));
}

#[test]
fn marker_inside_a_value_cuts_the_text_there() {
    let text = format!("{}title=stationCount=3\nstation0=a\n", minimal_with("", None).replace("stationCount=0\n", ""));
    let info = Info::from_str(&text).expect("the first marker cuts");
    assert_eq!(info.title, None);
    assert_eq!(info.stations, strings(&["a"]));
    let text = "title=x\nstationCount=0\nrating=3\n";
    assert_eq!(Info::from_str(text), Err(ParseInfoError));
}

#[test]
fn text_beyond_ascii_is_kept() {
    let text = format!("artist=Sigur Rós\ntitle=Ágætis byrjun 🎵\n{}station0=Ünïcödé\n", minimal_with("", None));
    let info = Info::from_str(&text).expect("valid");
    assert_eq!(info.artist, Some("Sigur Rós".to_string()));
    assert_eq!(info.title, Some("Ágætis byrjun 🎵".to_string()));
    assert_eq!(info.stations, strings(&["Ünïcödé"]));
}

#[test]
fn not_empty_tells_empty_from_filled() {
    assert!(!not_empty(&String::new()));
    assert!(not_empty(&" ".to_string()));
    assert!(not_empty(&"Splanky".to_string()));
}

#[test]
fn parse_info_error_says_invalid_info() {
    assert_eq!(ParseInfoError.message(), "Invalid info");
}

/// The same reading, written with the standard library's string methods.
fn read_with_std(input: &str) -> Result<Info, ParseInfoError> {
    let Some((head, tail)) = input.split_once("stationCount=") else {
        return Err(ParseInfoError);
    };
    let mut fields = std::collections::HashMap::new();
    for line in head.lines() {
        let (key, value) = line.split_once('=').ok_or(ParseInfoError)?;
        fields.insert(key, value.to_string());
    }
    let mut optional = |key: &str| fields.remove(key).filter(|value| !value.is_empty());
    let artist = optional("artist");
    let title = optional("title");
    let album = optional("album");
    let cover_art = optional("coverArt");
    let station_name = optional("stationName");
    let song_station_name = optional("songStationName");
    let detail_url = optional("detailUrl");
    let mut text = |key: &str| fields.remove(key).ok_or(ParseInfoError);
    let p_ret = text("pRet")?.parse().or(Err(ParseInfoError))?;
    let p_ret_str = text("pRetStr")?;
    let w_ret = text("wRet")?.parse().or(Err(ParseInfoError))?;
    let w_ret_str = text("wRetStr")?;
    let duration = text("songDuration")?.parse().or(Err(ParseInfoError))?;
    let played = text("songPlayed")?.parse().or(Err(ParseInfoError))?;
    let rating = text("rating")?.parse().or(Err(ParseInfoError))?;
    let mut stations = Vec::new();
    for line in tail.lines().skip(1) {
        let (_, station) = line.split_once('=').ok_or(ParseInfoError)?;
        stations.push(station.to_string());
    }
    Ok(Info {
        artist,
        title,
        album,
        cover_art,
        station_name,
        song_station_name,
        pianobar_status: PianobarStatus { code: p_ret, message: p_ret_str },
        curl_status: CurlStatus { code: w_ret, message: w_ret_str },
        song: Song { duration, played },
        rating,
        detail_url,
        stations,
    })
}

/// A short valid text with a little of everything.
const SHORT: &str = "artist=Count Basie\r\ntitle=\nrating=3\npRet=-1\npRetStr=OK\nwRet=+0\nwRetStr=\nsongDuration=245\nsongPlayed=012\nrating=4\nstationCount=2\nstation0=Jazz Radio\r\nstation1=Blues=Radio";

#[test]
fn every_small_change_is_read_as_with_the_standard_library() {
    let base: Vec<char> = SHORT.chars().collect();
    let inserted = ['\n', '\r', '=', '-', '+', '0', 'x', ' ', 'é'];
    let mut accepted = 0;
    let mut rejected = 0;
    let mut compare = |chars: &[char]| {
        let text: String = chars.iter().collect();
        let read = Info::from_str(&text);
        assert_eq!(read, read_with_std(&text), "{text:?}");
        if read.is_ok() {
            accepted += 1;
        } else {
            rejected += 1;
        }
    };
    compare(&base);
    for at in 0..=base.len() {
        if at < base.len() {
            let mut without = base.clone();
            without.remove(at);
            compare(&without);
        }
        for c in inserted {
            let mut with = base.clone();
            with.insert(at, c);
            compare(&with);
            if at < base.len() {
                let mut changed = base.clone();
                changed[at] = c;
                compare(&changed);
            }
        }
    }
    assert!(accepted > 500, "{accepted}");
    assert!(rejected > 500, "{rejected}");
}

#[test]
fn every_cut_is_read_as_with_the_standard_library() {
    let doubled = format!("{SHORT}\n{SONG_START}");
    for text in [SHORT, SONG_START, USER_GET_STATIONS, doubled.as_str()] {
        let chars: Vec<char> = text.chars().collect();
        for end in 0..=chars.len() {
            let cut: String = chars[..end].iter().collect();
            assert_eq!(Info::from_str(&cut), read_with_std(&cut), "{cut:?}");
        }
        for start in 0..=chars.len() {
            let cut: String = chars[start..].iter().collect();
            assert_eq!(Info::from_str(&cut), read_with_std(&cut), "{cut:?}");
        }
    }
}
