//! Pianobar event commands.
//!
//! Pianobar names the event that made it call its event command by one of a
//! fixed set of lower-case tokens. `EventCmd` is that set, `EventCmd::token`
//! the token of each member, and `classify` the way back.

use vstd::prelude::*;
use vstd::string::StringExecFns;
use crate::text::str_equal;

verus! {

/// An error which can be returned when parsing an eventcmd. It holds the
/// token that was refused.
#[derive(Debug, Clone, PartialEq, Eq)]
pub struct ParseEventCmdError(pub String);

/// A pianobar eventcmd.
#[derive(Debug, Clone, Copy, PartialEq, Eq, Structural)]
pub enum EventCmd {
    ArtistBookmark,
    SettingsChange,
    SettingsGet,
    SongBan,
    SongBookmark,
    SongExplain,
    SongFinish,
    SongLove,
    SongShelf,
    SongStart,
    StationAddGenre,
    StationAddMusic,
    StationAddShared,
    StationCreate,
    StationDelete,
    StationDeleteArtistSeed,
    StationDeleteFeedback,
    StationDeleteSongSeed,
    StationDeleteStationSeed,
    StationFetchGenre,
    StationFetchInfo,
    StationFetchPlaylist,
    StationGetModes,
    StationQuickMixToggle,
    StationRename,
    StationSetMode,
    UserGetStations,
    UserLogin,
}

/// The command that a token names, if it names one. Tokens are compared as
/// they stand: nothing is trimmed, and upper case is not lower case.
pub open spec fn classify(token: Seq<char>) -> Option<EventCmd> {
    if exists|cmd: EventCmd| cmd.token() == token {
        Some(choose|cmd: EventCmd| cmd.token() == token)
    } else {
        None
    }
}

impl EventCmd {
    /// The token by which pianobar names this command.
    pub open spec fn token(self) -> Seq<char> {
        match self {
            EventCmd::ArtistBookmark => "artistbookmark"@,
            EventCmd::SettingsChange => "settingschange"@,
            EventCmd::SettingsGet => "settingsget"@,
            EventCmd::SongBan => "songban"@,
            EventCmd::SongBookmark => "songbookmark"@,
            EventCmd::SongExplain => "songexplain"@,
            EventCmd::SongFinish => "songfinish"@,
            EventCmd::SongLove => "songlove"@,
            EventCmd::SongShelf => "songshelf"@,
            EventCmd::SongStart => "songstart"@,
            EventCmd::StationAddGenre => "stationaddgenre"@,
            EventCmd::StationAddMusic => "stationaddmusic"@,
            EventCmd::StationAddShared => "stationaddshared"@,
            EventCmd::StationCreate => "stationcreate"@,
            EventCmd::StationDelete => "stationdelete"@,
            EventCmd::StationDeleteArtistSeed => "stationdeleteartistseed"@,
            EventCmd::StationDeleteFeedback => "stationdeletefeedback"@,
            EventCmd::StationDeleteSongSeed => "stationdeletesongseed"@,
            EventCmd::StationDeleteStationSeed => "stationdeletestationseed"@,
            EventCmd::StationFetchGenre => "stationfetchgenre"@,
            EventCmd::StationFetchInfo => "stationfetchinfo"@,
            EventCmd::StationFetchPlaylist => "stationfetchplaylist"@,
            EventCmd::StationGetModes => "stationgetmodes"@,
            EventCmd::StationQuickMixToggle => "stationquickmixtoggle"@,
            EventCmd::StationRename => "stationrename"@,
            EventCmd::StationSetMode => "stationsetmode"@,
            EventCmd::UserGetStations => "usergetstations"@,
            EventCmd::UserLogin => "userlogin"@,
        }
    }

    /// The token by which pianobar names this command.
    pub fn as_str(&self) -> (r: &'static str)
        ensures
            r@ == self.token(),
    {
        match self {
            EventCmd::ArtistBookmark => "artistbookmark",
            EventCmd::SettingsChange => "settingschange",
            EventCmd::SettingsGet => "settingsget",
            EventCmd::SongBan => "songban",
            EventCmd::SongBookmark => "songbookmark",
            EventCmd::SongExplain => "songexplain",
            EventCmd::SongFinish => "songfinish",
            EventCmd::SongLove => "songlove",
            EventCmd::SongShelf => "songshelf",
            EventCmd::SongStart => "songstart",
            EventCmd::StationAddGenre => "stationaddgenre",
            EventCmd::StationAddMusic => "stationaddmusic",
            EventCmd::StationAddShared => "stationaddshared",
            EventCmd::StationCreate => "stationcreate",
            EventCmd::StationDelete => "stationdelete",
            EventCmd::StationDeleteArtistSeed => "stationdeleteartistseed",
            EventCmd::StationDeleteFeedback => "stationdeletefeedback",
            EventCmd::StationDeleteSongSeed => "stationdeletesongseed",
            EventCmd::StationDeleteStationSeed => "stationdeletestationseed",
            EventCmd::StationFetchGenre => "stationfetchgenre",
            EventCmd::StationFetchInfo => "stationfetchinfo",
            EventCmd::StationFetchPlaylist => "stationfetchplaylist",
            EventCmd::StationGetModes => "stationgetmodes",
            EventCmd::StationQuickMixToggle => "stationquickmixtoggle",
            EventCmd::StationRename => "stationrename",
            EventCmd::StationSetMode => "stationsetmode",
            EventCmd::UserGetStations => "usergetstations",
            EventCmd::UserLogin => "userlogin",
        }
    }

    /// The place of the eventcmd in the list of all.
    pub open spec fn position(self) -> int {
        match self {
            EventCmd::ArtistBookmark => 0,
            EventCmd::SettingsChange => 1,
            EventCmd::SettingsGet => 2,
            EventCmd::SongBan => 3,
            EventCmd::SongBookmark => 4,
            EventCmd::SongExplain => 5,
            EventCmd::SongFinish => 6,
            EventCmd::SongLove => 7,
            EventCmd::SongShelf => 8,
            EventCmd::SongStart => 9,
            EventCmd::StationAddGenre => 10,
            EventCmd::StationAddMusic => 11,
            EventCmd::StationAddShared => 12,
            EventCmd::StationCreate => 13,
            EventCmd::StationDelete => 14,
            EventCmd::StationDeleteArtistSeed => 15,
            EventCmd::StationDeleteFeedback => 16,
            EventCmd::StationDeleteSongSeed => 17,
            EventCmd::StationDeleteStationSeed => 18,
            EventCmd::StationFetchGenre => 19,
            EventCmd::StationFetchInfo => 20,
            EventCmd::StationFetchPlaylist => 21,
            EventCmd::StationGetModes => 22,
            EventCmd::StationQuickMixToggle => 23,
            EventCmd::StationRename => 24,
            EventCmd::StationSetMode => 25,
            EventCmd::UserGetStations => 26,
            EventCmd::UserLogin => 27,
        }
    }

    /// Every eventcmd, each at its place.
    pub fn all() -> (all: [EventCmd; 28])
        ensures
            forall|cmd: EventCmd|
                0 <= #[trigger] cmd.position() < 28 && all[cmd.position()] == cmd,
    {
        let all = [
            EventCmd::ArtistBookmark,
            EventCmd::SettingsChange,
            EventCmd::SettingsGet,
            EventCmd::SongBan,
            EventCmd::SongBookmark,
            EventCmd::SongExplain,
            EventCmd::SongFinish,
            EventCmd::SongLove,
            EventCmd::SongShelf,
            EventCmd::SongStart,
            EventCmd::StationAddGenre,
            EventCmd::StationAddMusic,
            EventCmd::StationAddShared,
            EventCmd::StationCreate,
            EventCmd::StationDelete,
            EventCmd::StationDeleteArtistSeed,
            EventCmd::StationDeleteFeedback,
            EventCmd::StationDeleteSongSeed,
            EventCmd::StationDeleteStationSeed,
            EventCmd::StationFetchGenre,
            EventCmd::StationFetchInfo,
            EventCmd::StationFetchPlaylist,
            EventCmd::StationGetModes,
            EventCmd::StationQuickMixToggle,
            EventCmd::StationRename,
            EventCmd::StationSetMode,
            EventCmd::UserGetStations,
            EventCmd::UserLogin,
        ];
        all
    }

    /// Classifies an eventcmd token. An unknown token comes back in the
    /// error.
    pub fn from_str(eventcmd: &str) -> (r: Result<EventCmd, ParseEventCmdError>)
        ensures
            match r {
                Ok(cmd) => cmd.token() == eventcmd@ && classify(eventcmd@) == Some(cmd),
                Err(e) => e.0@ == eventcmd@ && classify(eventcmd@) is None,
            },
    {
        let all = EventCmd::all();
        let mut i: usize = 0;
        while i < 28
            invariant
                0 <= i <= 28,
                forall|cmd: EventCmd|
                    0 <= #[trigger] cmd.position() < 28 && all[cmd.position()] == cmd,
                forall|j: int| 0 <= j < i ==> (#[trigger] all[j]).token() != eventcmd@,
            decreases 28 - i,
        {
            let cmd = all[i];
            if str_equal(eventcmd, cmd.as_str()) {
                proof {
                    lemma_classify_token(cmd);
                }
                return Ok(cmd);
            }
            i = i + 1;
        }
        assert forall|cmd: EventCmd| cmd.token() != eventcmd@ by {
            assert(all[cmd.position()].token() != eventcmd@);
        }
        Err(ParseEventCmdError(String::from_str(eventcmd)))
    }
}

impl std::str::FromStr for EventCmd {
    type Err = ParseEventCmdError;

    /// Classifies an eventcmd token, as `EventCmd::from_str` does.
    fn from_str(eventcmd: &str) -> (r: Result<EventCmd, ParseEventCmdError>)
        ensures
            match r {
                Ok(cmd) => cmd.token() == eventcmd@ && classify(eventcmd@) == Some(cmd),
                Err(e) => e.0@ == eventcmd@ && classify(eventcmd@) is None,
            },
    {
        EventCmd::from_str(eventcmd)
    }
}

impl ParseEventCmdError {
    /// What the error says: that the eventcmd is invalid, and which it was.
    pub fn message(&self) -> (r: String)
        ensures
            r@ == "Invalid eventcmd: "@ + self.0@,
    {
        String::from_str("Invalid eventcmd: ").concat(self.0.as_str())
    }
}

/// The character of `s` at `i`, a blank beyond its end.
spec fn char_at(s: Seq<char>, i: int) -> char {
    if 0 <= i < s.len() {
        s[i]
    } else {
        ' '
    }
}

/// The length of a token and three of its characters: enough to tell any
/// two tokens apart.
spec fn mark_of(s: Seq<char>) -> (nat, char, char, char) {
    (s.len(), char_at(s, 1), char_at(s, 7), char_at(s, 13))
}

/// The mark of each command's token.
spec fn mark(cmd: EventCmd) -> (nat, char, char, char) {
    match cmd {
        EventCmd::ArtistBookmark => (14, 'r', 'o', 'k'),
        EventCmd::SettingsChange => (14, 'e', 's', 'e'),
        EventCmd::SettingsGet => (11, 'e', 's', ' '),
        EventCmd::SongBan => (7, 'o', ' ', ' '),
        EventCmd::SongBookmark => (12, 'o', 'k', ' '),
        EventCmd::SongExplain => (11, 'o', 'l', ' '),
        EventCmd::SongFinish => (10, 'o', 'i', ' '),
        EventCmd::SongLove => (8, 'o', 'e', ' '),
        EventCmd::SongShelf => (9, 'o', 'l', ' '),
        EventCmd::SongStart => (9, 'o', 'r', ' '),
        EventCmd::StationAddGenre => (15, 't', 'a', 'r'),
        EventCmd::StationAddMusic => (15, 't', 'a', 'i'),
        EventCmd::StationAddShared => (16, 't', 'a', 'r'),
        EventCmd::StationCreate => (13, 't', 'c', ' '),
        EventCmd::StationDelete => (13, 't', 'd', ' '),
        EventCmd::StationDeleteArtistSeed => (23, 't', 'd', 'a'),
        EventCmd::StationDeleteFeedback => (21, 't', 'd', 'f'),
        EventCmd::StationDeleteSongSeed => (21, 't', 'd', 's'),
        EventCmd::StationDeleteStationSeed => (24, 't', 'd', 's'),
        EventCmd::StationFetchGenre => (17, 't', 'f', 'e'),
        EventCmd::StationFetchInfo => (16, 't', 'f', 'n'),
        EventCmd::StationFetchPlaylist => (20, 't', 'f', 'l'),
        EventCmd::StationGetModes => (15, 't', 'g', 'e'),
        EventCmd::StationQuickMixToggle => (21, 't', 'q', 'i'),
        EventCmd::StationRename => (13, 't', 'r', ' '),
        EventCmd::StationSetMode => (14, 't', 's', 'e'),
        EventCmd::UserGetStations => (15, 's', 's', 'n'),
        EventCmd::UserLogin => (9, 's', 'i', ' '),
    }
}

/// Each token has the mark listed for its command.
proof fn lemma_mark(cmd: EventCmd)
    ensures
        mark_of(cmd.token()) == mark(cmd),
{
    match cmd {
        EventCmd::ArtistBookmark => {
            reveal_strlit("artistbookmark");
        },
        EventCmd::SettingsChange => {
            reveal_strlit("settingschange");
        },
        EventCmd::SettingsGet => {
            reveal_strlit("settingsget");
        },
        EventCmd::SongBan => {
            reveal_strlit("songban");
        },
        EventCmd::SongBookmark => {
            reveal_strlit("songbookmark");
        },
        EventCmd::SongExplain => {
            reveal_strlit("songexplain");
        },
        EventCmd::SongFinish => {
            reveal_strlit("songfinish");
        },
        EventCmd::SongLove => {
            reveal_strlit("songlove");
        },
        EventCmd::SongShelf => {
            reveal_strlit("songshelf");
        },
        EventCmd::SongStart => {
            reveal_strlit("songstart");
        },
        EventCmd::StationAddGenre => {
            reveal_strlit("stationaddgenre");
        },
        EventCmd::StationAddMusic => {
            reveal_strlit("stationaddmusic");
        },
        EventCmd::StationAddShared => {
            reveal_strlit("stationaddshared");
        },
        EventCmd::StationCreate => {
            reveal_strlit("stationcreate");
        },
        EventCmd::StationDelete => {
            reveal_strlit("stationdelete");
        },
        EventCmd::StationDeleteArtistSeed => {
            reveal_strlit("stationdeleteartistseed");
        },
        EventCmd::StationDeleteFeedback => {
            reveal_strlit("stationdeletefeedback");
        },
        EventCmd::StationDeleteSongSeed => {
            reveal_strlit("stationdeletesongseed");
        },
        EventCmd::StationDeleteStationSeed => {
            reveal_strlit("stationdeletestationseed");
        },
        EventCmd::StationFetchGenre => {
            reveal_strlit("stationfetchgenre");
        },
        EventCmd::StationFetchInfo => {
            reveal_strlit("stationfetchinfo");
        },
        EventCmd::StationFetchPlaylist => {
            reveal_strlit("stationfetchplaylist");
        },
        EventCmd::StationGetModes => {
            reveal_strlit("stationgetmodes");
        },
        EventCmd::StationQuickMixToggle => {
            reveal_strlit("stationquickmixtoggle");
        },
        EventCmd::StationRename => {
            reveal_strlit("stationrename");
        },
        EventCmd::StationSetMode => {
            reveal_strlit("stationsetmode");
        },
        EventCmd::UserGetStations => {
            reveal_strlit("usergetstations");
        },
        EventCmd::UserLogin => {
            reveal_strlit("userlogin");
        },
    }
}

/// No two commands share a token.
pub proof fn lemma_token_injective(a: EventCmd, b: EventCmd)
    requires
        a.token() == b.token(),
    ensures
        a == b,
{
    lemma_mark(a);
    lemma_mark(b);
}

/// Every token classifies as the command it names.
pub proof fn lemma_classify_token(cmd: EventCmd)
    ensures
        classify(cmd.token()) == Some(cmd),
{
    let found = choose|c: EventCmd| c.token() == cmd.token();
    lemma_token_injective(found, cmd);
}

/// What classifies as a command is that command's token, and what is no
/// command's token classifies as none.
pub proof fn lemma_classify(token: Seq<char>)
    ensures
        match classify(token) {
            Some(cmd) => cmd.token() == token,
            None => forall|cmd: EventCmd| cmd.token() != token,
        },
{
}

} // verus!
