//! The commands of the program and its options.
use vstd::prelude::*;
use vstd::string::StringExecFns;
use crate::text::{all_digits, chars_of, digits_value, parse_digits};

verus! {

/// The user agent of requests that go out without a browser's.
pub const CURL_UA: &'static str = "curl/7.54.0";

/// How a lookup from a stream-tracking page proceeds.
#[derive(Debug, Clone, Copy, PartialEq, Eq, Structural)]
pub enum ProcessingType {
    /// The page gives the start time to the second.
    Exact,
    /// The page gives the start time to the minute: a window is searched.
    Bruteforce,
}

/// The options of the program.
#[derive(Debug, Clone)]
pub struct Cli {
    /// Provide minimal output.
    pub simple: bool,
    /// Show more info.
    pub verbose: bool,
    /// A file of extra CDN hostnames (TXT/JSON/YAML/TOML).
    pub cdnfile: Option<String>,
    /// Show a progress bar.
    pub progressbar: bool,
    /// The preferred processing mode for StreamsCharts.
    pub mode: Option<ProcessingType>,
    pub command: Option<Commands>,
}

impl Default for Cli {
    fn default() -> (r: Cli)
        ensures
            !r.simple,
            !r.verbose,
            r.cdnfile is None,
            !r.progressbar,
            r.mode is None,
            r.command is None,
    {
        Cli { simple: false, verbose: false, cdnfile: None, progressbar: false, mode: None, command: None }
    }
}

/// The modes of the program, in the order in which the menu lists them.
#[derive(Debug, Clone)]
pub enum Commands {
    /// Combine the streamer's username, the broadcast id and a timestamp into
    /// a playlist URL and check whether the VOD is available.
    Exact { username: String, id: i64, stamp: String },
    /// Go over a range of timestamps, looking for a working playlist URL, and
    /// check whether the VOD is available.
    Bruteforce { username: String, id: i64, from: String, to: String },
    /// Get the playlist from a TwitchTracker or StreamsCharts URL.
    Link { url: String },
    /// Get the playlist of a stream that is live now.
    Live { username: String },
    /// Get the playlist of the VOD that a clip comes from.
    Clip { clip: String },
    /// Go over a range of offsets, looking for clips of a VOD.
    Clipforce { id: i64, start: i64, end: i64 },
    /// Download an unplayable playlist and make a playable one of it.
    Fix { url: String, output: Option<String>, slow: bool },
    /// Check for updates.
    Update,
}

/// The number of modes.
pub const COMMAND_COUNT: usize = 8;

impl Commands {
    /// Position of the mode in the menu, from 0.
    pub open spec fn position(&self) -> int {
        match self {
            Commands::Exact { .. } => 0,
            Commands::Bruteforce { .. } => 1,
            Commands::Link { .. } => 2,
            Commands::Live { .. } => 3,
            Commands::Clip { .. } => 4,
            Commands::Clipforce { .. } => 5,
            Commands::Fix { .. } => 6,
            Commands::Update => 7,
        }
    }

    /// Every field holds its default: empty texts, zeros, nothing, `false`.
    pub open spec fn is_blank(&self) -> bool {
        match self {
            Commands::Exact { username, id, stamp } => username@.len() == 0 && *id == 0 && stamp@.len()
                == 0,
            Commands::Bruteforce { username, id, from, to } => username@.len() == 0 && *id == 0
                && from@.len() == 0 && to@.len() == 0,
            Commands::Link { url } => url@.len() == 0,
            Commands::Live { username } => username@.len() == 0,
            Commands::Clip { clip } => clip@.len() == 0,
            Commands::Clipforce { id, start, end } => *id == 0 && *start == 0 && *end == 0,
            Commands::Fix { url, output, slow } => url@.len() == 0 && output is None && !*slow,
            Commands::Update => true,
        }
    }

    pub open spec fn short_desc(position: int) -> Seq<char> {
        if position == 0 {
            "Exact mode"@
        } else if position == 1 {
            "Bruteforce mode"@
        } else if position == 2 {
            "Link mode"@
        } else if position == 3 {
            "Live mode"@
        } else if position == 4 {
            "Clip mode"@
        } else if position == 5 {
            "Clip bruteforce mode"@
        } else if position == 6 {
            "Fix playlist"@
        } else {
            "Check for updates"@
        }
    }

    /// The mode that a menu answer selects: its number, counted from 1 and
    /// read as `usize` is (digits, after an optional `+`), or `u` for updates.
    pub open spec fn selected(s: Seq<char>) -> Option<int> {
        let digits = if s.len() > 0 && s[0] == '+' {
            s.drop_first()
        } else {
            s
        };
        if digits.len() > 0 && all_digits(digits) && digits_value(digits) <= usize::MAX {
            if 1 <= digits_value(digits) <= COMMAND_COUNT {
                Some(digits_value(digits) - 1)
            } else {
                None
            }
        } else if s == "u"@ {
            Some(7)
        } else {
            None
        }
    }

    /// Whether the mode has a description to show in the menu.
    pub fn show_description(&self) -> (r: bool)
        ensures
            r == (self.position() != 7),
    {
        match self {
            Self::Update => false,
            _ => true,
        }
    }

    /// The short name of the mode.
    pub fn to_short_desc(&self) -> (r: String)
        ensures
            r@ == Self::short_desc(self.position()),
    {
        match self {
            Self::Exact { .. } => String::from_str("Exact mode"),
            Self::Bruteforce { .. } => String::from_str("Bruteforce mode"),
            Self::Link { .. } => String::from_str("Link mode"),
            Self::Live { .. } => String::from_str("Live mode"),
            Self::Clip { .. } => String::from_str("Clip mode"),
            Self::Clipforce { .. } => String::from_str("Clip bruteforce mode"),
            Self::Fix { .. } => String::from_str("Fix playlist"),
            Self::Update => String::from_str("Check for updates"),
        }
    }

    /// The letter that selects the mode in the menu, for the modes that have one.
    pub fn to_selector(&self) -> (r: Option<String>)
        ensures
            self.position() == 7 ==> r is Some && r->0@ == "u"@,
            self.position() != 7 ==> r is None,
    {
        match self {
            Self::Update => Some(String::from_str("u")),
            _ => None,
        }
    }

    /// The mode at `position` in the menu, with every field at its default.
    fn blank(position: usize) -> (r: Commands)
        requires
            position < COMMAND_COUNT,
        ensures
            r.position() == position,
            r.is_blank(),
    {
        if position == 0 {
            Self::Exact { username: String::new(), id: 0, stamp: String::new() }
        } else if position == 1 {
            Self::Bruteforce { username: String::new(), id: 0, from: String::new(), to: String::new() }
        } else if position == 2 {
            Self::Link { url: String::new() }
        } else if position == 3 {
            Self::Live { username: String::new() }
        } else if position == 4 {
            Self::Clip { clip: String::new() }
        } else if position == 5 {
            Self::Clipforce { id: 0, start: 0, end: 0 }
        } else if position == 6 {
            Self::Fix { url: String::new(), output: None, slow: false }
        } else {
            Self::Update
        }
    }

    /// The mode that a menu answer selects, with its fields at their
    /// defaults: its number in the menu, from 1, or `u` for updates.
    pub fn from_selector(s: String) -> (r: Option<Self>)
        ensures
            match Self::selected(s@) {
                Some(p) => r is Some && r->0.position() == p && r->0.is_blank(),
                None => r is None,
            },
    {
        let chars = chars_of(s.as_str());
        let mut digits: Vec<char> = Vec::new();
        let mut i: usize = if chars.len() > 0 && chars[0] == '+' { 1 } else { 0 };
        let skip = i;
        while i < chars.len()
            invariant
                skip <= i <= chars@.len(),
                skip <= 1,
                digits@ == chars@.subrange(skip as int, i as int),
            decreases chars@.len() - i,
        {
            digits.push(chars[i]);
            i = i + 1;
        }
        proof {
            if chars@.len() > 0 && chars@[0] == '+' {
                assert(digits@ =~= s@.drop_first());
            } else {
                assert(digits@ =~= s@);
            }
        }
        match parse_digits(&digits, usize::MAX as u64) {
            Some(n) => {
                if 1 <= n && n <= COMMAND_COUNT as u64 {
                    Some(Self::blank((n - 1) as usize))
                } else {
                    None
                }
            },
            None => {
                proof {
                    reveal_strlit("u");
                }
                if chars.len() == 1 && chars[0] == 'u' {
                    assert(s@ =~= "u"@);
                    Some(Self::Update)
                } else {
                    assert(s@ != "u"@);
                    None
                }
            },
        }
    }
}

} // verus!
