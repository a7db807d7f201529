//! Configuration of an upload and the derivation of canonical metadata:
//! scheduling mode, title, episode number, tags, category and privacy.

use crate::calendar::{
    date_from_index, day_index, lemma_date_from_index, lemma_day_index_in_range, weekday_number,
    Date, TimeOfDay, Weekday, MAX_DAY_INDEX,
};
use crate::date_compute::{
    date_string_wf, datetime_string_wf, days_until_weekday, format_date, format_timestamp,
    parse_clock_time, parse_iso_date, parse_iso_datetime, parsed_date, parsed_datetime,
    parsed_time, time_string_wf, timestamp_chars,
};
use crate::error::Error;
use crate::strutil::{
    hex_digit_value, hex_val, is_hex_digit, key_of, lower_seq, split_char_spec, split_on_char,
    stem_of, stem_str, val_of, views_of,
};
use vstd::prelude::*;

verus! {

// ---------------------------------------------------------------------------
// Scheduling modes
// ---------------------------------------------------------------------------

/// How the publish date of an upload is chosen.
#[derive(Debug, Clone)]
pub enum PublishDate {
    /// Today at midnight: publishes as soon as possible.
    Asap,
    /// The date of the next occurrence of the named weekday.
    Coming(String),
    /// The first-episode date plus one week per episode number.
    WeeksFromEpisode,
    /// A fixed ISO-formatted date.
    IsoDate(String),
    /// A fixed ISO-formatted date and time.
    IsoDateTime(String),
}

impl PublishDate {
    /// Scheduling mode from a `key=value` argument; the value names a
    /// weekday or holds an ISO date for the modes that take one.
    pub fn from_str(s: &str) -> (r: Result<PublishDate, Error>)
        ensures
            r is Ok <==> (key_of(s@) == "asap"@ || key_of(s@) == "coming"@ || key_of(s@)
                == "weeks-from-episode"@ || key_of(s@) == "iso-date"@ || key_of(s@)
                == "iso-date-time"@),
            r matches Ok(pd) ==> match pd {
                PublishDate::Asap => key_of(s@) == "asap"@,
                PublishDate::Coming(v) => key_of(s@) == "coming"@ && v@ == val_of(s@),
                PublishDate::WeeksFromEpisode => key_of(s@) == "weeks-from-episode"@,
                PublishDate::IsoDate(v) => key_of(s@) == "iso-date"@ && v@ == val_of(s@),
                PublishDate::IsoDateTime(v) => key_of(s@) == "iso-date-time"@ && v@ == val_of(s@),
            },
            r matches Err(e) ==> e matches Error::Parse { field, value } && field@ == "publish-at"@
                && value@ == s@,
    {
        let (k, v) = parse_key_val(s);
        if k == String::from_str("asap") {
            Ok(PublishDate::Asap)
        } else if k == String::from_str("coming") {
            Ok(PublishDate::Coming(v))
        } else if k == String::from_str("weeks-from-episode") {
            Ok(PublishDate::WeeksFromEpisode)
        } else if k == String::from_str("iso-date") {
            Ok(PublishDate::IsoDate(v))
        } else if k == String::from_str("iso-date-time") {
            Ok(PublishDate::IsoDateTime(v))
        } else {
            Err(Error::Parse { field: String::from_str("publish-at"), value: s.to_owned() })
        }
    }
}

/// How a description update combines new text with the existing text.
#[derive(Debug, Clone, Copy, PartialEq, Eq, Structural)]
pub enum ChangeMode {
    Append,
    Replace,
    Prepend,
}

/// Privacy status of a catalog entry.
#[derive(Debug, Clone, Copy, PartialEq, Eq, Structural)]
pub enum PrivacyStates {
    Public,
    Private,
    Unlisted,
}

impl PrivacyStates {
    /// The wire label of the privacy status.
    pub open spec fn label_chars(self) -> Seq<char> {
        match self {
            PrivacyStates::Public => "public"@,
            PrivacyStates::Private => "private"@,
            PrivacyStates::Unlisted => "unlisted"@,
        }
    }

    /// Render the privacy status as its wire label.
    pub fn label(self) -> (r: String)
        ensures
            r@ == self.label_chars(),
    {
        match self {
            PrivacyStates::Public => String::from_str("public"),
            PrivacyStates::Private => String::from_str("private"),
            PrivacyStates::Unlisted => String::from_str("unlisted"),
        }
    }
}

/// Category of a catalog entry.
#[derive(Debug, Clone, Copy, PartialEq, Eq, Structural)]
pub enum Categories {
    Science,
    People,
    Comedy,
}

impl Categories {
    /// The numeric category code the catalog service assigns.
    pub open spec fn code_spec(self) -> int {
        match self {
            Categories::Science => 28,
            Categories::People => 22,
            Categories::Comedy => 23,
        }
    }

    /// Numeric category code.
    pub fn code(self) -> (r: u8)
        ensures
            r as int == self.code_spec(),
    {
        match self {
            Categories::Science => 28,
            Categories::People => 22,
            Categories::Comedy => 23,
        }
    }

    /// The category code rendered in decimal.
    pub open spec fn id_chars(self) -> Seq<char> {
        match self {
            Categories::Science => "28"@,
            Categories::People => "22"@,
            Categories::Comedy => "23"@,
        }
    }

    /// Render the category code in decimal.
    pub fn id_string(self) -> (r: String)
        ensures
            r@ == self.id_chars(),
    {
        match self {
            Categories::Science => String::from_str("28"),
            Categories::People => String::from_str("22"),
            Categories::Comedy => String::from_str("23"),
        }
    }
}

// ---------------------------------------------------------------------------
// Key-value arguments
// ---------------------------------------------------------------------------

/// Parse a single key-value pair from `KEY=VALUE` format; if `=` is missing,
/// the whole string is the key and the value is empty.
pub fn parse_key_val(s: &str) -> (r: (String, String))
    ensures
        r.0@ == key_of(s@),
        r.1@ == val_of(s@),
{
    let len = s.unicode_len();
    match crate::strutil::find_char(s, '=') {
        Some(pos) => {
            proof {
                crate::strutil::lemma_find_first(s@, '=');
            }
            let k = s.substring_char(0, pos).to_owned();
            let v = s.substring_char(pos + 1, len).to_owned();
            proof {
                assert(k@ =~= key_of(s@));
                assert(v@ =~= val_of(s@));
            }
            (k, v)
        },
        None => {
            let k = s.to_owned();
            let v = String::new();
            proof {
                assert(v@ =~= val_of(s@));
            }
            (k, v)
        },
    }
}

// ---------------------------------------------------------------------------
// Weekday names
// ---------------------------------------------------------------------------

/// The weekday a name denotes: full English names and their three-letter
/// abbreviations, case-insensitively.
pub open spec fn weekday_of_name(s: Seq<char>) -> Option<Weekday> {
    let l = lower_seq(s);
    if l == "monday"@ || l == "mon"@ {
        Some(Weekday::Mon)
    } else if l == "tuesday"@ || l == "tue"@ {
        Some(Weekday::Tue)
    } else if l == "wednesday"@ || l == "wed"@ {
        Some(Weekday::Wed)
    } else if l == "thursday"@ || l == "thu"@ {
        Some(Weekday::Thu)
    } else if l == "friday"@ || l == "fri"@ {
        Some(Weekday::Fri)
    } else if l == "saturday"@ || l == "sat"@ {
        Some(Weekday::Sat)
    } else if l == "sunday"@ || l == "sun"@ {
        Some(Weekday::Sun)
    } else {
        None
    }
}

proof fn lemma_lower_fixed_names()
    ensures
        lower_seq("monday"@) == "monday"@,
        lower_seq("mon"@) == "mon"@,
        lower_seq("tuesday"@) == "tuesday"@,
        lower_seq("tue"@) == "tue"@,
        lower_seq("wednesday"@) == "wednesday"@,
        lower_seq("wed"@) == "wed"@,
        lower_seq("thursday"@) == "thursday"@,
        lower_seq("thu"@) == "thu"@,
        lower_seq("friday"@) == "friday"@,
        lower_seq("fri"@) == "fri"@,
        lower_seq("saturday"@) == "saturday"@,
        lower_seq("sat"@) == "sat"@,
        lower_seq("sunday"@) == "sunday"@,
        lower_seq("sun"@) == "sun"@,
{
    reveal_strlit("monday");
    reveal_strlit("mon");
    reveal_strlit("tuesday");
    reveal_strlit("tue");
    reveal_strlit("wednesday");
    reveal_strlit("wed");
    reveal_strlit("thursday");
    reveal_strlit("thu");
    reveal_strlit("friday");
    reveal_strlit("fri");
    reveal_strlit("saturday");
    reveal_strlit("sat");
    reveal_strlit("sunday");
    reveal_strlit("sun");
    assert(lower_seq("monday"@) =~= "monday"@);
    assert(lower_seq("mon"@) =~= "mon"@);
    assert(lower_seq("tuesday"@) =~= "tuesday"@);
    assert(lower_seq("tue"@) =~= "tue"@);
    assert(lower_seq("wednesday"@) =~= "wednesday"@);
    assert(lower_seq("wed"@) =~= "wed"@);
    assert(lower_seq("thursday"@) =~= "thursday"@);
    assert(lower_seq("thu"@) =~= "thu"@);
    assert(lower_seq("friday"@) =~= "friday"@);
    assert(lower_seq("fri"@) =~= "fri"@);
    assert(lower_seq("saturday"@) =~= "saturday"@);
    assert(lower_seq("sat"@) =~= "sat"@);
    assert(lower_seq("sunday"@) =~= "sunday"@);
    assert(lower_seq("sun"@) =~= "sun"@);
}

/// Weekday from its English name or three-letter abbreviation, in any
/// letter case.
pub fn parse_weekday(s: &str) -> (r: Result<Weekday, Error>)
    ensures
        r is Ok <==> weekday_of_name(s@) is Some,
        r matches Ok(w) ==> weekday_of_name(s@) == Some(w),
        r matches Err(e) ==> e matches Error::Parse { field, value } && field@ == "weekday"@
            && value@ == s@,
{
    proof {
        lemma_lower_fixed_names();
    }
    if crate::strutil::eq_ignore_ascii_case(s, "monday") || crate::strutil::eq_ignore_ascii_case(
        s,
        "mon",
    ) {
        Ok(Weekday::Mon)
    } else if crate::strutil::eq_ignore_ascii_case(s, "tuesday")
        || crate::strutil::eq_ignore_ascii_case(s, "tue") {
        Ok(Weekday::Tue)
    } else if crate::strutil::eq_ignore_ascii_case(s, "wednesday")
        || crate::strutil::eq_ignore_ascii_case(s, "wed") {
        Ok(Weekday::Wed)
    } else if crate::strutil::eq_ignore_ascii_case(s, "thursday")
        || crate::strutil::eq_ignore_ascii_case(s, "thu") {
        Ok(Weekday::Thu)
    } else if crate::strutil::eq_ignore_ascii_case(s, "friday")
        || crate::strutil::eq_ignore_ascii_case(s, "fri") {
        Ok(Weekday::Fri)
    } else if crate::strutil::eq_ignore_ascii_case(s, "saturday")
        || crate::strutil::eq_ignore_ascii_case(s, "sat") {
        Ok(Weekday::Sat)
    } else if crate::strutil::eq_ignore_ascii_case(s, "sunday")
        || crate::strutil::eq_ignore_ascii_case(s, "sun") {
        Ok(Weekday::Sun)
    } else {
        Err(Error::Parse { field: String::from_str("weekday"), value: s.to_owned() })
    }
}

// ---------------------------------------------------------------------------
// Upload configuration
// ---------------------------------------------------------------------------

/// Configuration of one upload command; paths are plain strings.
#[derive(Debug, Clone)]
pub struct UploadOptions {
    /// Path of the video file to upload.
    pub file: String,
    /// Description of the entry.
    pub description: String,
    /// Explicit title; derived from the filename when absent.
    pub title: Option<String>,
    /// Thumbnail file to use; generated from the video when absent.
    pub thumbnail: Option<String>,
    /// Watermark image placed on top of a generated thumbnail.
    pub thumbnail_watermark: String,
    /// Second of the video a generated thumbnail is taken at.
    pub thumb_second: usize,
    /// How the publish date is chosen.
    pub publish_at: PublishDate,
    /// Clock time of publication, `HH:MM:SS`.
    pub publish_time: String,
    /// Explicit episode number; derived from the title when absent.
    pub episode_nr: Option<u8>,
    /// Playlist the entry is added to, when given.
    pub playlist_id: Option<String>,
    /// Comma-separated keyword list.
    pub keywords: String,
    /// Privacy status of the entry.
    pub privacy_status: PrivacyStates,
    /// Category of the entry.
    pub category: Categories,
    /// Date of the first episode, anchoring week-per-episode scheduling.
    pub first_episode_date: String,
    /// Report what would be uploaded without doing it.
    pub pretend: bool,
    /// Path of the external screenshot binary.
    pub ffmpeg_bin: String,
}

impl UploadOptions {
    /// The effective title: the explicit title, or the filename's stem.
    pub open spec fn title_seq(&self) -> Seq<char> {
        match self.title {
            Some(t) => t@,
            None => stem_of(self.file@),
        }
    }

    /// A title can be produced: one is given, or the filename has a
    /// non-empty stem.
    pub open spec fn title_wf(&self) -> bool {
        self.title is Some || stem_of(self.file@).len() > 0
    }

    /// The effective title; from the filename when none is given.
    pub fn title(&self) -> (r: String)
        requires
            self.title_wf(),
        ensures
            r@ == self.title_seq(),
    {
        match &self.title {
            Some(t) => t.clone(),
            None => stem_str(self.file.as_str()),
        }
    }

    /// The keyword list: comma-separated, order preserved, no trimming,
    /// empty segments kept.
    pub fn tags(&self) -> (r: Vec<String>)
        ensures
            views_of(r@) == split_char_spec(self.keywords@, ','),
    {
        split_on_char(self.keywords.as_str(), ',')
    }

    /// The leading characters of the title an episode number is read from:
    /// up to two.
    pub open spec fn episode_source(&self) -> Seq<char> {
        let t = self.title_seq();
        if t.len() < 2 {
            t
        } else {
            t.take(2)
        }
    }

    /// Hexadecimal value of one or two digits.
    pub open spec fn hex_pair_val(s: Seq<char>) -> int {
        if s.len() == 0 {
            0
        } else if s.len() == 1 {
            hex_val(s[0])
        } else {
            16 * hex_val(s[0]) + hex_val(s[1])
        }
    }

    /// An episode number is available: explicitly, or because the title
    /// starts with hexadecimal digits.
    pub open spec fn episode_derivable(&self) -> bool {
        self.episode_nr is Some || (self.episode_source().len() > 0 && forall|j: int|
            0 <= j < self.episode_source().len() ==> is_hex_digit(self.episode_source()[j]))
    }

    /// The episode number: the explicit one, or the value of the title's
    /// leading hexadecimal digits.
    pub open spec fn episode_value(&self) -> int {
        match self.episode_nr {
            Some(n) => n as int,
            None => Self::hex_pair_val(self.episode_source()),
        }
    }

    /// The episode number; derived from the first two characters of the
    /// title, read as base-16, when none is given.
    pub fn episode_nr(&self) -> (r: Result<u8, Error>)
        requires
            self.title_wf(),
        ensures
            r is Ok <==> self.episode_derivable(),
            r matches Ok(n) ==> n as int == self.episode_value(),
            r matches Err(e) ==> e matches Error::Validation { field, value } && field@
                == "episode-number"@ && value@ == self.episode_source(),
    {
        if let Some(n) = self.episode_nr {
            return Ok(n);
        }
        let t = self.title();
        let tl = t.as_str().unicode_len();
        let take: usize = if tl < 2 {
            tl
        } else {
            2
        };
        proof {
            if take < tl {
                assert(self.episode_source() =~= t@.take(2));
            } else {
                assert(self.episode_source() =~= t@);
                assert(t@.take(take as int) =~= t@);
            }
        }
        let source = t.as_str().substring_char(0, take);
        if take == 0 {
            return Err(
                Error::Validation {
                    field: String::from_str("episode-number"),
                    value: source.to_owned(),
                },
            );
        }
        let c0 = source.get_char(0);
        if !crate::strutil::is_hex_digit_exec(c0) {
            return Err(
                Error::Validation {
                    field: String::from_str("episode-number"),
                    value: source.to_owned(),
                },
            );
        }
        if take == 1 {
            let v = hex_digit_value(c0);
            return Ok(v as u8);
        }
        let c1 = source.get_char(1);
        if !crate::strutil::is_hex_digit_exec(c1) {
            return Err(
                Error::Validation {
                    field: String::from_str("episode-number"),
                    value: source.to_owned(),
                },
            );
        }
        let v = 16 * hex_digit_value(c0) + hex_digit_value(c1);
        Ok(v as u8)
    }

    /// The publish timestamp the configuration yields for a given current
    /// date, when every needed parameter parses and the result is
    /// representable.
    pub open spec fn publish_spec(&self, today: Date) -> Option<Seq<char>> {
        match self.publish_at {
            PublishDate::Asap => Some(
                timestamp_chars(today, (TimeOfDay { hour: 0, minute: 0, second: 0 })),
            ),
            PublishDate::Coming(wd) => match weekday_of_name(wd@) {
                Some(w) => if time_string_wf(self.publish_time@) && today.day_index_of() + 7
                    <= MAX_DAY_INDEX as int {
                    Some(
                        timestamp_chars(
                            date_from_index(
                                today.day_index_of() + days_until_weekday(
                                    today.weekday_of(),
                                    weekday_number(w),
                                ),
                            ),
                            parsed_time(self.publish_time@),
                        ),
                    )
                } else {
                    None
                },
                None => None,
            },
            PublishDate::WeeksFromEpisode => if date_string_wf(self.first_episode_date@)
                && self.episode_derivable() && time_string_wf(self.publish_time@) && parsed_date(
                self.first_episode_date@,
            ).day_index_of() + 7 * self.episode_value() <= MAX_DAY_INDEX as int {
                Some(
                    timestamp_chars(
                        date_from_index(
                            parsed_date(self.first_episode_date@).day_index_of() + 7
                                * self.episode_value(),
                        ),
                        parsed_time(self.publish_time@),
                    ),
                )
            } else {
                None
            },
            PublishDate::IsoDate(ds) => if date_string_wf(ds@) && time_string_wf(
                self.publish_time@,
            ) {
                Some(timestamp_chars(parsed_date(ds@), parsed_time(self.publish_time@)))
            } else {
                None
            },
            PublishDate::IsoDateTime(ds) => if datetime_string_wf(ds@) {
                Some(timestamp_chars(parsed_datetime(ds@).date, parsed_datetime(ds@).time))
            } else {
                None
            },
        }
    }

    /// Which error a failed publish-date resolution reports.
    pub open spec fn publish_err_matches(&self, today: Date, e: Error) -> bool {
        match self.publish_at {
            PublishDate::Asap => false,
            PublishDate::Coming(wd) => if weekday_of_name(wd@) is None {
                e matches Error::Parse { field, value } && field@ == "weekday"@ && value@ == wd@
            } else if !time_string_wf(self.publish_time@) {
                e matches Error::Parse { field, value } && field@ == "time"@ && value@
                    == self.publish_time@
            } else {
                e matches Error::Validation { field, value } && field@ == "publish-date"@
            },
            PublishDate::WeeksFromEpisode => if !date_string_wf(self.first_episode_date@) {
                e matches Error::Parse { field, value } && field@ == "date"@ && value@
                    == self.first_episode_date@
            } else if !self.episode_derivable() {
                e matches Error::Validation { field, value } && field@ == "episode-number"@
                    && value@ == self.episode_source()
            } else if !time_string_wf(self.publish_time@) {
                e matches Error::Parse { field, value } && field@ == "time"@ && value@
                    == self.publish_time@
            } else {
                e matches Error::Validation { field, value } && field@ == "publish-date"@
            },
            PublishDate::IsoDate(ds) => if !date_string_wf(ds@) {
                e matches Error::Parse { field, value } && field@ == "date"@ && value@ == ds@
            } else {
                e matches Error::Parse { field, value } && field@ == "time"@ && value@
                    == self.publish_time@
            },
            PublishDate::IsoDateTime(ds) => e matches Error::Parse { field, value } && field@
                == "datetime"@ && value@ == ds@,
        }
    }

    /// Resolve the configured scheduling mode against the given current date
    /// into an absolute UTC publish timestamp with a trailing `Z`.
    pub fn publish_datetime(&self, today: Date) -> (r: Result<String, Error>)
        requires
            today.wf(),
            self.publish_at matches PublishDate::WeeksFromEpisode ==> self.title_wf(),
        ensures
            r is Ok <==> self.publish_spec(today) is Some,
            r matches Ok(ts) ==> Some(ts@) == self.publish_spec(today),
            r matches Err(e) ==> self.publish_err_matches(today, e),
    {
        match &self.publish_at {
            PublishDate::Asap => Ok(format_timestamp(today, TimeOfDay::midnight())),
            PublishDate::Coming(wd) => {
                let w = match parse_weekday(wd.as_str()) {
                    Ok(w) => w,
                    Err(e) => {
                        return Err(e);
                    },
                };
                let t = match parse_clock_time(self.publish_time.as_str()) {
                    Ok(t) => t,
                    Err(e) => {
                        return Err(e);
                    },
                };
                let idx = day_index(today);
                proof {
                    lemma_day_index_in_range(today);
                }
                if idx + 7 > MAX_DAY_INDEX {
                    return Err(
                        Error::Validation {
                            field: String::from_str("publish-date"),
                            value: format_date(today),
                        },
                    );
                }
                let d = crate::date_compute::coming_weekday(today, w);
                proof {
                    lemma_date_from_index(d);
                }
                Ok(format_timestamp(d, t))
            },
            PublishDate::WeeksFromEpisode => {
                let origin = match parse_iso_date(self.first_episode_date.as_str()) {
                    Ok(d) => d,
                    Err(e) => {
                        return Err(e);
                    },
                };
                let ep = match self.episode_nr() {
                    Ok(n) => n,
                    Err(e) => {
                        return Err(e);
                    },
                };
                let t = match parse_clock_time(self.publish_time.as_str()) {
                    Ok(t) => t,
                    Err(e) => {
                        return Err(e);
                    },
                };
                let oidx = day_index(origin);
                proof {
                    lemma_day_index_in_range(origin);
                }
                if oidx + 7 * (ep as u64) > MAX_DAY_INDEX {
                    return Err(
                        Error::Validation {
                            field: String::from_str("publish-date"),
                            value: format_date(origin),
                        },
                    );
                }
                let d = crate::date_compute::add_weeks(origin, ep);
                proof {
                    lemma_date_from_index(d);
                }
                Ok(format_timestamp(d, t))
            },
            PublishDate::IsoDate(ds) => {
                let d = match parse_iso_date(ds.as_str()) {
                    Ok(d) => d,
                    Err(e) => {
                        return Err(e);
                    },
                };
                let t = match parse_clock_time(self.publish_time.as_str()) {
                    Ok(t) => t,
                    Err(e) => {
                        return Err(e);
                    },
                };
                Ok(format_timestamp(d, t))
            },
            PublishDate::IsoDateTime(ds) => {
                match parse_iso_datetime(ds.as_str()) {
                    Ok(dt) => Ok(format_timestamp(dt.date, dt.time)),
                    Err(e) => Err(e),
                }
            },
        }
    }
}

} // verus!
