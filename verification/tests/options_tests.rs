use rsytup::calendar::Date;
use rsytup::calendar::Weekday;
use rsytup::error::Error;
use rsytup::options::{
    parse_key_val, parse_weekday, Categories, ChangeMode, PrivacyStates, PublishDate,
    UploadOptions,
};

fn base_opts() -> UploadOptions {
    UploadOptions {
        file: String::from("videos/2A-intro.mp4"),
        description: String::from("a description"),
        title: None,
        thumbnail: None,
        thumbnail_watermark: String::from("logos.png"),
        thumb_second: 360,
        publish_at: PublishDate::Asap,
        publish_time: String::from("08:00:00"),
        episode_nr: None,
        playlist_id: None,
        keywords: String::from("rust,tutorial,youtube,upload,rsytup"),
        privacy_status: PrivacyStates::Private,
        category: Categories::Science,
        first_episode_date: String::from("2020-09-01"),
        pretend: false,
        ffmpeg_bin: String::from("ffmpeg"),
    }
}

#[test]
fn tags_split_on_comma_without_trimming() {
    let mut o = base_opts();
    assert_eq!(o.tags(), vec!["rust", "tutorial", "youtube", "upload", "rsytup"]);
    o.keywords = String::from("a,, b ,c,");
    assert_eq!(o.tags(), vec!["a", "", " b ", "c", ""]);
    o.keywords = String::from("");
    assert_eq!(o.tags(), vec![""]);
}

#[test]
fn title_prefers_explicit_over_filename() {
    let mut o = base_opts();
    assert_eq!(o.title(), "2A-intro");
    o.title = Some(String::from("An explicit title"));
    assert_eq!(o.title(), "An explicit title");
    o.title = None;
    o.file = String::from("no-directory.mkv");
    assert_eq!(o.title(), "no-directory");
    o.file = String::from("dir.v2/plain");
    assert_eq!(o.title(), "plain");
}

#[test]
fn episode_from_title_hex_prefix() {
    let o = base_opts();
    // "2A" read as base-16.
    assert_eq!(o.episode_nr().unwrap(), 0x2A);
    let mut o = base_opts();
    o.title = Some(String::from("ff rest"));
    assert_eq!(o.episode_nr().unwrap(), 255);
}

#[test]
fn episode_error_when_not_hex() {
    let mut o = base_opts();
    o.title = Some(String::from("ZZ-intro"));
    let e = o.episode_nr().unwrap_err();
    assert!(matches!(&e, Error::Validation { field, value } if field == "episode-number" && value == "ZZ"));
    o.title = Some(String::from(""));
    assert!(matches!(o.episode_nr(), Err(Error::Validation { .. })));
}

#[test]
fn explicit_episode_wins() {
    let mut o = base_opts();
    o.title = Some(String::from("ZZ-intro"));
    o.episode_nr = Some(7);
    assert_eq!(o.episode_nr().unwrap(), 7);
}

#[test]
fn key_val_splits_at_first_equals() {
    assert_eq!(parse_key_val("coming=friday"), (String::from("coming"), String::from("friday")));
    assert_eq!(parse_key_val("asap"), (String::from("asap"), String::from("")));
    assert_eq!(parse_key_val("a=b=c"), (String::from("a"), String::from("b=c")));
    assert_eq!(parse_key_val("=v"), (String::from(""), String::from("v")));
}

#[test]
fn publish_date_from_str_variants() {
    assert!(matches!(PublishDate::from_str("asap"), Ok(PublishDate::Asap)));
    assert!(
        matches!(PublishDate::from_str("coming=friday"), Ok(PublishDate::Coming(v)) if v == "friday")
    );
    assert!(
        matches!(PublishDate::from_str("weeks-from-episode"), Ok(PublishDate::WeeksFromEpisode))
    );
    assert!(
        matches!(PublishDate::from_str("iso-date=2021-09-02"), Ok(PublishDate::IsoDate(v)) if v == "2021-09-02")
    );
    assert!(
        matches!(PublishDate::from_str("iso-date-time=2021-09-02 08:00:00"), Ok(PublishDate::IsoDateTime(v)) if v == "2021-09-02 08:00:00")
    );
    assert!(matches!(PublishDate::from_str("sometime=later"), Err(Error::Parse { .. })));
}

#[test]
fn weekday_names_any_case() {
    assert_eq!(parse_weekday("friday").unwrap(), Weekday::Fri);
    assert_eq!(parse_weekday("FRIDAY").unwrap(), Weekday::Fri);
    assert_eq!(parse_weekday("Fri").unwrap(), Weekday::Fri);
    assert_eq!(parse_weekday("monday").unwrap(), Weekday::Mon);
    assert_eq!(parse_weekday("sun").unwrap(), Weekday::Sun);
    assert!(matches!(parse_weekday("frid"), Err(Error::Parse { .. })));
}

#[test]
fn publish_asap_is_todays_midnight() {
    let o = base_opts();
    let today = Date { year: 2021, month: 9, day: 2 };
    assert_eq!(o.publish_datetime(today).unwrap(), "2021-09-02T00:00:00Z");
}

#[test]
fn publish_coming_weekday_uses_clock_time() {
    let mut o = base_opts();
    o.publish_at = PublishDate::Coming(String::from("friday"));
    let thu = Date { year: 2021, month: 9, day: 2 };
    assert_eq!(o.publish_datetime(thu).unwrap(), "2021-09-03T08:00:00Z");
    let fri = Date { year: 2021, month: 9, day: 3 };
    assert_eq!(o.publish_datetime(fri).unwrap(), "2021-09-10T08:00:00Z");
    o.publish_at = PublishDate::Coming(String::from("someday"));
    assert!(matches!(o.publish_datetime(thu), Err(Error::Parse { .. })));
}

#[test]
fn publish_weeks_from_episode() {
    let mut o = base_opts();
    o.publish_at = PublishDate::WeeksFromEpisode;
    let today = Date { year: 2021, month: 9, day: 2 };
    // Episode 0x2A = 42 weeks = 294 days after 2020-09-01.
    assert_eq!(o.publish_datetime(today).unwrap(), "2021-06-22T08:00:00Z");
    o.episode_nr = Some(1);
    assert_eq!(o.publish_datetime(today).unwrap(), "2020-09-08T08:00:00Z");
    o.episode_nr = None;
    o.title = Some(String::from("ZZ"));
    assert!(matches!(o.publish_datetime(today), Err(Error::Validation { .. })));
    o.title = None;
    o.first_episode_date = String::from("not-a-date");
    assert!(matches!(o.publish_datetime(today), Err(Error::Parse { .. })));
}

#[test]
fn publish_fixed_date_and_datetime() {
    let mut o = base_opts();
    let today = Date { year: 2021, month: 9, day: 2 };
    o.publish_at = PublishDate::IsoDate(String::from("2021-12-24"));
    o.publish_time = String::from("18:30:00");
    assert_eq!(o.publish_datetime(today).unwrap(), "2021-12-24T18:30:00Z");
    o.publish_at = PublishDate::IsoDateTime(String::from("2021-12-24 18:30:00"));
    o.publish_time = String::from("ignored!");
    assert_eq!(o.publish_datetime(today).unwrap(), "2021-12-24T18:30:00Z");
    o.publish_at = PublishDate::IsoDateTime(String::from("2021-12-24"));
    assert_eq!(o.publish_datetime(today).unwrap(), "2021-12-24T00:00:00Z");
    o.publish_at = PublishDate::IsoDate(String::from("2021-13-01"));
    assert!(matches!(o.publish_datetime(today), Err(Error::Parse { .. })));
}

#[test]
fn publish_rejects_malformed_clock_time() {
    let mut o = base_opts();
    o.publish_at = PublishDate::IsoDate(String::from("2021-12-24"));
    o.publish_time = String::from("8:00");
    let today = Date { year: 2021, month: 9, day: 2 };
    let e = o.publish_datetime(today).unwrap_err();
    assert!(matches!(&e, Error::Parse { field, value } if field == "time" && value == "8:00"));
}

#[test]
fn publish_rejects_unrepresentable_dates() {
    let mut o = base_opts();
    o.publish_at = PublishDate::WeeksFromEpisode;
    o.first_episode_date = String::from("9999-12-31");
    o.episode_nr = Some(1);
    let today = Date { year: 2021, month: 9, day: 2 };
    assert!(matches!(o.publish_datetime(today), Err(Error::Validation { .. })));
    let mut o = base_opts();
    o.publish_at = PublishDate::Coming(String::from("friday"));
    let late = Date { year: 9999, month: 12, day: 31 };
    assert!(matches!(o.publish_datetime(late), Err(Error::Validation { .. })));
}

#[test]
fn category_and_privacy_wire_values() {
    assert_eq!(Categories::Science.code(), 28);
    assert_eq!(Categories::People.code(), 22);
    assert_eq!(Categories::Comedy.code(), 23);
    assert_eq!(Categories::Science.id_string(), "28");
    assert_eq!(PrivacyStates::Public.label(), "public");
    assert_eq!(PrivacyStates::Private.label(), "private");
    assert_eq!(PrivacyStates::Unlisted.label(), "unlisted");
    assert!(matches!(ChangeMode::Append, ChangeMode::Append));
}
