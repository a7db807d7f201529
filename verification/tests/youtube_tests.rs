use rsytup::calendar::Date;
use rsytup::error::Error;
use rsytup::options::{Categories, ChangeMode, PrivacyStates, PublishDate, UploadOptions};
use rsytup::youtube::{
    apply_description_change, build_submission, or_na, uploads_playlist_id, video_from_item,
    EntrySnippet, Page, PageItem, PageList, PlaylistMembership, YtVid,
};

fn snippet() -> EntrySnippet {
    EntrySnippet {
        title: String::from("T"),
        description: String::from("old "),
        tags: vec![String::from("a"), String::from("b")],
        category_id: String::from("28"),
        extra: vec![(String::from("defaultLanguage"), String::from("en"))],
    }
}

#[test]
fn merge_append_trims_then_appends() {
    let mut s = snippet();
    apply_description_change(&mut s, "new", ChangeMode::Append);
    assert_eq!(s.description, "oldnew");
    assert_eq!(s.title, "T");
    assert_eq!(s.tags, vec!["a", "b"]);
    assert_eq!(s.category_id, "28");
    assert_eq!(s.extra, vec![(String::from("defaultLanguage"), String::from("en"))]);
}

#[test]
fn merge_prepend_trims_then_prepends() {
    let mut s = snippet();
    apply_description_change(&mut s, "new", ChangeMode::Prepend);
    assert_eq!(s.description, "newold");
    assert_eq!(s.title, "T");
    assert_eq!(s.tags, vec!["a", "b"]);
}

#[test]
fn merge_replace_discards_old_text() {
    let mut s = snippet();
    apply_description_change(&mut s, "new", ChangeMode::Replace);
    assert_eq!(s.description, "new");
    assert_eq!(s.title, "T");
    assert_eq!(s.tags, vec!["a", "b"]);
}

#[test]
fn merge_append_trims_all_trailing_whitespace() {
    let mut s = snippet();
    s.description = String::from("old \t\n");
    apply_description_change(&mut s, " more", ChangeMode::Append);
    assert_eq!(s.description, "old more");
}

#[test]
fn read_by_id_empty_record_when_no_snippet() {
    let v = YtVid::from_id("vid1", Some((String::from("a title"), String::from("a desc"))));
    assert_eq!(v.id, "vid1");
    assert_eq!(v.title, "a title");
    assert_eq!(v.description, "a desc");
    let v = YtVid::from_id("vid2", None);
    assert_eq!(v.id, "vid2");
    assert_eq!(v.title, "");
    assert_eq!(v.description, "");
}

#[test]
fn page_items_default_to_na() {
    let v = video_from_item(PageItem {
        video_id: String::from("x"),
        title: None,
        description: Some(String::from("d")),
    });
    assert_eq!(v.id, "x");
    assert_eq!(v.title, "n.a.");
    assert_eq!(v.description, "d");
    assert_eq!(or_na(None), "n.a.");
    assert_eq!(or_na(Some(String::from("t"))), "t");
}

fn item(id: &str) -> PageItem {
    PageItem {
        video_id: String::from(id),
        title: Some(format!("title of {id}")),
        description: Some(String::from("d")),
    }
}

#[test]
fn pagination_concatenates_three_pages_in_order() {
    // A simulated three-page listing with cursors p1 -> p2 -> p3 -> none.
    let pages = vec![
        Page { items: vec![item("a"), item("b")], next_cursor: Some(String::from("p2")) },
        Page { items: vec![item("c")], next_cursor: Some(String::from("p3")) },
        Page { items: vec![item("d"), item("e")], next_cursor: None },
    ];
    let mut acc = PageList::new();
    let mut fetched = 0;
    let mut cursor: Option<String> = None;
    for (i, page) in pages.into_iter().enumerate() {
        if i > 0 {
            // The loop would fetch the next page with the cursor it was
            // handed; check the cursor chain is what the pages said.
            assert_eq!(cursor.as_deref(), Some(format!("p{}", i + 1).as_str()));
        }
        cursor = acc.take_page(page);
        fetched += 1;
    }
    assert!(cursor.is_none());
    assert_eq!(fetched, 3);
    let ids: Vec<&str> = acc.videos.iter().map(|v| v.id.as_str()).collect();
    assert_eq!(ids, vec!["a", "b", "c", "d", "e"]);
    assert_eq!(acc.videos[0].title, "title of a");
}

#[test]
fn uploads_container_resolution() {
    assert!(matches!(uploads_playlist_id(vec![]), Ok(None)));
    let r = uploads_playlist_id(vec![Some(String::from("UU123")), None]);
    assert_eq!(r.unwrap(), Some(String::from("UU123")));
    assert!(matches!(uploads_playlist_id(vec![None]), Err(Error::Transport { .. })));
}

#[test]
fn submission_carries_all_metadata() {
    let opts = UploadOptions {
        file: String::from("videos/2A-intro.mp4"),
        description: String::from("about this video"),
        title: None,
        thumbnail: None,
        thumbnail_watermark: String::from("logos.png"),
        thumb_second: 360,
        publish_at: PublishDate::Coming(String::from("friday")),
        publish_time: String::from("08:00:00"),
        episode_nr: None,
        playlist_id: None,
        keywords: String::from("rust,tutorial"),
        privacy_status: PrivacyStates::Private,
        category: Categories::Science,
        first_episode_date: String::from("2020-09-01"),
        pretend: false,
        ffmpeg_bin: String::from("ffmpeg"),
    };
    let today = Date { year: 2021, month: 9, day: 2 };
    let s = build_submission(&opts, today).unwrap();
    assert_eq!(s.title, "2A-intro");
    assert_eq!(s.description, "about this video");
    assert_eq!(s.tags, vec!["rust", "tutorial"]);
    assert_eq!(s.category_id, "28");
    assert_eq!(s.default_language, "en");
    assert_eq!(s.privacy_status, "private");
    assert_eq!(s.publish_at, "2021-09-03T08:00:00Z");
    assert!(!s.made_for_kids);
}

#[test]
fn submission_fails_when_schedule_cannot_resolve() {
    let opts = UploadOptions {
        file: String::from("x.mp4"),
        description: String::new(),
        title: None,
        thumbnail: None,
        thumbnail_watermark: String::new(),
        thumb_second: 0,
        publish_at: PublishDate::IsoDate(String::from("2021-13-01")),
        publish_time: String::from("08:00:00"),
        episode_nr: None,
        playlist_id: None,
        keywords: String::new(),
        privacy_status: PrivacyStates::Public,
        category: Categories::Comedy,
        first_episode_date: String::from("2020-09-01"),
        pretend: false,
        ffmpeg_bin: String::from("ffmpeg"),
    };
    let today = Date { year: 2021, month: 9, day: 2 };
    assert!(matches!(build_submission(&opts, today), Err(Error::Parse { .. })));
}

#[test]
fn playlist_membership_pairs_ids() {
    let m = PlaylistMembership::new("PL1", "vid1");
    assert_eq!(m.playlist_id, "PL1");
    assert_eq!(m.video_id, "vid1");
}

#[test]
fn error_messages_carry_context() {
    let e = Error::Parse { field: String::from("date"), value: String::from("2021-13-01") };
    assert_eq!(e.message(), "parse error: date = 2021-13-01");
    let e = Error::Transport { detail: String::from("connection reset") };
    assert_eq!(e.message(), "transport error: connection reset");
    assert_eq!(Error::NotImplemented.message(), "not implemented");
}
