use rsytup::error::Error;
use rsytup::thumbnail::{layout_caption, split_caption, CaptionLine, PlacedLine};

fn line(text: &str, width: u32, height: u32) -> CaptionLine {
    CaptionLine { text: String::from(text), width, height }
}

#[test]
fn caption_splits_on_line_breaks() {
    assert_eq!(split_caption("line one\nline two"), vec!["line one", "line two"]);
    assert_eq!(split_caption("single"), vec!["single"]);
    assert_eq!(split_caption("a\n\nb"), vec!["a", "", "b"]);
}

#[test]
fn layout_centers_and_stacks_lines() {
    let lines = vec![line("first", 800, 200), line("second", 1000, 150)];
    let placed = layout_caption(&lines, 1920, 1080).unwrap();
    assert_eq!(placed.len(), 2);
    assert_eq!(placed[0], PlacedLine { x: (1920 - 800) / 2, y: 660 });
    assert_eq!(placed[1], PlacedLine { x: (1920 - 1000) / 2, y: 860 });
}

#[test]
fn layout_fails_on_too_wide_line_before_anything_is_drawn() {
    let lines = vec![line("fits", 100, 100), line("toowide", 1601, 100)];
    let e = layout_caption(&lines, 1920, 1080).unwrap_err();
    assert!(matches!(&e, Error::Validation { field, value } if field == "caption-width" && value == "toowide"));
    // The limit itself is already rejected.
    let lines = vec![line("exact", 1600, 100)];
    assert!(matches!(layout_caption(&lines, 1920, 1080), Err(Error::Validation { .. })));
    // Just under the limit fits.
    let lines = vec![line("almost", 1599, 100)];
    assert!(layout_caption(&lines, 1920, 1080).is_ok());
}

#[test]
fn layout_fails_when_text_runs_past_canvas_bottom() {
    let lines = vec![line("tall", 500, 420)];
    let e = layout_caption(&lines, 1920, 1080).unwrap_err();
    assert!(matches!(&e, Error::Validation { field, value } if field == "caption-height" && value == "tall"));
    // 660 + 419 = 1079 < 1080 still fits.
    let lines = vec![line("tall", 500, 419)];
    assert!(layout_caption(&lines, 1920, 1080).is_ok());
    // Accumulation: the second line no longer fits.
    let lines = vec![line("a", 500, 300), line("b", 500, 300)];
    let e = layout_caption(&lines, 1920, 1080).unwrap_err();
    assert!(matches!(&e, Error::Validation { field, value } if field == "caption-height" && value == "b"));
}

#[test]
fn error_messages_name_field_and_value() {
    let lines = vec![line("toowide", 1700, 100)];
    let e = layout_caption(&lines, 1920, 1080).unwrap_err();
    assert_eq!(e.message(), "validation error: caption-width = toowide");
}
