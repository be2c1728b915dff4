use dnguyen_blog::datetime::UtcDateTime;
use dnguyen_blog::models::dto::{date_repr, BlogPostPreview};
use dnguyen_blog::models::BlogPost;

fn date(year: i32, month: u32, day: u32) -> UtcDateTime {
    UtcDateTime::new(year, month, day, 12, 30, 0, 0).unwrap()
}

fn post(body: Option<String>) -> BlogPost {
    BlogPost {
        id: 7,
        created_at: date(2020, 12, 25),
        updated_at: None,
        published_at: None,
        publish_state: "public".to_string(),
        body,
        title: "A title".to_string(),
        slug: "a-title".to_string(),
    }
}

#[test]
fn preview_without_body_is_none() {
    let p = post(None);
    assert!(p.can_preview());
    assert_eq!(None, p.content_preview());
    assert_eq!("", p.preview_markdown());
}

#[test]
fn short_body_is_previewed_whole() {
    let body = "word ".repeat(60);
    assert_eq!(300, body.len());
    let p = post(Some(body.clone()));
    assert_eq!(Some(body), p.content_preview());
}

#[test]
fn long_ascii_body_is_cut_at_word_end() {
    // 258 letters, then a space: the cut falls at character 258.
    let mut body = "a".repeat(258);
    body.push(' ');
    body.push_str(&"b".repeat(100));
    let p = post(Some(body));
    assert!(p.can_preview());
    let expected = format!("{}...", "a".repeat(258));
    assert_eq!(Some(expected.clone()), p.content_preview());
    assert_eq!(expected, p.preview_markdown());
}

#[test]
fn long_body_with_word_end_at_255_is_cut_there() {
    let mut body = "x".repeat(255);
    body.push('\n');
    body.push_str(&"y".repeat(60));
    let p = post(Some(body));
    assert_eq!(Some(format!("{}...", "x".repeat(255))), p.content_preview());
}

#[test]
fn carriage_return_ends_a_word() {
    let mut body = "x".repeat(270);
    body.push('\r');
    body.push_str(&"y".repeat(60));
    let p = post(Some(body));
    assert_eq!(Some(format!("{}...", "x".repeat(270))), p.content_preview());
}

#[test]
fn long_body_without_word_end_keeps_everything() {
    let body = "a".repeat(301);
    let p = post(Some(body.clone()));
    assert_eq!(Some(format!("{}...", body)), p.content_preview());
}

#[test]
fn multibyte_body_is_cut_by_bytes() {
    // 101 three-byte characters: 303 bytes but only 101 characters, so the
    // cut stays at 255, which is taken as a byte offset: 85 characters.
    let body = "€".repeat(101);
    let p = post(Some(body));
    assert!(p.can_preview());
    assert_eq!(Some(format!("{}...", "€".repeat(85))), p.content_preview());
}

#[test]
fn cut_inside_a_character_is_refused() {
    // 151 two-byte characters: the cut at byte 255 falls inside one.
    let p = post(Some("é".repeat(151)));
    assert!(!p.can_preview());
}

#[test]
fn date_repr_pads_the_day() {
    assert_eq!("05, Jan 2021", date_repr(&date(2021, 1, 5)));
    assert_eq!("25, Dec 2020", date_repr(&date(2020, 12, 25)));
    assert_eq!("15, Mar -44", date_repr(&date(-44, 3, 15)));
    assert_eq!("01, Jul 0", date_repr(&date(0, 7, 1)));
}

#[test]
fn preview_uses_publication_date_when_present() {
    let mut p = post(Some("Hello".to_string()));
    let unpublished = BlogPostPreview::from_rendered(&p, "<p>Hello</p>".to_string());
    assert_eq!("25, Dec 2020", unpublished.date_repr);
    p.published_at = Some(date(2021, 2, 3));
    let published = BlogPostPreview::from_rendered(&p, "<p>Hello</p>".to_string());
    assert_eq!(7, published.id);
    assert_eq!("A title", published.title);
    assert_eq!("a-title", published.slug);
    assert_eq!("03, Feb 2021", published.date_repr);
    assert_eq!("<p>Hello</p>", published.preview);
}

#[test]
fn calendar_dates_are_checked() {
    assert!(UtcDateTime::new(2021, 2, 29, 0, 0, 0, 0).is_none());
    assert!(UtcDateTime::new(2020, 2, 29, 0, 0, 0, 0).is_some());
    assert!(UtcDateTime::new(1900, 2, 29, 0, 0, 0, 0).is_none());
    assert!(UtcDateTime::new(2000, 2, 29, 0, 0, 0, 0).is_some());
    assert!(UtcDateTime::new(2021, 13, 1, 0, 0, 0, 0).is_none());
    assert!(UtcDateTime::new(2021, 4, 31, 0, 0, 0, 0).is_none());
    assert!(UtcDateTime::new(2021, 4, 0, 0, 0, 0, 0).is_none());
    assert!(UtcDateTime::new(2021, 4, 1, 24, 0, 0, 0).is_none());
    assert!(UtcDateTime::new(2021, 4, 1, 23, 59, 59, 1_500_000_000).is_some());
    assert!(UtcDateTime::new(2021, 4, 1, 23, 59, 58, 1_500_000_000).is_none());
    assert!(UtcDateTime::new(262143, 1, 1, 0, 0, 0, 0).is_none());
    let t = UtcDateTime::new(2021, 4, 1, 23, 59, 58, 999).unwrap();
    assert_eq!((2021, 4, 1), (t.year(), t.month(), t.day()));
    assert_eq!((23, 59, 58, 999), (t.hour(), t.minute(), t.second(), t.nanosecond()));
}
