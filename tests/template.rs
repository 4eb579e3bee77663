use selfblog::date::Date;
use selfblog::markdown::render_markdown;
use selfblog::post::Post;
use selfblog::template::{compose, publish_page, render_page, title_header};

fn day() -> Date {
    Date::new(2024, 3, 7).unwrap()
}

#[test]
fn header_pads_month_and_day() {
    assert_eq!(title_header("Hello", day()), "<p>2024-03-07: Hello</p>");
    let d = Date::new(2023, 11, 25).unwrap();
    assert_eq!(title_header("T", d), "<p>2023-11-25: T</p>");
}

#[test]
fn header_with_negative_year() {
    let d = Date::new(-44, 3, 15).unwrap();
    assert_eq!(title_header("Ides", d), "<p>-44-03-15: Ides</p>");
}

#[test]
fn compose_fills_both_placeholders() {
    let t = "<html>[selfblog_main_title]<div>[selfblog_post]</div></html>";
    assert_eq!(
        compose(t, "Hello", day(), "<p>body</p>"),
        "<html><p>2024-03-07: Hello</p><div><p>body</p></div></html>"
    );
}

#[test]
fn compose_replaces_body_placeholder_twice() {
    let t = "a[selfblog_post]b[selfblog_post]c";
    assert_eq!(compose(t, "x", day(), "B"), "aBbBc");
}

#[test]
fn compose_replaces_title_placeholder_everywhere() {
    let t = "[selfblog_main_title]|[selfblog_main_title]";
    assert_eq!(compose(t, "T", day(), ""), "<p>2024-03-07: T</p>|<p>2024-03-07: T</p>");
}

#[test]
fn compose_twice_is_identical() {
    let t = "<h1>[selfblog_main_title]</h1>\n[selfblog_post]\n";
    let first = compose(t, "Same", day(), "<em>x</em>");
    let second = compose(t, "Same", day(), "<em>x</em>");
    assert_eq!(first, second);
}

#[test]
fn compose_without_placeholders_passes_through() {
    let t = "<html><body>[selfblog_other]</body></html>";
    assert_eq!(compose(t, "T", day(), "B"), t);
}

#[test]
fn markdown_renders_heading() {
    assert_eq!(render_markdown("# Hi"), "<h1>Hi</h1>\n");
    assert_eq!(render_markdown(""), "");
}

#[test]
fn markdown_renders_extensions() {
    assert_eq!(render_markdown("~~gone~~"), "<p><del>gone</del></p>\n");
}

#[test]
fn ready_page_of_empty_draft() {
    let t = "<body>[selfblog_main_title]\n<main>[selfblog_post]</main></body>";
    let page = render_page(t, "", "Hello", day());
    assert_eq!(page, "<body><p>2024-03-07: Hello</p>\n<main></main></body>");
    let post = Post::new(1);
    assert_eq!(post.ready(t, "", "Hello", day()), page);
}

#[test]
fn ready_page_renders_markdown() {
    let page = render_page("[selfblog_post]", "*hi*", "T", day());
    assert_eq!(page, "<p><em>hi</em></p>\n");
}

#[test]
fn publish_page_fills_leftover_title() {
    assert_eq!(publish_page("x[selfblog_main_title]y", "T", day()), "x<p>2024-03-07: T</p>y");
    assert_eq!(publish_page("done", "T", day()), "done");
}

#[test]
fn date_new_checks_ranges() {
    assert!(Date::new(2024, 0, 1).is_none());
    assert!(Date::new(2024, 13, 1).is_none());
    assert!(Date::new(2024, 1, 0).is_none());
    assert!(Date::new(2024, 1, 32).is_none());
    let d = Date::new(2024, 12, 31).unwrap();
    assert_eq!((d.year, d.month, d.day), (2024, 12, 31));
}

#[test]
fn today_is_a_calendar_date() {
    let d = Date::today();
    assert!(1 <= d.month && d.month <= 12);
    assert!(1 <= d.day && d.day <= 31);
    assert!(d.year >= 2000);
}
