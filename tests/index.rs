use selfblog::config::Classes;
use selfblog::date::Date;
use selfblog::index::{insert_entry, remove_entry};
use selfblog::post::{delete, update, Post};

fn classes() -> Classes {
    Classes { title_text_main: "title".to_string(), description_text_main: "desc".to_string() }
}

fn day() -> Date {
    Date::new(2024, 3, 7).unwrap()
}

const INDEX: &str = "<html>\n<body>\n<!-- [new_post_redirect] -->\n</body>\n</html>\n";

const BLOCK: &str = "<a title=\"post-1\" href=\"posts/post-1.html\">\n\
<p class=\"title\">2024-03-07: Hello</p>\n\
<p class=\"desc\">Description: World</p>\n\
</a>";

#[test]
fn insert_puts_block_after_marker() {
    let out = insert_entry(INDEX, 1, "Hello", "World", day(), &classes());
    let expected = format!(
        "<html>\n<body>\n<!-- [new_post_redirect] -->\n{}\n</body>\n</html>\n",
        BLOCK
    );
    assert_eq!(out, expected);
}

#[test]
fn newest_entry_comes_first() {
    let once = insert_entry(INDEX, 1, "One", "First", day(), &classes());
    let twice = insert_entry(&once, 2, "Two", "Second", day(), &classes());
    let lines: Vec<&str> = twice.split('\n').collect();
    assert_eq!(lines[2], "<!-- [new_post_redirect] -->");
    assert_eq!(lines[3], "<a title=\"post-2\" href=\"posts/post-2.html\">");
    assert_eq!(lines[7], "<a title=\"post-1\" href=\"posts/post-1.html\">");
}

#[test]
fn insert_after_indented_marker() {
    let out = insert_entry("  <!-- [new_post_redirect] -->  \nend", 3, "T", "D", day(), &classes());
    assert!(out.starts_with("  <!-- [new_post_redirect] -->  \n<a title=\"post-3\""));
    assert!(out.ends_with("</a>\nend"));
}

#[test]
fn insert_without_marker_keeps_index() {
    let index = "<html>\n<body></body>\n</html>";
    assert_eq!(insert_entry(index, 1, "T", "D", day(), &classes()), index);
}

#[test]
fn insert_then_remove_restores_index() {
    let index = "<ul>\n<!-- [new_post_redirect] -->\n<a title=\"post-4\" href=\"posts/post-4.html\">\n<p>a</p>\n<p>b</p>\n</a>\n</ul>\n";
    let inserted = insert_entry(index, 5, "T", "D", day(), &classes());
    assert_ne!(inserted, index);
    assert_eq!(remove_entry(&inserted, 5), index);
}

#[test]
fn remove_drops_four_lines_and_keeps_marker() {
    let published = insert_entry(INDEX, 1, "Hello", "World", day(), &classes());
    let removal = delete(1, &published);
    assert_eq!(removal.path, "posts/post-1.html");
    assert_eq!(removal.index, INDEX);
    assert!(removal.index.contains("<!-- [new_post_redirect] -->"));
}

#[test]
fn remove_other_id_keeps_index() {
    let published = insert_entry(INDEX, 1, "Hello", "World", day(), &classes());
    assert_eq!(remove_entry(&published, 2), published);
}

#[test]
fn remove_matches_after_leading_space() {
    let index = "top\n   <a title=\"post-7\" href=\"x\">\n1\n2\n3\nbottom";
    assert_eq!(remove_entry(index, 7), "top\nbottom");
}

#[test]
fn remove_matches_whole_id() {
    let index = "<a title=\"post-50\" href=\"posts/post-50.html\">\n1\n2\n</a>\nrest";
    assert_eq!(remove_entry(index, 5), index);
    assert_eq!(remove_entry(index, 50), "rest");
}

#[test]
fn delete_one_keeps_ten() {
    let one = insert_entry(INDEX, 1, "One", "First", day(), &classes());
    let both = insert_entry(&one, 10, "Ten", "Tenth", day(), &classes());
    let removal = delete(1, &both);
    assert_eq!(removal.index, insert_entry(INDEX, 10, "Ten", "Tenth", day(), &classes()));
}

#[test]
fn remove_near_end_drops_what_is_left() {
    assert_eq!(remove_entry("keep\n<a title=\"post-2\">\nx", 2), "keep");
    assert_eq!(remove_entry("keep\n<a title=\"post-2", 2), "keep\n<a title=\"post-2");
}

#[test]
fn publish_gives_page_and_index() {
    let post = Post::new(1);
    assert_eq!(post.page_path, "posts/post-1.html");
    let out = post.publish("<p>ready</p>", INDEX, "Hello", "World", day(), &classes());
    assert_eq!(out.page, "<p>ready</p>");
    assert!(out.index.contains(BLOCK));
    assert_eq!(post.delete(&out.index), INDEX);
}

#[test]
fn update_renders_into_page_of_id() {
    let w = update(12, "[selfblog_main_title][selfblog_post]", "text", "T", day());
    assert_eq!(w.path, "posts/post-12.html");
    assert_eq!(w.content, "<p>2024-03-07: T</p><p>text</p>\n");
}

#[test]
fn post_names_follow_id() {
    let p = Post::new(105);
    assert_eq!(p.post_id, 105);
    assert_eq!(p.post_path, "post-105.md");
    assert_eq!(p.post_info_path, ".post-105");
    assert_eq!(p.page_path, "posts/post-105.html");
}
