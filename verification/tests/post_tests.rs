use personal_site::errors::{ExtractError, RenderError};
use personal_site::posts::{Content, Post};
use personal_site::schema::{ProjectMetadata, WishlistFrontmatter};

const DOC: &str =
    "---\nname: Entry\ncreated_at: 2024-01-01\n---\n\nSee [text](http://example.com) for more.\n";

#[test]
fn fresh_post_holds_markdown_with_full_text() {
    let post = Post::<WishlistFrontmatter, ()>::from_file(DOC).unwrap();
    assert!(post.content.is_markdown());
    assert!(!post.content.is_html());
    // the entire file text, frontmatter block included, is the body
    assert_eq!(post.content.text(), DOC);
}

#[test]
fn from_file_with_metadata_keeps_the_metadata() {
    let meta = ProjectMetadata { slug: String::from("/projects/entry") };
    let post = Post::<WishlistFrontmatter, ProjectMetadata>::from_file_with_metadata(
        DOC,
        meta.clone(),
    )
    .unwrap();
    assert_eq!(post.metadata, meta);
    assert_eq!(post.frontmatter.name, "Entry");
}

#[test]
fn from_file_propagates_extraction_failure() {
    let r = Post::<WishlistFrontmatter, ()>::from_file("no frontmatter here\n");
    assert_eq!(r.unwrap_err(), ExtractError::MissingFrontmatter);
}

#[test]
fn render_flips_content_to_html_exactly_once() {
    let mut post = Post::<WishlistFrontmatter, ()>::from_file(DOC).unwrap();
    assert!(post.content.is_markdown());
    post.parse_content().unwrap();
    assert!(post.content.is_html());

    // a second render is a caller error and leaves the content unchanged
    let html_before = post.content.text().clone();
    let r = post.parse_content();
    assert_eq!(r.unwrap_err(), RenderError::AlreadyRendered);
    assert!(post.content.is_html());
    assert_eq!(post.content.text(), &html_before);
}

#[test]
fn rendered_anchor_opens_in_new_tab() {
    let mut post = Post::<WishlistFrontmatter, ()>::from_file(DOC).unwrap();
    post.parse_content().unwrap();
    let html = post.content.text();
    assert!(html.contains(
        "<a hx-boost=\"false\" target=\"_blank\" href=\"http://example.com\">text</a>"
    ));
    // no anchor is left without the added attributes
    assert!(!html.contains("<a href="));
}

#[test]
fn rendering_keeps_frontmatter_out_of_the_output() {
    let mut post = Post::<WishlistFrontmatter, ()>::from_file(DOC).unwrap();
    post.parse_content().unwrap();
    let html = post.content.text();
    assert!(!html.contains("created_at"));
    assert!(html.contains("See"));
}

#[test]
fn content_text_returns_the_inner_string() {
    let md = Content::Markdown(String::from("body"));
    assert_eq!(md.text(), "body");
    let html = Content::Html(String::from("<p>body</p>"));
    assert_eq!(html.text(), "<p>body</p>");
}
