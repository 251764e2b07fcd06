use personal_site::errors::RenderError;
use personal_site::listing::{filter_visible, is_visible, render_all, slug_for,
    sort_posts_newest_first};
use personal_site::posts::{Content, Post};
use personal_site::schema::WishlistFrontmatter;

fn entry(name: &str, created_at: &str) -> Post<WishlistFrontmatter, ()> {
    Post {
        frontmatter: WishlistFrontmatter {
            name: String::from(name),
            created_at: String::from(created_at),
            updated_at: None,
        },
        content: Content::Markdown(format!(
            "---\nname: {}\ncreated_at: {}\n---\nBody of {}\n",
            name, created_at, name
        )),
        metadata: (),
    }
}

#[test]
fn hidden_stems_are_filtered_out() {
    let stems = vec![
        String::from("_draft"),
        String::from("published"),
        String::from("_wip"),
        String::from("other"),
    ];
    let kept = filter_visible(stems, false);
    assert_eq!(kept, vec![String::from("published"), String::from("other")]);
}

#[test]
fn filter_override_keeps_hidden_stems() {
    let stems = vec![String::from("_draft"), String::from("published")];
    let kept = filter_visible(stems, true);
    assert_eq!(kept, vec![String::from("_draft"), String::from("published")]);
}

#[test]
fn empty_stem_is_visible() {
    assert!(is_visible("", false));
    assert!(!is_visible("_x", false));
    assert!(is_visible("_x", true));
    assert!(is_visible("x_y", false));
}

#[test]
fn slug_is_prefix_plus_stem() {
    assert_eq!(slug_for("/projects/", "site"), "/projects/site");
    assert_eq!(slug_for("", "x"), "x");
}

#[test]
fn posts_sort_newest_first_by_string_date() {
    let posts = vec![
        entry("old", "2022-05-01"),
        entry("newest", "2024-12-31"),
        entry("middle", "2023-07-15"),
    ];
    let sorted = sort_posts_newest_first(posts);
    let names: Vec<&str> = sorted.iter().map(|p| p.frontmatter.name.as_str()).collect();
    assert_eq!(names, vec!["newest", "middle", "old"]);
}

#[test]
fn date_sort_is_lexicographic_not_calendar() {
    // a lexicographically larger string wins even if oddly formatted
    let posts = vec![entry("a", "2024-2-1"), entry("b", "2024-12-31")];
    let sorted = sort_posts_newest_first(posts);
    // "2024-2-1" > "2024-12-31" because '2' > '1' at the month digit
    assert_eq!(sorted[0].frontmatter.name, "a");
}

#[test]
fn render_all_renders_every_post() {
    let posts = vec![entry("a", "2024-01-01"), entry("b", "2024-01-02")];
    let rendered = render_all(posts).unwrap();
    assert_eq!(rendered.len(), 2);
    assert!(rendered.iter().all(|p| p.content.is_html()));
}

#[test]
fn render_all_stops_on_already_rendered_content() {
    let mut pre_rendered = entry("a", "2024-01-01");
    pre_rendered.content = Content::Html(String::from("<p>done</p>"));
    let r = render_all(vec![pre_rendered]);
    assert_eq!(r.unwrap_err(), RenderError::AlreadyRendered);
}
