use personal_site::errors::{DecodeError, ExtractError};
use personal_site::frontmatter::extract;
use personal_site::links::{sort_links, Link};
use personal_site::schema::ProjectFrontmatter;

fn project_doc(links_block: &str) -> String {
    let mut doc = String::from("---\nname: P\ndescription: D\ncreated_at: 2024-01-01\n");
    doc.push_str(links_block);
    doc.push_str("---\n\nBody\n");
    doc
}

#[test]
fn github_key_gets_its_own_variant_and_sorts_first() {
    let doc = project_doc("links:\n  GitHub: https://x\n  Blog: https://y\n");
    let fm = extract::<ProjectFrontmatter>(&doc).unwrap();
    let links = fm.links.unwrap();
    assert_eq!(
        links.0,
        vec![
            Link::GitHub(String::from("https://x")),
            Link::Other(String::from("Blog"), String::from("https://y")),
        ]
    );
}

#[test]
fn decoded_links_are_sorted_regardless_of_mapping_order() {
    let a = project_doc("links:\n  Blog: https://y\n  GitHub: https://x\n  Awesome: https://z\n");
    let b = project_doc("links:\n  Awesome: https://z\n  GitHub: https://x\n  Blog: https://y\n");
    let la = extract::<ProjectFrontmatter>(&a).unwrap().links.unwrap();
    let lb = extract::<ProjectFrontmatter>(&b).unwrap().links.unwrap();
    assert_eq!(la, lb);
    assert_eq!(
        la.0,
        vec![
            Link::GitHub(String::from("https://x")),
            Link::Other(String::from("Awesome"), String::from("https://z")),
            Link::Other(String::from("Blog"), String::from("https://y")),
        ]
    );
}

#[test]
fn empty_links_mapping_decodes_to_empty_collection() {
    let doc = project_doc("links: {}\n");
    let fm = extract::<ProjectFrontmatter>(&doc).unwrap();
    assert_eq!(fm.links.unwrap().0, Vec::<Link>::new());
}

#[test]
fn absent_links_field_is_none() {
    let doc = project_doc("");
    let fm = extract::<ProjectFrontmatter>(&doc).unwrap();
    assert!(fm.links.is_none());
}

#[test]
fn non_mapping_links_field_is_rejected() {
    let doc = project_doc("links: 5\n");
    assert_eq!(
        extract::<ProjectFrontmatter>(&doc).unwrap_err(),
        ExtractError::Decode(DecodeError::WrongType(String::from("links")))
    );
}

#[test]
fn non_string_link_url_is_rejected() {
    let doc = project_doc("links:\n  Blog: 42\n");
    assert_eq!(
        extract::<ProjectFrontmatter>(&doc).unwrap_err(),
        ExtractError::Decode(DecodeError::WrongType(String::from("links")))
    );
}

#[test]
fn nested_mapping_link_url_is_rejected() {
    let doc = project_doc("links:\n  Blog:\n    url: https://y\n");
    assert_eq!(
        extract::<ProjectFrontmatter>(&doc).unwrap_err(),
        ExtractError::Decode(DecodeError::WrongType(String::from("links")))
    );
}

#[test]
fn sort_links_orders_github_then_titles_then_urls() {
    let sorted = sort_links(vec![
        Link::Other(String::from("Blog"), String::from("https://b")),
        Link::Other(String::from("Blog"), String::from("https://a")),
        Link::GitHub(String::from("https://g2")),
        Link::Other(String::from("Awesome"), String::from("https://c")),
        Link::GitHub(String::from("https://g1")),
    ]);
    assert_eq!(
        sorted,
        vec![
            Link::GitHub(String::from("https://g1")),
            Link::GitHub(String::from("https://g2")),
            Link::Other(String::from("Awesome"), String::from("https://c")),
            Link::Other(String::from("Blog"), String::from("https://a")),
            Link::Other(String::from("Blog"), String::from("https://b")),
        ]
    );
}

#[test]
fn sort_links_keeps_duplicates() {
    // duplicate members are not deduplicated, only ordered
    let sorted = sort_links(vec![
        Link::GitHub(String::from("https://x")),
        Link::GitHub(String::from("https://x")),
    ]);
    assert_eq!(sorted.len(), 2);
}

#[test]
fn link_order_matches_derived_comparison() {
    let g = Link::GitHub(String::from("https://x"));
    let o = Link::Other(String::from("A"), String::from("https://y"));
    assert!(g < o);
    let sorted = sort_links(vec![o.clone(), g.clone()]);
    assert_eq!(sorted, vec![g, o]);
}
