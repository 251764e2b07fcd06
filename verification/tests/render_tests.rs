use personal_site::render::replace_anchors;

#[test]
fn rewrites_every_anchor() {
    let html = "<p><a href=\"https://x\">one</a> and <a href=\"https://y\">two</a></p>";
    let out = replace_anchors(html);
    assert_eq!(
        out,
        "<p><a hx-boost=\"false\" target=\"_blank\" href=\"https://x\">one</a> \
         and <a hx-boost=\"false\" target=\"_blank\" href=\"https://y\">two</a></p>"
    );
}

#[test]
fn text_without_anchors_is_untouched() {
    let html = "<p>No links here, just &lt;a&gt; talk about anchors.</p>";
    assert_eq!(replace_anchors(html), html);
}

#[test]
fn empty_input_stays_empty() {
    assert_eq!(replace_anchors(""), "");
}

#[test]
fn partial_pattern_is_not_rewritten() {
    // only the exact anchor markup is touched
    let html = "<a class=\"x\" href=\"https://x\">styled</a>";
    assert_eq!(replace_anchors(html), html);
}

#[test]
fn adjacent_anchors_are_each_rewritten() {
    let out = replace_anchors("<a href=1><a href=2>");
    assert_eq!(
        out,
        "<a hx-boost=\"false\" target=\"_blank\" href=1><a hx-boost=\"false\" target=\"_blank\" href=2>"
    );
}
