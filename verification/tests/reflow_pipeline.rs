use xpedia::reflow::{
    reflow_article, remove_contents_section, strip_anchor_tags, strip_markup, strip_plain_text,
    strip_residues,
};

fn chars(s: &str) -> Vec<char> {
    s.chars().collect()
}

fn text(v: &[char]) -> String {
    v.iter().collect()
}

#[test]
fn anchor_tags_are_stripped_through_closing_bracket() {
    let v = chars("x<a href=\"#cite_note-1\">y</a>z");
    let r = strip_anchor_tags(&v);
    assert_eq!(text(&r), "xy</a>z");
}

#[test]
fn non_fragment_anchor_is_kept() {
    let v = chars("<a href=\"https://x\">y");
    let r = strip_anchor_tags(&v);
    assert_eq!(text(&r), "<a href=\"https://x\">y");
}

#[test]
fn unterminated_anchor_drops_the_rest() {
    let v = chars("a<a href=\"#x");
    let r = strip_anchor_tags(&v);
    assert_eq!(text(&r), "a");
}

#[test]
fn citation_markers_are_removed_whole() {
    let v = chars("Text[1] and[23].");
    let r = strip_markup(&v);
    assert_eq!(text(&r), "Text and.");
}

#[test]
fn empty_citation_marker_is_removed() {
    let v = chars("a[]b");
    let r = strip_markup(&v);
    assert_eq!(text(&r), "ab");
}

#[test]
fn stray_brackets_are_removed_alone() {
    let v = chars("a[b]c");
    let r = strip_markup(&v);
    assert_eq!(text(&r), "abc");
}

#[test]
fn unclosed_citation_keeps_digits() {
    let v = chars("x[12");
    let r = strip_markup(&v);
    assert_eq!(text(&r), "x12");
}

#[test]
fn citation_removal_can_rebuild_a_token() {
    // The passes run once, as the single pass over the text they specify:
    // removing a citation can join its neighbours into a fresh token.
    let v = chars("ed[1]it");
    let r = strip_markup(&v);
    assert_eq!(text(&r), "edit");
}

#[test]
fn edit_labels_are_removed() {
    let v = chars("History[edit] section");
    let r = strip_markup(&v);
    assert_eq!(text(&r), "History section");
}

#[test]
fn bare_urls_are_removed_up_to_whitespace() {
    let v = chars("see https://example.org/a now");
    let r = strip_markup(&v);
    assert_eq!(text(&r), "see  now");
}

#[test]
fn url_at_end_is_removed_entirely() {
    let v = chars("go https://x");
    let r = strip_markup(&v);
    assert_eq!(text(&r), "go ");
}

#[test]
fn digit_before_space_goes_with_the_space() {
    let v = chars("a 3 b");
    let r = strip_residues(&v);
    assert_eq!(text(&r), "a b");
}

#[test]
fn digit_without_space_is_kept() {
    let v = chars("a3b 12x");
    let r = strip_residues(&v);
    assert_eq!(text(&r), "a3b 12x");
}

#[test]
fn contents_block_is_collapsed() {
    let v = chars("intro\n## Contents\n* one\n* two\n## History\nbody");
    let r = remove_contents_section(&v);
    let out = text(&r);
    assert_eq!(out, "intro\n## History\nbody");
    assert!(!out.contains("Contents"));
    assert!(!out.contains("* one"));
    assert!(!out.contains("* two"));
}

#[test]
fn contents_without_following_heading_is_left_unmodified() {
    let v = chars("x ## Contents tail");
    let r = remove_contents_section(&v);
    assert_eq!(text(&r), "x ## Contents tail");
}

#[test]
fn no_contents_marker_is_left_unmodified() {
    let v = chars("## History\nbody");
    let r = remove_contents_section(&v);
    assert_eq!(text(&r), "## History\nbody");
}

#[test]
fn stripping_twice_equals_stripping_once() {
    let dirty = chars("ab[12] cd[edit] ef https://e.org/x done");
    let once = strip_plain_text(&dirty);
    let twice = strip_plain_text(&once);
    assert_eq!(text(&twice), text(&once));

    let clean = chars("Hello world. Nothing to do here.");
    let once = strip_plain_text(&clean);
    assert_eq!(text(&once), "Hello world. Nothing to do here.");
    let twice = strip_plain_text(&once);
    assert_eq!(text(&twice), text(&once));
}

#[test]
fn reflow_article_renders_hypertext_to_plain_text() {
    let html = chars("<html><body><h1>Title</h1><p>Hello world</p></body></html>");
    let r = reflow_article(&html, 80).expect("rendering at width 80 succeeds");
    let out = text(&r);
    assert!(out.contains("Title"));
    assert!(out.contains("Hello world"));
    assert!(!out.contains('<'));
    assert!(!out.contains('>'));
}

#[test]
fn reflow_article_wraps_to_width() {
    let html = chars("<p>aaaa bbbb cccc dddd eeee ffff gggg hhhh</p>");
    let r = reflow_article(&html, 10).expect("rendering at width 10 succeeds");
    let out = text(&r);
    for line in out.lines() {
        assert!(line.chars().count() <= 10, "line too wide: {:?}", line);
    }
    assert!(out.contains("aaaa"));
    assert!(out.contains("hhhh"));
}

#[test]
fn reflow_article_strips_citations_after_rendering() {
    let html = chars("<p>Cats[1] are small.[2]</p>");
    let r = reflow_article(&html, 40).expect("rendering succeeds");
    let out = text(&r);
    assert!(out.contains("Cats are small."));
    assert!(!out.contains('['));
    assert!(!out.contains(']'));
}
