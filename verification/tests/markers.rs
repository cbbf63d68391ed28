use hack_scraper::error::{ExtractError, ParseError};
use hack_scraper::markers::{MarkerTree, ITEM_CLASS, LINK_TAG, RANK_CLASS, TITLE_CLASS};
use hack_scraper::record::{Candidate, ExtractedRecord, LINK_ATTR};

fn tree(body: &str) -> MarkerTree {
    match MarkerTree::parse(body) {
        Ok(tree) => tree,
        Err(e) => panic!("parse failed: {:?}", e),
    }
}

fn entry(rank: &str, title: &str, href: &str) -> String {
    format!(
        "<tr class=\"athing\"><td class=\"title\"><span class=\"rank\">{}</span></td>\
         <td class=\"title\"><a href=\"{}\">{}</a></td></tr>",
        rank, href, title
    )
}

fn page(rows: &[String]) -> String {
    format!("<html><body><table>{}</table></body></html>", rows.concat())
}

fn record(rank: &str, title: &str, url: &str) -> ExtractedRecord {
    ExtractedRecord {
        rank: Some(rank.to_string()),
        title: title.to_string(),
        url: url.to_string(),
    }
}

#[test]
fn marker_names_are_as_documented() {
    assert_eq!(ITEM_CLASS, "athing");
    assert_eq!(RANK_CLASS, "rank");
    assert_eq!(TITLE_CLASS, "title");
    assert_eq!(LINK_TAG, "a");
    assert_eq!(LINK_ATTR, "href");
}

#[test]
fn marker_tree_refuses_an_empty_body() {
    assert!(matches!(MarkerTree::parse(""), Err(ParseError::EmptyInput)));
}

#[test]
fn marker_tree_takes_malformed_markup() {
    assert!(MarkerTree::parse(" ").is_ok());
    assert!(MarkerTree::parse("<table><tr class=athing><td><a href=x>unclosed").is_ok());
    assert!(MarkerTree::parse("plain text, no tags").is_ok());
}

#[test]
fn page_without_entries_gives_no_stories() {
    let t = tree("<html><body><p>nothing here</p></body></html>");
    assert_eq!(t.candidates(), Vec::<Candidate>::new());
    assert_eq!(t.ranked_stories(), Ok(Vec::new()));
}

#[test]
fn two_entries_in_document_order() {
    let t = tree(&page(&[entry("1.", "Story A", "http://a"), entry("2.", "Story B", "http://b")]));
    assert_eq!(
        t.ranked_stories(),
        Ok(vec![record("1.", "Story A", "http://a"), record("2.", "Story B", "http://b")])
    );
}

#[test]
fn candidates_hold_what_the_sub_queries_find() {
    let body = page(&[
        entry("1.", "Story A", "http://a"),
        "<tr class=\"athing\"><td class=\"title\"><a>No target</a></td></tr>".to_string(),
        "<tr class=\"athing\"><td class=\"other\"><a href=\"http://c\">Not under title</a>\
         </td></tr>"
            .to_string(),
    ]);
    let t = tree(&body);
    assert_eq!(
        t.candidates(),
        vec![
            Candidate {
                rank: Some("1.".to_string()),
                title: Some("Story A".to_string()),
                href: Some("http://a".to_string()),
            },
            Candidate { rank: None, title: Some("No target".to_string()), href: None },
            Candidate { rank: None, title: None, href: None },
        ]
    );
}

#[test]
fn title_text_includes_nested_text() {
    let body = page(&["<tr class=\"athing\"><td class=\"title\"><span class=\"rank\">1.</span>\
                       <a href=\"http://a\">Story <b>A</b> again</a></td></tr>"
        .to_string()]);
    assert_eq!(tree(&body).ranked_stories(), Ok(vec![record("1.", "Story A again", "http://a")]));
}

#[test]
fn first_title_link_and_first_rank_are_taken() {
    let body = page(&["<tr class=\"athing\"><td class=\"title\"><span class=\"rank\">1.</span>\
                       <span class=\"rank\">99.</span></td><td class=\"title\">\
                       <a href=\"http://first\">First</a><a href=\"http://second\">Second</a>\
                       </td></tr>"
        .to_string()]);
    assert_eq!(tree(&body).ranked_stories(), Ok(vec![record("1.", "First", "http://first")]));
}

#[test]
fn class_is_matched_among_several() {
    let body = "<table><tr class=\"spacer athing odd\"><td class=\"x title\">\
                <span class=\"rank big\">5.</span><a href=\"http://e\">Story E</a></td></tr>\
                </table>";
    assert_eq!(tree(body).ranked_stories(), Ok(vec![record("5.", "Story E", "http://e")]));
}

#[test]
fn entry_without_rank_ends_the_run() {
    let body = page(&[
        entry("1.", "Story A", "http://a"),
        "<tr class=\"athing\"><td class=\"title\"><a href=\"http://b\">Story B</a></td></tr>"
            .to_string(),
    ]);
    assert_eq!(tree(&body).ranked_stories(), Err(ExtractError::MissingRank));
}

#[test]
fn entry_without_title_link_ends_the_run() {
    let body = page(&[
        "<tr class=\"athing\"><td class=\"title\"><span class=\"rank\">1.</span></td></tr>"
            .to_string(),
        entry("2.", "Story B", "http://b"),
    ]);
    assert_eq!(tree(&body).ranked_stories(), Err(ExtractError::MissingTitle));
}

#[test]
fn entry_without_href_ends_the_run() {
    let body = page(&[
        entry("1.", "Story A", "http://a"),
        "<tr class=\"athing\"><td class=\"title\"><span class=\"rank\">2.</span>\
         <a>Story B</a></td></tr>"
            .to_string(),
        entry("3.", "Story C", "http://c"),
    ]);
    assert_eq!(tree(&body).ranked_stories(), Err(ExtractError::MissingHref));
}

#[test]
fn ranked_login_entry_is_passed_over() {
    let body = page(&[
        entry("1.", "Story A", "http://a"),
        entry("2.", "Story B", "http://b"),
        entry("3.", "login", "login?goto=news"),
    ]);
    assert_eq!(
        tree(&body).ranked_stories(),
        Ok(vec![record("1.", "Story A", "http://a"), record("2.", "Story B", "http://b")])
    );
}

#[test]
fn thirty_entries_keep_their_order() {
    let rows: Vec<String> = (1..=30)
        .map(|n| entry(&format!("{}.", n), &format!("Story {}", n), &format!("http://s/{}", n)))
        .collect();
    let expected: Vec<ExtractedRecord> = (1..=30)
        .map(|n| record(&format!("{}.", n), &format!("Story {}", n), &format!("http://s/{}", n)))
        .collect();
    assert_eq!(tree(&page(&rows)).ranked_stories(), Ok(expected));
}

#[test]
fn links_lists_every_target_in_document_order() {
    let body = "<html><body><a href=\"http://one\">1</a><p><a href=\"/two\">2</a></p>\
                <div><span><a href=\"#three\">3</a></span></div></body></html>";
    assert_eq!(tree(body).links(), vec!["http://one", "/two", "#three"]);
}

#[test]
fn links_passes_over_anchors_without_target() {
    let body = "<a name=\"top\">top</a><a href=\"http://one\">1</a><a>none</a>\
                <a href=\"\">empty</a><a href=\"http://two\">2</a>";
    assert_eq!(tree(body).links(), vec!["http://one", "", "http://two"]);
}

#[test]
fn links_of_a_page_without_anchors() {
    assert_eq!(tree("<p>no links</p>").links(), Vec::<String>::new());
}

#[test]
fn links_only_reads_anchors() {
    let body = "<link href=\"style.css\"><area href=\"/map\"><a href=\"/a\">a</a>";
    assert_eq!(tree(body).links(), vec!["/a"]);
}

#[test]
fn texts_are_trimmed_and_targets_are_not() {
    let body = page(&["<tr class=\"athing\"><td class=\"title\"><span class=\"rank\"> 1. </span>\
                       <a href=\" http://a \">  Story  A\n</a></td></tr>"
        .to_string()]);
    assert_eq!(
        tree(&body).ranked_stories(),
        Ok(vec![record("1.", "Story  A", " http://a ")])
    );
}

#[test]
fn text_at_reads_the_trimmed_text_of_a_node() {
    let t = tree("<p> a <b> b </b>\n</p>");
    let texts: Vec<Option<String>> = (0..8).map(|n| t.text_at(n)).collect();
    assert!(texts.contains(&Some("a  b".to_string())));
    assert!(texts.contains(&Some("b".to_string())));
    assert!(!texts.contains(&Some(" b ".to_string())));
    assert_eq!(t.text_at(1000), None);
    assert_eq!(t.text_at(usize::MAX), None);
}

#[test]
fn ranked_login_with_whitespace_around_it_is_passed_over() {
    let body = page(&[
        entry("1.", "Story A", "http://a"),
        entry("2.", "\n   login\t ", "login?goto=news"),
        entry("3.", "log in", "http://c"),
    ]);
    assert_eq!(
        tree(&body).ranked_stories(),
        Ok(vec![record("1.", "Story A", "http://a"), record("3.", "log in", "http://c")])
    );
}

#[test]
fn blank_title_counts_as_missing() {
    let body = page(&[entry("1.", "   ", "http://a")]);
    assert_eq!(tree(&body).ranked_stories(), Err(ExtractError::MissingTitle));
    let body = page(&[entry("1.", "", "http://a")]);
    assert_eq!(tree(&body).ranked_stories(), Err(ExtractError::MissingTitle));
}

#[test]
fn entry_with_empty_target_counts_as_missing() {
    let body = page(&[entry("1.", "Story A", "http://a"), entry("2.", "Story B", "")]);
    assert_eq!(tree(&body).ranked_stories(), Err(ExtractError::MissingHref));
}

#[test]
fn deepest_markup_that_is_taken_is_read() {
    let body = format!(
        "{}<p class=\"athing\"><span class=\"rank\">1.</span>\
         <span class=\"title\"><a href=\"/d\">deep</a></span></p>",
        "<div>".repeat(505)
    );
    let t = tree(&body);
    assert_eq!(t.ranked_stories(), Ok(vec![record("1.", "deep", "/d")]));
    assert_eq!(t.links(), vec!["/d"]);
    assert_eq!(t.text_at(0).map(|text| text.len()), Some(6));
}

#[test]
fn marker_tree_refuses_markup_that_nests_too_deep() {
    assert!(matches!(MarkerTree::parse(&"<div>".repeat(511)), Err(ParseError::TooDeep)));
    assert!(matches!(MarkerTree::parse(&"<div>".repeat(8_000)), Err(ParseError::TooDeep)));
    assert!(MarkerTree::parse(&"<div>".repeat(510)).is_ok());
}
