use ekursy_api::parsers::mercury::{try_parse, MercuryParser, PageFragment};
use ekursy_api::errors::ErrorResponse;

fn text(s: &str) -> PageFragment {
    PageFragment::Text { text: s.to_string() }
}

#[test]
fn mercury_reads_course_content() {
    let html = r#"<html><body><div class="course-content">
        <li class="section main"><h3 class="sectionname"> Week 1 </h3>
        <p>Intro <b>text</b></p>
        <a href="https://ekursy.put.poznan.pl/pluginfile.php/12/file.pdf">Slides</a>
        <a href="https://ekursy.put.poznan.pl/mod/forum/view.php?id=77&amp;x=1">News</a>
        <a href="https://ekursy.put.poznan.pl/mod/quiz/view.php?id=5">Quiz 1</a>
        <a href="https://ekursy.put.poznan.pl/user/profile.php?id=3">Me</a>
        <a href="https://example.com/x">Ext</a>
        <span class="accesshide">hidden</span>
        <iframe src="https://video/1"></iframe>
        </li></div></body></html>"#;
    let out = try_parse(html.to_string(), "42".to_string()).unwrap();
    assert_eq!(
        out,
        vec![
            PageFragment::SectionSeparator,
            PageFragment::Caption { text: "Week 1".to_string() },
            text("Intro text"),
            PageFragment::Proxy { text: "Slides".to_string(), link: "pluginfile.php/12/file.pdf".to_string() },
            PageFragment::Forum { text: "News".to_string(), id: "77".to_string() },
            PageFragment::Resource { text: "Quiz 1".to_string(), id: "5".to_string(), kind: "quiz".to_string() },
            PageFragment::Link { text: "Ext".to_string(), link: "https://example.com/x".to_string() },
            PageFragment::Iframe { src: "https://video/1".to_string() },
        ]
    );
}

#[test]
fn mercury_without_content_is_an_expired_session() {
    let r = MercuryParser.parse("<html><body><p>login</p></body></html>".to_string(), "1".to_string());
    assert_eq!(r, Err(ErrorResponse::AUTH_FAILED("Session expired".to_string())));
}

#[test]
fn mercury_merges_orphan_texts() {
    let html = r#"<div id="page-content">one<br>two<b>x</b>three<h2><span>Head</span></h2>tail</div>"#;
    let out = try_parse(html.to_string(), "1".to_string()).unwrap();
    assert_eq!(
        out,
        vec![
            PageFragment::OrphanText { text: "one two x three".to_string() },
            PageFragment::Caption { text: "Head".to_string() },
            PageFragment::OrphanText { text: "tail".to_string() },
        ]
    );
}

use ekursy_api::parsers::merkury::{MerkuryParser, Resource};
use ekursy_api::parsers::mercury::merge_orphans;
use ekursy_api::parsers::raw::RawParser;
use ekursy_api::parsers::{available_parsers, find_parser, run_parser, ParsedCourse, ParserKind};

#[test]
fn merkury_reads_texts_links_and_frames() {
    let html = r##"<div class="course-content"> loose <p> Para </p><a href="#top">Top</a>
<a href="https://x/y"> Link </a><iframe src="https://v"></iframe><style>.a{}</style>
<span>Plain span</span><li><div><p>Inner</p></div></li>
<button data-action="toggle-manual-completion">Mark as done</button></div>"##;
    let out = MerkuryParser.parse(html.to_string()).unwrap();
    assert_eq!(
        out,
        vec![
            Resource::Text { text: "loose".to_string() },
            Resource::Text { text: "Para".to_string() },
            Resource::Text { text: "Top".to_string() },
            Resource::Link { text: "Link".to_string(), link: "https://x/y".to_string() },
            Resource::Iframe { src: "https://v".to_string() },
            Resource::Text { text: "Plain span".to_string() },
            Resource::Text { text: "Inner".to_string() },
        ]
    );
    assert_eq!(
        MerkuryParser.parse("<p>no content</p>".to_string()),
        Err(ErrorResponse::AUTH_FAILED("Session expired".to_string()))
    );
}

#[test]
fn raw_parser_hands_back_course_pages() {
    let page = "<div class=\"course-content\">x</div>".to_string();
    assert_eq!(RawParser.parse(page.clone()), Ok(page));
    assert_eq!(RawParser.parse("<p>x</p>".to_string()), Err(ErrorResponse::AUTH_FAILED("Session expired".to_string())));
}

#[test]
fn parsers_on_offer_are_raw_and_mercury() {
    assert_eq!(available_parsers(), vec!["raw", "mercury"]);
    for name in available_parsers() {
        assert!(find_parser(name).is_some());
    }
    assert_eq!(find_parser("raw"), Some(ParserKind::Raw));
    assert_eq!(find_parser("mercury"), Some(ParserKind::Mercury));
    assert_eq!(find_parser("merkury"), None);
}

#[test]
fn run_parser_dispatches_by_kind() {
    let page = "<div class=\"course-content\"><p>Hi</p></div>".to_string();
    assert_eq!(run_parser(&ParserKind::Raw, page.clone(), "1".to_string()), Ok(ParsedCourse::Raw(page.clone())));
    assert_eq!(
        run_parser(&ParserKind::Mercury, page, "1".to_string()),
        Ok(ParsedCourse::Mercury(vec![text("Hi")]))
    );
}

#[test]
fn merging_is_idempotent_and_leaves_no_adjacent_orphans() {
    let orphan = |s: &str| PageFragment::OrphanText { text: s.to_string() };
    let dirty = vec![orphan("a"), orphan("b"), text("t"), orphan("c"), orphan("d"), orphan("e")];
    let once = merge_orphans(dirty);
    assert_eq!(once, vec![orphan("a b"), text("t"), orphan("c d e")]);
    let twice = merge_orphans(vec![orphan("a b"), text("t"), orphan("c d e")]);
    assert_eq!(twice, once);
    assert_eq!(merge_orphans(vec![]), vec![]);
}

#[test]
fn merging_never_crosses_another_fragment() {
    let orphan = |s: &str| PageFragment::OrphanText { text: s.to_string() };
    let whole = merge_orphans(vec![orphan("a"), orphan("b"), PageFragment::SectionSeparator, orphan("c"), orphan("d")]);
    let mut parts = merge_orphans(vec![orphan("a"), orphan("b")]);
    parts.push(PageFragment::SectionSeparator);
    parts.extend(merge_orphans(vec![orphan("c"), orphan("d")]));
    assert_eq!(whole, parts);
    assert_eq!(whole, vec![orphan("a b"), PageFragment::SectionSeparator, orphan("c d")]);
}
