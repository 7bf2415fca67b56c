use harvardciter2::HtmlNode;
use harvardciter2::HtmlElement;
use harvardciter2::search_for_title;
use harvardciter2::search_for_title_element;
use harvardciter2::page_from_body;
use harvardciter2::page_guess;
use harvardciter2::GuessError;

fn elem(name: &str, children: Vec<HtmlNode>) -> HtmlElement {
    HtmlElement { name: name.to_string(), children }
}

fn text(s: &str) -> HtmlNode {
    HtmlNode::Text(s.to_string())
}

#[test]
fn title_text_nodes_are_space_joined_around_comments() {
    let title = elem(
        "title",
        vec![text("A"), HtmlNode::Comment("x".to_string()), text("B")],
    );
    assert_eq!(search_for_title_element(&title), Some("A B".to_string()));
}

#[test]
fn title_match_is_case_insensitive() {
    let title = elem("TITLE", vec![text("Caps")]);
    assert_eq!(search_for_title_element(&title), Some("Caps".to_string()));
}

#[test]
fn nested_title_is_found_depth_first() {
    let doc = vec![
        HtmlNode::Element(elem(
            "html",
            vec![
                HtmlNode::Element(elem("head", vec![HtmlNode::Element(elem("title", vec![text("T")]))])),
                HtmlNode::Element(elem("body", vec![text("ignored")])),
            ],
        )),
    ];
    assert_eq!(search_for_title(&doc), Some("T".to_string()));
}

#[test]
fn missing_title_yields_nothing_and_the_fallback_page() {
    let doc = vec![HtmlNode::Element(elem("html", vec![HtmlNode::Element(elem("body", vec![text("x")]))]))];
    let t = search_for_title(&doc);
    assert_eq!(t, None);
    assert_eq!(page_guess(t), "unknown title");
}

#[test]
fn empty_title_element_yields_an_empty_title() {
    let doc = vec![HtmlNode::Element(elem("title", vec![]))];
    assert_eq!(search_for_title(&doc), Some(String::new()));
}

#[test]
fn parsed_document_title_is_extracted() {
    let r = page_from_body("<html><head><title>The Page</title></head><body></body></html>");
    assert_eq!(r, Ok("The Page".to_string()));
}

#[test]
fn parsed_document_without_title_gives_the_fallback_page() {
    let r = page_from_body("<html><body><p>just text</p></body></html>");
    assert_eq!(r, Ok("unknown title".to_string()));
}

#[test]
fn malformed_markup_is_a_dom_parsing_failure() {
    let r = page_from_body("<!--");
    assert_eq!(r, Err(GuessError::DomParsing));
}

#[test]
fn page_guess_keeps_a_found_title() {
    assert_eq!(page_guess(Some("The Page".to_string())), "The Page");
}
