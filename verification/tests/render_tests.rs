use vo_xml::xml::events::{RawAttribute, RawEvent};
use vo_xml::xml::{XmlDocument, XmlElement};

#[test]
fn rendering_reproduces_simple_documents() {
    for text in [
        "<root>value</root>",
        "<root><child>value</child></root>",
        "<a><b/><c>x</c></a>",
        "<list><item n=\"1\"/><item n=\"2\"/></list>",
    ] {
        let doc = XmlDocument::from_text(text).unwrap();
        assert_eq!(doc.to_string(), text);
    }
}

#[test]
fn attributes_render_double_quoted_in_original_order() {
    let doc = XmlDocument::from_text("<a zeta=\"1\" alpha=\"2\" beta=\"3\">x</a>").unwrap();
    assert_eq!(doc.to_string(), "<a zeta=\"1\" alpha=\"2\" beta=\"3\">x</a>");
    let el = doc.get_element_by_name("a").unwrap();
    assert_eq!(el.to_string(), "<a zeta=\"1\" alpha=\"2\" beta=\"3\">");
}

#[test]
fn duplicate_attributes_are_preserved_as_given() {
    let ev = RawEvent::Open(
        b"a".to_vec(),
        vec![
            RawAttribute { name: b"k".to_vec(), value: b"1".to_vec() },
            RawAttribute { name: b"k".to_vec(), value: b"2".to_vec() },
        ],
    );
    let el = XmlElement::parse_event(&ev).unwrap();
    assert_eq!(el.to_string(), "<a k=\"1\" k=\"2\">");
}

#[test]
fn element_forms_render_as_tag_text() {
    let doc = XmlDocument::from_text("<a b=\"c\"><d/>text</a>").unwrap();
    let all = doc.flatten();
    assert_eq!(all.len(), 4);
    assert_eq!(all[0].to_string(), "<a b=\"c\">");
    assert_eq!(all[1].to_string(), "<d/>");
    assert_eq!(all[2].to_string(), "text");
    assert_eq!(all[3].to_string(), "</a>");
}

fn kinds_and_names(doc: &XmlDocument) -> Vec<String> {
    doc.flatten()
        .iter()
        .map(|el| match el {
            XmlElement::OpenTag(n, _) => format!("open:{}", n),
            XmlElement::EmptyTag(n, _) => format!("empty:{}", n),
            XmlElement::Text(_) => "text".to_string(),
            XmlElement::SomethingElse(_) => "other".to_string(),
            XmlElement::ElementEnd(n) => format!("close:{}", n),
            XmlElement::End => "end".to_string(),
        })
        .collect()
}

#[test]
fn rendering_then_retokenizing_preserves_kinds_and_names() {
    for text in [
        "<root><child a=\"1\">value</child><leaf/></root>",
        "<a><b><c/></b>tail</a>",
        "<x y=\"1\" z=\"2\"/>",
    ] {
        let doc = XmlDocument::from_text(text).unwrap();
        let rendered = doc.to_string();
        let again = XmlDocument::from_text(rendered.as_str()).unwrap();
        assert_eq!(kinds_and_names(&doc), kinds_and_names(&again));
        assert_eq!(doc.to_string(), again.to_string());
    }
}

#[test]
fn opaque_events_are_retained_and_ignored_by_queries() {
    let doc = XmlDocument::from_text("<!-- note --><root>x</root>").unwrap();
    assert!(doc.name().is_none());
    assert_eq!(doc.depth(), 1);
    let all = doc.flatten();
    assert!(matches!(&all[0], XmlElement::SomethingElse(_)));
    assert_eq!(all[0].to_string(), " note ");
}
