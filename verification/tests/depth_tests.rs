use vo_xml::xml::XmlDocument;

fn depth_of(text: &str) -> usize {
    XmlDocument::from_text(text).unwrap().depth()
}

#[test]
fn run_depth_test() {
    assert_eq!(depth_of(""), 0);
    assert_eq!(depth_of("<root>value</root>"), 1);
    assert_eq!(depth_of("<root><child>value</child></root>"), 2);
    assert_eq!(depth_of("<root><child><child>value</child></child></root>"), 3);
    assert_eq!(
        depth_of("<root><child><child><child>value</child></child></child></root>"),
        4
    );
    assert_eq!(
        depth_of("<root><child><child><child><child>value</child></child></child></child></root>"),
        5
    );
}

#[test]
fn depth_of_empty_document_is_zero() {
    let doc = XmlDocument::from_text("").unwrap();
    assert_eq!(doc.depth(), 0);
    assert!(doc.name().is_none());
}

#[test]
fn empty_tags_do_not_affect_depth() {
    assert_eq!(depth_of("<a/>"), 0);
    assert_eq!(depth_of("<root><leaf/><leaf/>x</root>"), 1);
    assert_eq!(
        depth_of("<root><child><leaf/></child></root>"),
        depth_of("<root><child></child></root>")
    );
}

#[test]
fn text_and_other_events_do_not_affect_depth() {
    assert_eq!(depth_of("<?xml version=\"1.0\"?><root>x</root>"), 1);
    assert_eq!(depth_of("<root><!-- note --><child>y</child></root>"), 2);
}
