use vo_xml::xml::XmlDocument;

fn subtree_rendering(text: &str, name: &str) -> Option<String> {
    let doc = XmlDocument::from_text(text).unwrap();
    doc.get_subtree_by_name(name).map(|sub| sub.to_string())
}

#[test]
fn run_get_subtree_by_name_tests() {
    let cases: Vec<(&str, &str)> = vec![
        (
            "<target><child>value</child></target>",
            "<target><child>value</child></target>",
        ),
        ("<root><target>value</target></root>", "<target>value</target>"),
        (
            "<root><target><child>value</child></target></root>",
            "<target><child>value</child></target>",
        ),
        (
            "<root><target><child>value1</child></target><target>value2</target></root>",
            "<target><child>value1</child></target>",
        ),
        (
            "<root><target><child>value1</child></target><target><child>value2</child></target></root>",
            "<target><child>value1</child></target>",
        ),
        (
            "<root><target><child>value1</child></target><target><child>value2</child></target><target><child>value3</child></target></root>",
            "<target><child>value1</child></target>",
        ),
        (
            "<root><targetish><child>value1</child></targetish><target><child>value2</child></target><target><child>value3</child></target><target><child>value4</child></target></root>",
            "<target><child>value2</child></target>",
        ),
        (
            "<root><not><child>value1</child></not><target><child>value2</child><target><child>value3</child></target></target><target><child>value4</child></target><target><child>value5</child></target></root>",
            "<target><child>value2</child><target><child>value3</child></target></target>",
        ),
        (
            "<root><target><child>value1</child></target><target><child>value2</child></target><target><child>value3</child></target><target><child>value4</child></target><target><child>value5</child></target><target><child>value6</child></target></root>",
            "<target><child>value1</child></target>",
        ),
        (
            "<root><target><child>value1</child></target><target><child>value2</child></target><target><child>value3</child></target><target><child>value4</child></target><target><child>value5</child></target><target><child>value6</child></target><target><child>value7</child></target></root>",
            "<target><child>value1</child></target>",
        ),
    ];
    for (xml, expected) in cases {
        assert_eq!(subtree_rendering(xml, "target").unwrap(), expected);
    }
}

#[test]
fn query_for_root_name_returns_whole_document() {
    let text = "<target><child>value</child></target>";
    assert_eq!(subtree_rendering(text, "target").unwrap(), text);
}

#[test]
fn query_never_matches_deeper_than_one_level() {
    let text = "<root><deep><target>value</target></deep></root>";
    let doc = XmlDocument::from_text(text).unwrap();
    assert!(doc.get_subtree_by_name("target").is_none());
    assert!(doc.get_element_by_name("target").is_some());
}

#[test]
fn query_for_absent_name_returns_nothing() {
    assert!(subtree_rendering("<root><a>x</a></root>", "missing").is_none());
}

#[test]
fn empty_tag_is_a_single_element_subtree() {
    let doc = XmlDocument::from_text("<root><leaf/><full>x</full></root>").unwrap();
    let sub = doc.get_subtree_by_name("leaf").unwrap();
    assert_eq!(sub.to_string(), "<leaf/>");
    assert_eq!(sub.flatten().len(), 1);
}

#[test]
fn empty_tag_root_matches_its_own_name() {
    let doc = XmlDocument::from_text("<target/>").unwrap();
    let sub = doc.get_subtree_by_name("target").unwrap();
    assert_eq!(sub.to_string(), "<target/>");
}

#[test]
fn partitioning_twice_yields_the_same_renderings() {
    let doc =
        XmlDocument::from_text("<a><b>1</b></a><c/><d><e><f/></e>tail</d>").unwrap();
    let first: Vec<String> = doc.iter_subtrees().iter().map(|s| s.to_string()).collect();
    let second: Vec<String> = doc.iter_subtrees().iter().map(|s| s.to_string()).collect();
    assert_eq!(first, second);
    assert_eq!(first.len(), 3);
    assert_eq!(first[0], "<a><b>1</b></a>");
    assert_eq!(first[1], "<c/>");
    assert_eq!(first[2], "<d><e><f/></e>tail</d>");
}

#[test]
fn subtrees_are_recursively_partitionable() {
    let doc = XmlDocument::from_text("<root><a><b>x</b></a><c>y</c></root>").unwrap();
    let root = doc.iter_subtrees().remove(0);
    assert_eq!(root.to_string(), "<root><a><b>x</b></a><c>y</c></root>");
    let inner = root.get_subtree_by_name("c").unwrap();
    assert_eq!(inner.to_string(), "<c>y</c>");
}

#[test]
fn stray_element_at_cursor_ends_partitioning() {
    let doc = XmlDocument::from_text("text first<a>x</a>").unwrap();
    assert_eq!(doc.iter_subtrees().len(), 0);
}
