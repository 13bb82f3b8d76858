use vo_xml::data_access::DataAccessError;
use vo_xml::xml::events::{RawAttribute, RawEvent};
use vo_xml::xml::{XmlDocument, XmlElement, XmlError};

#[test]
fn build_from_events_keeps_everything_before_the_sentinel() {
    let events = vec![
        RawEvent::Open(b"a".to_vec(), Vec::new()),
        RawEvent::Text(b"x".to_vec()),
        RawEvent::Close(b"a".to_vec()),
        RawEvent::Eof,
    ];
    let doc = XmlDocument::build_from_events(events).unwrap();
    assert_eq!(doc.flatten().len(), 3);
    assert_eq!(doc.to_string(), "<a>x</a>");
    assert_eq!(doc.depth(), 1);
}

#[test]
fn build_stops_at_the_first_end_of_stream() {
    let events = vec![
        RawEvent::Open(b"a".to_vec(), Vec::new()),
        RawEvent::Close(b"a".to_vec()),
        RawEvent::Eof,
        RawEvent::Text(b"ignored".to_vec()),
    ];
    let doc = XmlDocument::build_from_events(events).unwrap();
    assert_eq!(doc.to_string(), "<a></a>");
}

#[test]
fn classifier_decodes_names_attributes_and_text() {
    let ev = RawEvent::Open(
        b"tag".to_vec(),
        vec![RawAttribute { name: b"k".to_vec(), value: b"v".to_vec() }],
    );
    match XmlElement::parse_event(&ev).unwrap() {
        XmlElement::OpenTag(name, attrs) => {
            assert_eq!(name, "tag");
            assert_eq!(attrs.len(), 1);
            assert_eq!(attrs[0].name, "k");
            assert_eq!(attrs[0].value, "v");
        }
        _ => panic!("not an open tag"),
    }
    match XmlElement::parse_event(&RawEvent::Text(b"hi".to_vec())).unwrap() {
        XmlElement::Text(t) => assert_eq!(t, "hi"),
        _ => panic!("not text"),
    }
    assert!(matches!(
        XmlElement::parse_event(&RawEvent::Eof).unwrap(),
        XmlElement::End
    ));
}

#[test]
fn classifier_rejects_invalid_utf8_with_the_offending_bytes() {
    let bad = vec![0xffu8, 0xfe];
    match XmlElement::parse_event(&RawEvent::Open(bad.clone(), Vec::new())) {
        Err(XmlError::DecodeError(bytes)) => assert_eq!(bytes, bad),
        other => panic!("expected a decode error, got {:?}", other),
    }
    let ev = RawEvent::Empty(
        b"ok".to_vec(),
        vec![RawAttribute { name: b"k".to_vec(), value: bad.clone() }],
    );
    match XmlElement::parse_event(&ev) {
        Err(XmlError::DecodeError(bytes)) => assert_eq!(bytes, bad),
        other => panic!("expected a decode error, got {:?}", other),
    }
}

#[test]
fn build_aborts_on_the_first_classification_failure() {
    let events = vec![
        RawEvent::Open(b"a".to_vec(), Vec::new()),
        RawEvent::Text(vec![0xff, 0xff]),
        RawEvent::Close(b"a".to_vec()),
        RawEvent::Eof,
    ];
    match XmlDocument::build_from_events(events) {
        Err(XmlError::DecodeError(bytes)) => assert_eq!(bytes, vec![0xff, 0xff]),
        other => panic!("expected a decode error, got {:?}", other),
    }
}

#[test]
fn invalid_utf8_in_a_byte_buffer_is_a_decode_error() {
    match XmlDocument::from_bytes(b"<a>\xff\xff</a>") {
        Err(XmlError::DecodeError(bytes)) => assert_eq!(bytes, vec![0xff, 0xff]),
        other => panic!("expected a decode error, got {:?}", other),
    }
}

#[test]
fn malformed_tokens_are_read_errors() {
    assert!(matches!(
        XmlDocument::from_text("<a =\"v\">x</a>"),
        Err(XmlError::ReadError(_))
    ));
}

#[test]
fn name_and_positional_access() {
    let doc = XmlDocument::from_text("<a><b/>t</a>").unwrap();
    assert_eq!(doc.name(), Some("a"));
    assert!(matches!(
        doc.get_element_at_index(0),
        Some(XmlElement::OpenTag(_, _))
    ));
    assert!(matches!(
        doc.get_element_at_index(1),
        Some(XmlElement::EmptyTag(_, _))
    ));
    assert!(matches!(doc.get_element_at_index(2), Some(XmlElement::Text(_))));
    assert!(matches!(
        doc.get_element_at_index(3),
        Some(XmlElement::ElementEnd(_))
    ));
    assert!(doc.get_element_at_index(4).is_none());
}

#[test]
fn first_element_by_name_wins_anywhere_in_the_sequence() {
    let doc =
        XmlDocument::from_text("<root><a k=\"1\">x</a><deep><a k=\"2\"/></deep></root>").unwrap();
    match doc.get_element_by_name("a").unwrap() {
        XmlElement::OpenTag(name, attrs) => {
            assert_eq!(name, "a");
            assert_eq!(attrs[0].value, "1");
        }
        _ => panic!("expected the first open tag"),
    }
    assert!(doc.get_element_by_name("absent").is_none());
}

#[test]
fn element_iterator_walks_the_document_in_order() {
    let doc = XmlDocument::from_text("<a>x</a>").unwrap();
    let mut it = vo_xml::xml::XmlIterator::new(&doc);
    assert!(matches!(it.next(), Some(XmlElement::OpenTag(_, _))));
    assert!(matches!(it.next(), Some(XmlElement::Text(_))));
    assert!(matches!(it.next(), Some(XmlElement::ElementEnd(_))));
    assert!(it.next().is_none());
    assert!(it.next().is_none());
}

#[test]
fn document_iterator_yields_each_top_level_subtree_once() {
    let doc = XmlDocument::from_text("<a>1</a><b/><c>2</c>").unwrap();
    let mut it = vo_xml::xml::XmlDocIterator::new(&doc);
    assert_eq!(it.next().unwrap().to_string(), "<a>1</a>");
    assert_eq!(it.next().unwrap().to_string(), "<b/>");
    assert_eq!(it.next().unwrap().to_string(), "<c>2</c>");
    assert!(it.next().is_none());
    let mut again = vo_xml::xml::XmlDocIterator::new(&doc);
    assert_eq!(again.next().unwrap().to_string(), "<a>1</a>");
}

#[test]
fn stray_close_tags_are_counted_not_validated() {
    let events = vec![RawEvent::Close(b"a".to_vec()), RawEvent::Eof];
    let doc = XmlDocument::build_from_events(events).unwrap();
    assert_eq!(doc.depth(), 0);
    assert_eq!(doc.iter_subtrees().len(), 0);
    assert_eq!(doc.to_string(), "</a>");
}

#[test]
fn close_tag_names_are_not_revalidated_against_openers() {
    let events = vec![
        RawEvent::Open(b"a".to_vec(), Vec::new()),
        RawEvent::Close(b"b".to_vec()),
        RawEvent::Eof,
    ];
    let doc = XmlDocument::build_from_events(events).unwrap();
    assert_eq!(doc.depth(), 1);
    let subs = doc.iter_subtrees();
    assert_eq!(subs.len(), 1);
    assert_eq!(subs[0].to_string(), "<a></b>");
}

#[test]
fn open_tag_without_a_close_yields_just_itself() {
    let events = vec![
        RawEvent::Open(b"a".to_vec(), Vec::new()),
        RawEvent::Text(b"x".to_vec()),
        RawEvent::Eof,
    ];
    let doc = XmlDocument::build_from_events(events).unwrap();
    assert_eq!(doc.depth(), 1);
    let subs = doc.iter_subtrees();
    assert_eq!(subs.len(), 1);
    assert_eq!(subs[0].to_string(), "<a>");
}

#[test]
fn data_access_error_messages_name_their_kind() {
    let e = DataAccessError::DataRetrievalError("Error retrieving data".to_string());
    assert_eq!(e.message(), "DataRetrievalError: Error retrieving data");
    let e = DataAccessError::MetadataRetrievalError("gone".to_string());
    assert_eq!(e.message(), "MetadataRetrievalError: gone");
    let e = DataAccessError::DataParseError("odd".to_string());
    assert_eq!(e.message(), "DataParseError: odd");
    let e = DataAccessError::MetadataParseError("bad".to_string());
    assert_eq!(e.message(), "MetadataParseError: bad");
    let e = DataAccessError::DataValidationError("off".to_string());
    assert_eq!(e.message(), "DataValidationError: off");
    let e = DataAccessError::MetadataValidationError("no".to_string());
    assert_eq!(e.message(), "MetadataValidationError: no");
}
