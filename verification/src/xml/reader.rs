//! The trusted boundary to the streaming tokenizer.  Everything here is
//! believed, not proved: each item's contract states what quick_xml's
//! source shows of the call, and nothing about the tokenizer's hidden
//! position, which Verus cannot see.

use vstd::prelude::*;

verus! {

use crate::xml::events::{RawAttribute, RawEvent};

#[verifier::external_type_specification]
#[verifier::external_body]
#[verifier::reject_recursive_types(R)]
pub struct ExReader<R>(quick_xml::reader::Reader<R>);

#[verifier::external_type_specification]
#[verifier::external_body]
pub struct ExEvent<'a>(quick_xml::events::Event<'a>);

#[verifier::external_type_specification]
#[verifier::external_body]
pub struct ExBytesStart<'a>(quick_xml::events::BytesStart<'a>);

/// Relies on quick_xml's Reader::from_str: a tokenizer over the bytes
/// of the given text, positioned at its start.
#[verifier::external_body]
pub fn reader_from_str<'a>(text: &'a str) -> (r: quick_xml::reader::Reader<&'a [u8]>) {
    quick_xml::reader::Reader::from_str(text)
}

/// Relies on quick_xml's Reader::from_reader: a tokenizer over the
/// given bytes, positioned at their start.
#[verifier::external_body]
pub fn reader_from_bytes<'a>(bytes: &'a [u8]) -> (r: quick_xml::reader::Reader<&'a [u8]>) {
    quick_xml::reader::Reader::from_reader(bytes)
}

/// Relies on quick_xml's Reader::read_event, driven to completion: all
/// events of the stream in order, each converted to its raw form,
/// ending with the end-of-stream event; or the tokenizer's first
/// error, as its message.  What comes back depends on the reader's
/// position, which Verus cannot see, so nothing more is promised.
#[verifier::external_body]
pub fn read_all_raw_events(reader: &mut quick_xml::reader::Reader<&[u8]>) -> (r: Result<
    Vec<RawEvent>,
    String,
>)
    ensures
        match r {
            Ok(events) => events@.len() >= 1 && events@[events@.len() - 1] is Eof,
            Err(_) => true,
        },
{
    let mut out = Vec::new();
    loop {
        match reader.read_event() {
            Err(e) => return Err(format!("{}", e)),
            Ok(ev) => {
                let eof = matches!(ev, quick_xml::events::Event::Eof);
                out.push(convert_event(ev)?);
                if eof {
                    return Ok(out);
                }
            }
        }
    }
}

/// Relies on quick_xml's Event: each variant is told apart and its
/// payload moved over, tag names through name(), text and opaque
/// events through their raw bytes.
#[verifier::external_body]
fn convert_event(ev: quick_xml::events::Event<'_>) -> (r: Result<RawEvent, String>) {
    match ev {
        quick_xml::events::Event::Start(e) => Ok(
            RawEvent::Open(e.name().0.to_vec(), raw_attributes_of(&e)?),
        ),
        quick_xml::events::Event::Empty(e) => Ok(
            RawEvent::Empty(e.name().0.to_vec(), raw_attributes_of(&e)?),
        ),
        quick_xml::events::Event::Text(t) => Ok(RawEvent::Text(t.to_vec())),
        quick_xml::events::Event::End(e) => Ok(RawEvent::Close(e.name().0.to_vec())),
        quick_xml::events::Event::Eof => Ok(RawEvent::Eof),
        other => Ok(RawEvent::Other(other.to_vec())),
    }
}

/// Relies on quick_xml's BytesStart::attributes: the attributes of one
/// tag in source order, names and values as undecoded bytes; an
/// attribute the tokenizer rejects is an error, as its message.
#[verifier::external_body]
fn raw_attributes_of(e: &quick_xml::events::BytesStart<'_>) -> (r: Result<Vec<RawAttribute>, String>) {
    let mut out = Vec::new();
    for a in e.attributes() {
        match a {
            Ok(a) => out.push(RawAttribute { name: a.key.0.to_vec(), value: a.value.to_vec() }),
            Err(err) => return Err(format!("{}", err)),
        }
    }
    Ok(out)
}

} // verus!
