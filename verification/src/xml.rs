//! A cursor over the events of an XML document, read with `quick_xml`.
//!
//! The cursor keeps, next to the reader, the input it reads and how many
//! events it has handed out, so that each event can be named as a function
//! of the input, the reader's configuration and its position in the stream.
use vstd::prelude::*;
use quick_xml::events::Event;
use quick_xml::reader::Reader;
use std::borrow::Cow;
use vstd::string::StringSliceAdditionalSpecFns;

verus! {

#[verifier::external_type_specification]
#[verifier::external_body]
#[verifier::reject_recursive_types(R)]
pub struct ExReader<R>(Reader<R>);

/// One event of the document, as the `pacs.008` parser reads it.
pub enum XmlEvent<'a> {
    /// A start tag, with the bytes of the element's name.
    Start(Vec<u8>),
    /// Character data, borrowed from the input; `None` where the reader
    /// could only hand out a copy.
    Text(Option<&'a [u8]>),
    /// The end of the document.
    Eof,
    /// The reader reported an error.
    Failure,
    /// Any other event (end tags, empty elements, comments, ...).
    Other,
}

/// The mathematical value of an [`XmlEvent`].
pub enum XmlEventView {
    Start(Seq<u8>),
    Text(Option<Seq<u8>>),
    Eof,
    Failure,
    Other,
}

impl<'a> View for XmlEvent<'a> {
    type V = XmlEventView;

    open spec fn view(&self) -> XmlEventView {
        match self {
            XmlEvent::Start(name) => XmlEventView::Start(name@),
            XmlEvent::Text(Some(bytes)) => XmlEventView::Text(Some(bytes@)),
            XmlEvent::Text(None) => XmlEventView::Text(None),
            XmlEvent::Eof => XmlEventView::Eof,
            XmlEvent::Failure => XmlEventView::Failure,
            XmlEvent::Other => XmlEventView::Other,
        }
    }
}

/// The event that `quick_xml`'s `Reader::read_event` returns as its
/// `index`-th call on a reader made by `Reader::from_str` over `input`,
/// with text trimming set to `trim` before the first call.
pub uninterp spec fn xml_event(input: Seq<u8>, trim: bool, index: nat) -> XmlEventView;

/// `Reader::buffer_position()` of that reader after `index` calls of
/// `read_event`.
pub uninterp spec fn xml_position(input: Seq<u8>, trim: bool, index: nat) -> nat;

/// A reader over one document together with what it has read so far.
///
/// The fields are private: the reader is made only by [`XmlCursor::open`],
/// configured only by [`XmlCursor::trim_text`] and advanced only by
/// [`read_event`], each of which keeps the recorded input, trimming and
/// number of events in step with it.
pub struct XmlCursor<'a> {
    reader: Reader<&'a [u8]>,
    input: Ghost<Seq<u8>>,
    trim: Ghost<bool>,
    read: Ghost<nat>,
}

impl<'a> XmlCursor<'a> {
    /// The bytes of the document.
    pub closed spec fn input(&self) -> Seq<u8> {
        self.input@
    }

    /// Whether text events are trimmed.
    pub closed spec fn trims(&self) -> bool {
        self.trim@
    }

    /// How many events have been read.
    pub closed spec fn events_read(&self) -> nat {
        self.read@
    }

    /// A cursor at the start of `xml`, without text trimming.
    pub fn open(xml: &'a str) -> (c: Self)
        ensures
            c.input() == xml.spec_bytes(),
            !c.trims(),
            c.events_read() == 0,
    {
        XmlCursor { reader: reader_from_str(xml), input: Ghost(xml.spec_bytes()), trim: Ghost(false), read: Ghost(0) }
    }

    /// Turns trimming of surrounding whitespace in text events on or off;
    /// only before the first event.
    pub fn trim_text(&mut self, trim: bool)
        requires
            old(self).events_read() == 0,
        ensures
            final(self).input() == old(self).input(),
            final(self).events_read() == 0,
            final(self).trims() == trim,
    {
        set_trim_text(&mut self.reader, trim);
        self.trim = Ghost(trim);
    }
}

/// Calls `quick_xml::reader::Reader::from_str`: a reader at the start of
/// `xml`. Nothing is stated of the reader, which is opaque.
#[verifier::external_body]
fn reader_from_str<'a>(xml: &'a str) -> Reader<&'a [u8]> {
    Reader::from_str(xml)
}

/// Calls `Reader::config_mut` and `Config::trim_text` on it: sets whether
/// leading and trailing whitespace of text events is dropped. Nothing is
/// stated of the reader, which is opaque.
#[verifier::external_body]
fn set_trim_text<'a>(reader: &mut Reader<&'a [u8]>, trim: bool) {
    reader.config_mut().trim_text(trim);
}

/// Calls `Reader::read_event` and sorts its result into an [`XmlEvent`].
///
/// States that the result is the named next event of the cursor's stream;
/// that each call moves the stream on by one; that `buffer_position()` never
/// goes back and never passes the end of the input; and that every event
/// other than the end of the document or an error consumes input (each
/// start tag, end tag, text or markup event covers at least one byte).
#[verifier::external_body]
pub fn read_event<'a>(cursor: &mut XmlCursor<'a>) -> (ev: XmlEvent<'a>)
    ensures
        final(cursor).input() == old(cursor).input(),
        final(cursor).trims() == old(cursor).trims(),
        final(cursor).events_read() == old(cursor).events_read() + 1,
        ev@ == xml_event(old(cursor).input(), old(cursor).trims(), old(cursor).events_read()),
        xml_position(old(cursor).input(), old(cursor).trims(), old(cursor).events_read())
            <= xml_position(final(cursor).input(), final(cursor).trims(), final(cursor).events_read())
            <= final(cursor).input().len(),
        !(ev is Eof || ev is Failure) ==> xml_position(old(cursor).input(), old(cursor).trims(), old(cursor).events_read())
            < xml_position(final(cursor).input(), final(cursor).trims(), final(cursor).events_read()),
{
    cursor.read = Ghost((cursor.read@ + 1) as nat);
    match cursor.reader.read_event() {
        Ok(Event::Start(e)) => XmlEvent::Start(e.name().as_ref().to_vec()),
        Ok(Event::Text(e)) => match e.into_inner() {
            Cow::Borrowed(bytes) => XmlEvent::Text(Some(bytes)),
            Cow::Owned(_) => XmlEvent::Text(None),
        },
        Ok(Event::Eof) => XmlEvent::Eof,
        Err(_) => XmlEvent::Failure,
        Ok(_) => XmlEvent::Other,
    }
}

} // verus!
