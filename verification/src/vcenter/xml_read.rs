//! Reading a document into an [`Element`] tree with quick-xml.
//!
//! quick-xml does the tokenizing; this module turns its events into
//! [`XmlToken`]s and hands them to [`assemble`], whose tree-building is
//! verified.

use vstd::prelude::*;
use quick_xml::events::{BytesCData, BytesStart, BytesText, Event};
use crate::text::chars_of;
use quick_xml::Reader;
use crate::vcenter::xml::{assemble, tree_of, Element, XmlToken};

verus! {

#[verifier::external_type_specification]
#[verifier::external_body]
#[verifier::reject_recursive_types(R)]
pub struct ExReader<R>(Reader<R>);

#[verifier::external_type_specification]
#[verifier::external_body]
pub struct ExBytesStart<'a>(BytesStart<'a>);

#[verifier::external_type_specification]
#[verifier::external_body]
pub struct ExBytesText<'a>(BytesText<'a>);

#[verifier::external_type_specification]
#[verifier::external_body]
pub struct ExBytesCData<'a>(BytesCData<'a>);

/// What one read of a document yields once converted: a token for the
/// tree, the end of the document, or an event the tree does not use
/// (declarations, comments, processing instructions, doctypes).
pub enum ReadStep {
    Token(XmlToken),
    Eof,
    Skip,
}

/// A quick-xml reader over `doc`, and how many bytes of it the reader has
/// consumed. Only the reading functions below touch its fields.
pub struct XmlReader<'a> {
    inner: Reader<&'a [u8]>,
    doc: &'a str,
    pos: u64,
}

/// What a quick-xml reader over `doc`, trimming whitespace around text,
/// yields when it has consumed `pos` bytes reading from the start: the
/// converted step, or the reader's or decoder's error message; and the
/// position after that read. The reader is deterministic, and every read
/// before the end of the document consumes input, so the position it has
/// reached fixes what it has read so far and what it reads next.
pub uninterp spec fn xml_step(doc: Seq<char>, pos: u64) -> (Result<ReadStep, String>, u64);

/// `quick_xml::Reader::from_str` on `xml`, configured to trim whitespace
/// around text so that indentation between tags produces no text events: a
/// reader at the start of the document.
#[verifier::external_body]
fn open_reader<'a>(xml: &'a str) -> (r: XmlReader<'a>)
    ensures
        r.doc@ == xml@,
        r.pos == 0,
{
    let mut inner = Reader::from_str(xml);
    inner.config_mut().trim_text(true);
    XmlReader { inner, doc: xml, pos: 0 }
}

/// `quick_xml::Reader::read_event`, with the event converted by the helpers
/// below, and `Reader::buffer_position` after it: the step at the reader's
/// position, as [`xml_step`] names it.
#[verifier::external_body]
fn next_step(r: &mut XmlReader) -> (s: Result<ReadStep, String>)
    ensures
        final(r).doc == old(r).doc,
        (s, final(r).pos) == xml_step(old(r).doc@, old(r).pos),
{
    let s = match r.inner.read_event() {
        Ok(Event::Start(e)) => start_token(&e, false),
        Ok(Event::Empty(e)) => start_token(&e, true),
        Ok(Event::End(_)) => Ok(ReadStep::Token(XmlToken::Close)),
        Ok(Event::Text(t)) => text_token(&t),
        Ok(Event::CData(t)) => Ok(cdata_token(&t)),
        Ok(Event::Eof) => Ok(ReadStep::Eof),
        Ok(_) => Ok(ReadStep::Skip),
        Err(e) => Err(format!("XML parse error at byte {}: {e}", r.inner.buffer_position())),
    };
    r.pos = r.inner.buffer_position();
    s
}

/// Converts a start tag for [`next_step`]: `BytesStart::name` decoded as
/// UTF-8 with invalid sequences replaced, and `BytesStart::attributes`, each
/// as its raw key and unescaped value in document order, or the first
/// attribute error.
#[verifier::external_body]
fn start_token(e: &BytesStart, empty: bool) -> Result<ReadStep, String> {
    let name = String::from_utf8_lossy(e.name().as_ref()).into_owned();
    let mut attrs = Vec::new();
    for a in e.attributes() {
        let a = a.map_err(|err| format!("XML attribute error: {err}"))?;
        let key = String::from_utf8_lossy(a.key.as_ref()).into_owned();
        let val = a.unescape_value().map_err(|err| format!("XML attribute decode failed: {err}"))?;
        attrs.push((key, val.into_owned()));
    }
    Ok(ReadStep::Token(XmlToken::Open { name, attrs, empty }))
}

/// Converts text for [`next_step`]: `BytesText::unescape`, with entity and
/// character references resolved, or the decoding error.
#[verifier::external_body]
fn text_token(t: &BytesText) -> Result<ReadStep, String> {
    match t.unescape() {
        Ok(s) => Ok(ReadStep::Token(XmlToken::Text(s.into_owned()))),
        Err(e) => Err(format!("XML text decode failed: {e}")),
    }
}

/// Converts a CDATA section for [`next_step`]: its bytes decoded as UTF-8
/// with invalid sequences replaced.
#[verifier::external_body]
fn cdata_token(t: &BytesCData) -> ReadStep {
    ReadStep::Token(XmlToken::Text(String::from_utf8_lossy(t).into_owned()))
}

/// The tokens read from position `pos` to the end of the document, within
/// `reads` reads; `None` when a read fails or the end is not reached.
pub open spec fn scan(doc: Seq<char>, pos: u64, reads: nat) -> Option<Seq<XmlToken>>
    decreases reads,
{
    if reads == 0 {
        None
    } else {
        match xml_step(doc, pos) {
            (Err(_), _) => None,
            (Ok(ReadStep::Eof), _) => Some(Seq::empty()),
            (Ok(ReadStep::Skip), next) => scan(doc, next, (reads - 1) as nat),
            (Ok(ReadStep::Token(t)), next) => match scan(doc, next, (reads - 1) as nat) {
                Some(rest) => Some(seq![t] + rest),
                None => None,
            },
        }
    }
}

/// The reads a document is given: every read before the end consumes at
/// least one byte, and a character takes at most four.
pub open spec fn read_budget(doc: Seq<char>) -> nat {
    4 * doc.len() + 1
}

/// The document's tokens, as quick-xml reads them; `None` when reading or
/// decoding fails.
pub open spec fn xml_tokens(doc: Seq<char>) -> Option<Seq<XmlToken>> {
    scan(doc, 0, read_budget(doc))
}

/// Parse a document into its root element: the tree its tokens describe,
/// which is the single top-level element, or a `#document` node holding
/// them all when there is not exactly one; the reader's error when reading
/// or decoding fails.
pub fn parse(xml: &str) -> (r: Result<Element, String>)
    ensures
        match xml_tokens(xml@) {
            Some(ts) => r matches Ok(e) && e@ == tree_of(ts),
            None => r is Err,
        },
{
    let mut reader = open_reader(xml);
    let n = chars_of(xml).len();
    let budget: u128 = 4 * (n as u128) + 1;
    let mut reads_left: u128 = budget;
    let mut tokens: Vec<XmlToken> = Vec::new();
    let ghost doc = xml@;
    while reads_left > 0
        invariant
            reader.doc@ == doc,
            doc == xml@,
            budget == read_budget(doc),
            reads_left <= budget,
            scan(doc, 0, read_budget(doc)) == match scan(doc, reader.pos, reads_left as nat) {
                Some(rest) => Some(tokens@ + rest),
                None => None::<Seq<XmlToken>>,
            },
        decreases reads_left,
    {
        let ghost before = tokens@;
        let ghost at = reader.pos;
        let step = next_step(&mut reader);
        reads_left -= 1;
        match step {
            Ok(ReadStep::Token(t)) => {
                tokens.push(t);
                proof {
                    match scan(doc, reader.pos, reads_left as nat) {
                        Some(rest) => {
                            assert(before + (seq![t] + rest) =~= tokens@ + rest);
                        },
                        None => {},
                    }
                }
            },
            Ok(ReadStep::Skip) => {},
            Ok(ReadStep::Eof) => {
                proof { assert(tokens@ + Seq::<XmlToken>::empty() =~= tokens@); }
                return Ok(assemble(&tokens));
            },
            Err(e) => {
                return Err(e);
            },
        }
    }
    Err(String::from_str("XML parse error: the reader did not reach the end of the document"))
}

} // verus!
