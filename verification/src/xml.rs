//! Reading XML documents with `quick_xml`: a reader over a string, its
//! events one at a time, and the attributes of an empty element.
use vstd::prelude::*;

verus! {

#[verifier::external_type_specification]
#[verifier::external_body]
#[verifier::reject_recursive_types(R)]
pub struct ExXmlReader<R>(quick_xml::Reader<R>);

#[verifier::external_type_specification]
#[verifier::external_body]
pub struct ExBytesStart<'a>(quick_xml::events::BytesStart<'a>);

#[verifier::external_type_specification]
#[verifier::external_body]
pub struct ExAttributes<'a>(quick_xml::events::attributes::Attributes<'a>);

#[verifier::external_type_specification]
#[verifier::external_body]
pub struct ExAttribute<'a>(quick_xml::events::attributes::Attribute<'a>);

#[verifier::external_type_specification]
#[verifier::external_body]
pub struct ExAttrError(quick_xml::events::attributes::AttrError);

/// An attribute as plain values: its name and its value as written
/// (entities not expanded), or `None` for one that is malformed.
pub type AttrView = Option<(Seq<char>, Seq<char>)>;

/// One event of an XML document as plain values: the element's name for
/// a start, end or empty tag, and for an empty tag its attributes in
/// order; every other kind of event (text, comments, declarations) is
/// `Other`, and a syntax error is `Failed`.
pub enum XmlEventView {
    Start(Seq<char>),
    End(Seq<char>),
    Empty(Seq<char>, Seq<AttrView>),
    Eof,
    Failed,
    Other,
}

/// The event that `quick_xml`'s reader over `doc`, set to trim white
/// space around text, gives at its call of `read_event` numbered `k`
/// (from 0). The reader reads nothing but `doc`, so this depends on
/// `doc` and `k` alone.
pub uninterp spec fn xml_event_at(doc: Seq<char>, k: int) -> XmlEventView;

/// The document a reader was made over.
pub uninterp spec fn reader_document(r: quick_xml::Reader<&[u8]>) -> Seq<char>;

/// The events a reader has given so far, in order.
pub uninterp spec fn reader_log(r: quick_xml::Reader<&[u8]>) -> Seq<XmlEventView>;

/// The attributes of a tag, in order, as its attribute iterator gives
/// them.
pub uninterp spec fn tag_attributes(e: quick_xml::events::BytesStart) -> Seq<AttrView>;

/// The attributes an attribute iterator has still to give, in order.
pub uninterp spec fn attributes_left(a: quick_xml::events::attributes::Attributes) -> Seq<AttrView>;

/// One event of the reader, with element names as text. An empty element
/// (`<gap value="4"/>`) keeps its start tag, whose attributes are read
/// one by one; every other kind of event (text, comments, declarations)
/// is `Other`, and a syntax error is `Failed`.
pub enum XmlStep<'a> {
    Start(String),
    End(String),
    Empty(String, quick_xml::events::BytesStart<'a>),
    Eof,
    Failed,
    Other,
}

/// The event that `s` stands for.
pub open spec fn step_view(s: XmlStep) -> XmlEventView {
    match s {
        XmlStep::Start(n) => XmlEventView::Start(n@),
        XmlStep::End(n) => XmlEventView::End(n@),
        XmlStep::Empty(n, e) => XmlEventView::Empty(n@, tag_attributes(e)),
        XmlStep::Eof => XmlEventView::Eof,
        XmlStep::Failed => XmlEventView::Failed,
        XmlStep::Other => XmlEventView::Other,
    }
}

/// The view of an attribute as read.
pub open spec fn attr_view(a: Option<(String, String)>) -> AttrView {
    match a {
        Some(p) => Some((p.0@, p.1@)),
        None => None,
    }
}

/// A reader over `content` that trims white space around text.
///
/// Trusted: calls `quick_xml::Reader::from_str` and then sets
/// `trim_text(true)` in the new reader's configuration (`config_mut`),
/// before it has read anything. Claimed: the reader is over `content`
/// and has given no event yet.
#[verifier::external_body]
pub(crate) fn open_reader<'a>(content: &'a str) -> (r: quick_xml::Reader<&'a [u8]>)
    ensures
        reader_document(r) == content@,
        reader_log(r) == Seq::<XmlEventView>::empty(),
{
    let mut r = quick_xml::Reader::from_str(content);
    r.config_mut().trim_text(true);
    r
}

/// The next event of the reader.
///
/// Trusted: calls `quick_xml::Reader::read_event` and keeps, for a start,
/// end or empty tag, the element's name. Every reader of this library is
/// made by `open_reader` and read only here, so claimed: the event is the
/// one that follows those given so far (`xml_event_at` at their number),
/// and it joins them.
#[verifier::external_body]
pub(crate) fn next_step<'a>(r: &mut quick_xml::Reader<&'a [u8]>) -> (s: XmlStep<'a>)
    ensures
        step_view(s) == xml_event_at(reader_document(*old(r)), reader_log(*old(r)).len() as int),
        reader_document(*final(r)) == reader_document(*old(r)),
        reader_log(*final(r)) == reader_log(*old(r)).push(step_view(s)),
{
    match r.read_event() {
        Ok(quick_xml::events::Event::Start(e)) => XmlStep::Start(e.name().0.to_owned()),
        Ok(quick_xml::events::Event::End(e)) => XmlStep::End(e.name().0.to_owned()),
        Ok(quick_xml::events::Event::Empty(e)) => XmlStep::Empty(e.name().0.to_owned(), e),
        Ok(quick_xml::events::Event::Eof) => XmlStep::Eof,
        Err(_) => XmlStep::Failed,
        Ok(_) => XmlStep::Other,
    }
}

/// The attributes of a start tag, to be read one at a time.
///
/// Trusted: calls `quick_xml::events::BytesStart::attributes`. Claimed:
/// the iterator has all the tag's attributes still to give.
#[verifier::external_body]
pub(crate) fn attributes_of<'b, 'a>(e: &'b quick_xml::events::BytesStart<'a>) -> (it: quick_xml::events::attributes::Attributes<'b>)
    ensures
        attributes_left(it) == tag_attributes(*e),
{
    e.attributes()
}

/// The next attribute: `None` at the end, `Some(None)` for one that is
/// malformed, else its name and its value as written (entities not expanded).
///
/// Trusted: calls `Iterator::next` of `quick_xml`'s `Attributes`, a fused
/// iterator. Claimed: at the end it answers `None` and stays there;
/// otherwise it gives the first attribute left, which is then no longer
/// left.
#[verifier::external_body]
pub(crate) fn next_attribute<'b>(a: &mut quick_xml::events::attributes::Attributes<'b>) -> (r: Option<Option<(String, String)>>)
    ensures
        attributes_left(*old(a)).len() == 0 ==> r is None && attributes_left(*final(a)) == attributes_left(*old(a)),
        attributes_left(*old(a)).len() > 0 ==> {
            &&& r is Some
            &&& attr_view(r->0) == attributes_left(*old(a))[0]
            &&& attributes_left(*final(a)) == attributes_left(*old(a)).drop_first()
        },
{
    match a.next() {
        Some(Ok(at)) => Some(Some((at.key.0.to_owned(), at.value.into_owned()))),
        Some(Err(_)) => Some(None),
        None => None,
    }
}

} // verus!
