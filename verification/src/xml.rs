//! XML tokens as plain values, read from a response body with quick-xml.
//!
//! quick-xml does the tokenizing; the library only sees each event as an
//! [`XmlToken`]. What quick-xml yields for a text is named [`xml_tokens`]; the
//! verified [`read_tokens`] collects it, with text trimming on.

use vstd::prelude::*;
use crate::text::{eq_ic, eq_ignore_ascii_case, matches_at, opt_view, str_eq, to_lowercase, lowercase};
use quick_xml::events::BytesStart;
use quick_xml::events::Event::{Empty, End, Eof, Start, Text};
use quick_xml::reader::Reader;

verus! {

/// One `key="value"` pair of an element, both as raw (still escaped) text.
pub struct XmlAttribute {
    pub key: String,
    pub value: String,
}

/// A start or empty-element tag: its name, and all that stands between `<`
/// and `>` (or `/>`), the name and the attributes, still raw.
pub struct XmlElement {
    pub name: String,
    pub raw: String,
}

/// One event of quick-xml's reader.
pub enum XmlToken {
    /// `<name ...>`
    Start(XmlElement),
    /// `<name .../>`
    Empty(XmlElement),
    /// `</name>`
    End(String),
    /// Character data between tags, raw (still escaped).
    Text(String),
    /// A comment, CDATA section, declaration, processing instruction or DTD.
    Other,
    /// The end of the input.
    Eof,
    /// A syntax error, with quick-xml's description of it.
    Failed(String),
}

/// An attribute as the proofs see it.
pub struct AttributeView {
    pub key: Seq<char>,
    pub value: Seq<char>,
}

/// A tag as the proofs see it.
pub struct ElementView {
    pub name: Seq<char>,
    pub raw: Seq<char>,
}

/// A token as the proofs see it.
pub enum TokenView {
    Start(ElementView),
    Empty(ElementView),
    End(Seq<char>),
    Text(Seq<char>),
    Other,
    Eof,
    Failed(Seq<char>),
}

impl View for XmlAttribute {
    type V = AttributeView;

    open spec fn view(&self) -> AttributeView {
        AttributeView { key: self.key@, value: self.value@ }
    }
}

pub open spec fn attribute_view(a: Option<XmlAttribute>) -> Option<AttributeView> {
    match a {
        Some(a) => Some(a@),
        None => None,
    }
}

impl View for XmlElement {
    type V = ElementView;

    open spec fn view(&self) -> ElementView {
        ElementView { name: self.name@, raw: self.raw@ }
    }
}

impl View for XmlToken {
    type V = TokenView;

    open spec fn view(&self) -> TokenView {
        match self {
            XmlToken::Start(e) => TokenView::Start(e@),
            XmlToken::Empty(e) => TokenView::Empty(e@),
            XmlToken::End(n) => TokenView::End(n@),
            XmlToken::Text(t) => TokenView::Text(t@),
            XmlToken::Other => TokenView::Other,
            XmlToken::Eof => TokenView::Eof,
            XmlToken::Failed(m) => TokenView::Failed(m@),
        }
    }
}

impl TokenView {
    /// The reader stops at the end of the input and at a syntax error.
    pub open spec fn is_terminal(self) -> bool {
        self is Eof || self is Failed
    }
}

/// What a reader yields from the current position up to and including its
/// first `Eof` or error: every event but the last is neither.
pub open spec fn token_stream(toks: Seq<TokenView>) -> bool {
    &&& toks.len() > 0
    &&& toks.last().is_terminal()
    &&& forall|i: int| 0 <= i < toks.len() - 1 ==> !(#[trigger] toks[i]).is_terminal()
}

/// quick-xml's reader, opaque to the proofs: what it has still to yield is
/// named by [`pending_tokens`].
#[verifier::external_type_specification]
#[verifier::external_body]
#[verifier::reject_recursive_types(R)]
pub struct ExXmlReader<R>(Reader<R>);

/// The events that quick-xml's reader yields for `text`, with the whitespace
/// around text dropped when `trim` is set, up to and including the first `Eof`
/// or error.
pub uninterp spec fn xml_tokens(text: Seq<char>, trim: bool) -> Seq<TokenView>;

/// The text a reader was made over.
pub uninterp spec fn reader_text(reader: Reader<&[u8]>) -> Seq<char>;

/// The events that `reader` has still to yield, up to and including the first
/// `Eof` or error.
pub uninterp spec fn pending_tokens(reader: Reader<&[u8]>) -> Seq<TokenView>;

/// `Reader::from_str`: a reader over `xml`, with the default configuration
/// (no trimming). Claimed: it is to yield `xml_tokens(xml@, false)`.
#[verifier::external_body]
fn reader_from_str(xml: &str) -> (reader: Reader<&[u8]>)
    ensures
        reader_text(reader) == xml@,
        pending_tokens(reader) == xml_tokens(xml@, false),
{
    Reader::from_str(xml)
}

/// `Config::trim_text` on the reader's configuration, before anything is
/// read. Claimed: the reader is then to yield `xml_tokens(text, trim)`, a
/// finite run of events that ends with the first `Eof` or error (each read
/// consumes input, and a reader over a slice runs out of it).
#[verifier::external_body]
fn set_trim_text(reader: &mut Reader<&[u8]>, trim: bool)
    requires
        pending_tokens(*old(reader)) == xml_tokens(reader_text(*old(reader)), false),
    ensures
        reader_text(*final(reader)) == reader_text(*old(reader)),
        pending_tokens(*final(reader)) == xml_tokens(reader_text(*old(reader)), trim),
        token_stream(pending_tokens(*final(reader))),
{
    reader.config_mut().trim_text(trim);
}

/// `Reader::read_event_into`: the next event, converted to a token (names, tag
/// contents and text decoded from the input's UTF-8, an error as its
/// message). Claimed: it is the first of the reader's pending events, and the
/// rest stay pending.
#[verifier::external_body]
fn next_token(reader: &mut Reader<&[u8]>) -> (t: XmlToken)
    requires
        pending_tokens(*old(reader)).len() > 0,
    ensures
        t@ == pending_tokens(*old(reader))[0],
        pending_tokens(*final(reader)) == pending_tokens(*old(reader)).drop_first(),
{
    let mut buf = Vec::new();
    let ev = reader.read_event_into(&mut buf);
    let txt = |b: &[u8]| String::from_utf8_lossy(b).into_owned();
    match &ev {
        Ok(Start(e)) | Ok(Empty(e)) => {
            let el = XmlElement { name: txt(e.name().as_ref()), raw: txt(e) };
            if matches!(ev, Ok(Empty(_))) { XmlToken::Empty(el) } else { XmlToken::Start(el) }
        },
        Ok(End(e)) => XmlToken::End(txt(e)),
        Ok(Text(e)) => XmlToken::Text(txt(e)),
        Ok(Eof) => XmlToken::Eof,
        Ok(_) => XmlToken::Other,
        Err(err) => XmlToken::Failed(err.to_string()),
    }
}

/// The attributes quick-xml reads from the contents of a tag named `name`.
pub uninterp spec fn xml_attributes(raw: Seq<char>, name: Seq<char>) -> Seq<Option<AttributeView>>;

pub open spec fn attribute_views(attrs: Seq<Option<XmlAttribute>>) -> Seq<Option<AttributeView>> {
    attrs.map_values(|a: Option<XmlAttribute>| attribute_view(a))
}

/// Whether the element's contents start with its name, as those of every tag
/// quick-xml reads do.
pub open spec fn name_leads(e: ElementView) -> bool {
    e.name.len() <= e.raw.len() && e.raw.subrange(0, e.name.len() as int) == e.name
}

/// The attributes of an element, as quick-xml reads them from its contents;
/// an element whose contents do not start with its name has none.
pub open spec fn attributes_of(e: ElementView) -> Seq<Option<AttributeView>> {
    if name_leads(e) {
        xml_attributes(e.raw, e.name)
    } else {
        Seq::empty()
    }
}

/// `BytesStart::attributes` on a tag made back from its contents and the
/// length of its name (`BytesStart::from_content`): the same reading the
/// reader's own tag gives. Each attribute is converted to key and value
/// (decoded from UTF-8, still escaped), one that quick-xml cannot read to
/// `None`. Claimed: the result is named `xml_attributes` of the two texts.
/// The name must lead the contents: `attributes` starts reading after the
/// name's bytes and would panic past the end of the contents.
#[verifier::external_body]
fn tag_attributes(raw: &str, name: &str) -> (attrs: Vec<Option<XmlAttribute>>)
    requires
        name@.len() <= raw@.len(),
        raw@.subrange(0, name@.len() as int) == name@,
    ensures
        attribute_views(attrs@) == xml_attributes(raw@, name@),
{
    let txt = |b: &[u8]| String::from_utf8_lossy(b).into_owned();
    BytesStart::from_content(raw, name.len()).attributes()
        .map(|a| a.ok().map(|a| XmlAttribute { key: txt(a.key.as_ref()), value: txt(&a.value) })).collect()
}

/// The attributes of an element.
pub fn element_attributes(e: &XmlElement) -> (attrs: Vec<Option<XmlAttribute>>)
    ensures
        attribute_views(attrs@) == attributes_of(e@),
{
    let n = e.raw.as_str().unicode_len();
    let m = e.name.as_str().unicode_len();
    if m <= n && matches_at(e.raw.as_str(), n, e.name.as_str(), m, 0) {
        tag_attributes(e.raw.as_str(), e.name.as_str())
    } else {
        let none: Vec<Option<XmlAttribute>> = Vec::new();
        assert(attribute_views(none@) =~= Seq::<Option<AttributeView>>::empty());
        none
    }
}

/// Runs `step` over the events in order from state `s`, as a reading loop
/// does: it stops with the state at `Eof` (or when the events run out) and with
/// the error's message at the first error.
pub open spec fn run<S>(toks: Seq<TokenView>, s: S, step: spec_fn(S, TokenView) -> S) -> Result<S, Seq<char>>
    decreases toks.len(),
{
    if toks.len() == 0 {
        Ok(s)
    } else {
        match toks[0] {
            TokenView::Eof => Ok(s),
            TokenView::Failed(m) => Err(m),
            _ => run(toks.drop_first(), step(s, toks[0]), step),
        }
    }
}

/// One step of [`run`], at position `i` of the events.
pub proof fn lemma_run_at<S>(toks: Seq<TokenView>, i: int, s: S, step: spec_fn(S, TokenView) -> S)
    requires
        0 <= i < toks.len(),
    ensures
        run(toks.skip(i), s, step) == (match toks[i] {
            TokenView::Eof => Ok(s),
            TokenView::Failed(m) => Err(m),
            _ => run(toks.skip(i + 1), step(s, toks[i]), step),
        }),
{
    assert(toks.skip(i)[0] == toks[i]);
    assert(toks.skip(i).drop_first() =~= toks.skip(i + 1));
}

/// [`run`] over no events.
pub proof fn lemma_run_end<S>(toks: Seq<TokenView>, s: S, step: spec_fn(S, TokenView) -> S)
    ensures
        run(toks.skip(toks.len() as int), s, step) == Ok::<S, Seq<char>>(s),
{
    assert(toks.skip(toks.len() as int).len() == 0);
}

/// The views of a list of tokens.
pub open spec fn token_views(toks: Seq<XmlToken>) -> Seq<TokenView> {
    toks.map_values(|t: XmlToken| t@)
}

/// All events of `xml`, read with the whitespace around text dropped, up to
/// and including the first `Eof` or error.
pub fn read_tokens(xml: &str) -> (toks: Vec<XmlToken>)
    ensures
        token_views(toks@) == xml_tokens(xml@, true),
{
    let mut reader = reader_from_str(xml);
    set_trim_text(&mut reader, true);
    let ghost all = xml_tokens(xml@, true);
    let mut toks: Vec<XmlToken> = Vec::new();
    loop
        invariant
            all == xml_tokens(xml@, true),
            token_stream(all),
            toks.len() < all.len(),
            toks@.map_values(|t: XmlToken| t@) == all.take(toks.len() as int),
            pending_tokens(reader) == all.skip(toks.len() as int),
        decreases all.len() - toks.len(),
    {
        let ghost k = toks.len() as int;
        let t = next_token(&mut reader);
        let done = match &t {
            XmlToken::Eof => true,
            XmlToken::Failed(_) => true,
            _ => false,
        };
        toks.push(t);
        proof {
            assert(toks@.map_values(|t: XmlToken| t@) =~= all.take(k + 1));
            assert(all.skip(k).drop_first() =~= all.skip(k + 1));
        }
        if done {
            assert(k + 1 == all.len());
            assert(all.take(k + 1) =~= all);
            return toks;
        }
    }
}

} // verus!

verus! {

/// The value of the last readable attribute whose key equals `key` up to
/// ASCII case.
pub open spec fn lookup_ic(attrs: Seq<Option<AttributeView>>, key: Seq<char>) -> Option<Seq<char>>
    decreases attrs.len(),
{
    if attrs.len() == 0 {
        None
    } else {
        match attrs.last() {
            Some(a) => if eq_ic(a.key, key) {
                Some(a.value)
            } else {
                lookup_ic(attrs.drop_last(), key)
            },
            None => lookup_ic(attrs.drop_last(), key),
        }
    }
}

/// The value of the last readable attribute whose lowercased key is `key`:
/// what a map filled with the lowercased keys in order holds for `key`.
pub open spec fn lookup_lower(attrs: Seq<Option<AttributeView>>, key: Seq<char>) -> Option<Seq<char>>
    decreases attrs.len(),
{
    if attrs.len() == 0 {
        None
    } else {
        match attrs.last() {
            Some(a) => if lowercase(a.key) == key {
                Some(a.value)
            } else {
                lookup_lower(attrs.drop_last(), key)
            },
            None => lookup_lower(attrs.drop_last(), key),
        }
    }
}

/// The value of the last readable attribute whose key equals `key` up to ASCII
/// case.
pub fn attr_value_ic(attrs: &Vec<Option<XmlAttribute>>, key: &str) -> (r: Option<String>)
    ensures
        opt_view(r) == lookup_ic(attribute_views(attrs@), key@),
{
    let ghost all = attribute_views(attrs@);
    let mut i = attrs.len();
    assert(all.take(i as int) =~= all);
    while i > 0
        invariant
            i <= attrs.len(),
            all == attribute_views(attrs@),
            lookup_ic(all, key@) == lookup_ic(all.take(i as int), key@),
        decreases i,
    {
        let ghost t = all.take(i as int);
        assert(t.drop_last() =~= all.take(i - 1));
        assert(t.last() == attribute_view(attrs@[i - 1]));
        match &attrs[i - 1] {
            Some(a) => {
                if eq_ignore_ascii_case(a.key.as_str(), key) {
                    return Some(a.value.clone());
                }
            },
            None => {},
        }
        i = i - 1;
    }
    None
}

/// The value of the last readable attribute whose lowercased key is `key`.
pub fn attr_value_lower(attrs: &Vec<Option<XmlAttribute>>, key: &str) -> (r: Option<String>)
    ensures
        opt_view(r) == lookup_lower(attribute_views(attrs@), key@),
{
    let ghost all = attribute_views(attrs@);
    let mut i = attrs.len();
    assert(all.take(i as int) =~= all);
    while i > 0
        invariant
            i <= attrs.len(),
            all == attribute_views(attrs@),
            lookup_lower(all, key@) == lookup_lower(all.take(i as int), key@),
        decreases i,
    {
        let ghost t = all.take(i as int);
        assert(t.drop_last() =~= all.take(i - 1));
        assert(t.last() == attribute_view(attrs@[i - 1]));
        match &attrs[i - 1] {
            Some(a) => {
                let lowered = to_lowercase(a.key.as_str());
                if str_eq(lowered.as_str(), key) {
                    return Some(a.value.clone());
                }
            },
            None => {},
        }
        i = i - 1;
    }
    None
}

} // verus!
