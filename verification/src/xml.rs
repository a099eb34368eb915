//! The XML event layer: the event type shared by encoder and decoder,
//! the exact text form of each event, and the trusted wrappers around
//! `quick_xml` that render events to text.
//!
//! The codec owns everything at the schema level; `quick_xml` supplies
//! the lexical layer (tag syntax and entity escaping), behind the
//! `external_body` wrappers in this module.
use vstd::prelude::*;

use crate::views::AttrsV;
use crate::views::ElementV;
use crate::model::Element;

verus! {

/// One lexical XML event.
#[derive(Debug, PartialEq)]
pub enum XmlEvent {
    /// An opening tag with its attribute list.
    Start(String, Vec<(String, String)>),
    /// Character data, already entity-unescaped.
    Text(String),
    /// A closing tag.
    End(String),
    /// End of the input.
    Eof,
    /// A lexical event the schema ignores (declaration, comment, ...).
    Other,
}

/// Spec-level mirror of [`XmlEvent`].
#[verifier::ext_equal]
pub enum EventV {
    Start(Seq<char>, AttrsV),
    Text(Seq<char>),
    End(Seq<char>),
    Eof,
    Other,
}

impl View for XmlEvent {
    type V = EventV;

    open spec fn view(&self) -> EventV {
        match *self {
            XmlEvent::Start(ref n, ref a) => EventV::Start(n@, a.deep_view()),
            XmlEvent::Text(ref t) => EventV::Text(t@),
            XmlEvent::End(ref n) => EventV::End(n@),
            XmlEvent::Eof => EventV::Eof,
            XmlEvent::Other => EventV::Other,
        }
    }
}

/// The view of an event list.
pub open spec fn events_view(s: Seq<XmlEvent>) -> Seq<EventV> {
    s.map_values(|e: XmlEvent| e@)
}

// -------------------------------------------------------------------
// The exact text of each event.
// -------------------------------------------------------------------

/// The replacement an attribute value's character is written as: the
/// five XML special characters, plus the whitespace characters that
/// attribute-value normalization would otherwise rewrite.
pub open spec fn attr_escaped_char(c: char) -> Seq<char> {
    if c == '<' {
        "&lt;"@
    } else if c == '>' {
        "&gt;"@
    } else if c == '&' {
        "&amp;"@
    } else if c == '\'' {
        "&apos;"@
    } else if c == '"' {
        "&quot;"@
    } else if c == '\r' {
        "&#13;"@
    } else if c == '\n' {
        "&#10;"@
    } else if c == '\t' {
        "&#9;"@
    } else {
        seq![c]
    }
}

/// What an attribute value is escaped to, character by character.
pub open spec fn attr_escaped(s: Seq<char>) -> Seq<char>
    decreases s.len(),
{
    if s.len() == 0 {
        Seq::empty()
    } else {
        attr_escaped_char(s[0]) + attr_escaped(s.drop_first())
    }
}

/// The replacement a character-data character is written as: the five
/// XML special characters, plus the carriage return that end-of-line
/// normalization would otherwise rewrite.
pub open spec fn text_escaped_char(c: char) -> Seq<char> {
    if c == '<' {
        "&lt;"@
    } else if c == '>' {
        "&gt;"@
    } else if c == '&' {
        "&amp;"@
    } else if c == '\'' {
        "&apos;"@
    } else if c == '"' {
        "&quot;"@
    } else if c == '\r' {
        "&#13;"@
    } else {
        seq![c]
    }
}

/// What character data is escaped to, character by character.
pub open spec fn text_escaped(s: Seq<char>) -> Seq<char>
    decreases s.len(),
{
    if s.len() == 0 {
        Seq::empty()
    } else {
        text_escaped_char(s[0]) + text_escaped(s.drop_first())
    }
}

/// The rendered attribute list: ` k="v"` for each pair, values escaped.
pub open spec fn attrs_rendered(attrs: AttrsV) -> Seq<char>
    decreases attrs.len(),
{
    if attrs.len() == 0 {
        Seq::empty()
    } else {
        seq![' '] + attrs[0].0 + seq!['=', '"'] + attr_escaped(attrs[0].1) + seq!['"']
            + attrs_rendered(attrs.drop_first())
    }
}

/// The text of an opening tag.
pub open spec fn start_tag(name: Seq<char>, attrs: AttrsV) -> Seq<char> {
    seq!['<'] + name + attrs_rendered(attrs) + seq!['>']
}

/// The text of a closing tag.
pub open spec fn end_tag(name: Seq<char>) -> Seq<char> {
    seq!['<', '/'] + name + seq!['>']
}

/// The text of one event.
pub open spec fn event_text(ev: EventV) -> Seq<char> {
    match ev {
        EventV::Start(n, a) => start_tag(n, a),
        EventV::Text(t) => text_escaped(t),
        EventV::End(n) => end_tag(n),
        EventV::Eof => Seq::empty(),
        EventV::Other => Seq::empty(),
    }
}

/// The text of an event sequence.
pub open spec fn events_text(evs: Seq<EventV>) -> Seq<char>
    decreases evs.len(),
{
    if evs.len() == 0 {
        Seq::empty()
    } else {
        event_text(evs[0]) + events_text(evs.drop_first())
    }
}

/// Rendering distributes over concatenation.
pub proof fn lemma_events_text_concat(a: Seq<EventV>, b: Seq<EventV>)
    ensures
        events_text(a + b) == events_text(a) + events_text(b),
    decreases a.len(),
{
    if a.len() == 0 {
        assert(a + b =~= b);
        assert(events_text(a) + events_text(b) =~= events_text(b));
    } else {
        assert((a + b).drop_first() =~= a.drop_first() + b);
        lemma_events_text_concat(a.drop_first(), b);
        assert(events_text(a + b) =~= events_text(a) + events_text(b));
    }
}

// -------------------------------------------------------------------
// The event sequence of a raw element: the encoder's schema-ordered
// output shape, and the decoder's input shape.
// -------------------------------------------------------------------

/// The events an element emits: its start tag, its text content if
/// any, its children in order, its end tag.
pub open spec fn emit(e: ElementV) -> Seq<EventV>
    decreases e,
{
    seq![EventV::Start(e.name, e.attrs)] + (match e.content {
        Some(t) => seq![EventV::Text(t)],
        None => Seq::empty(),
    }) + emit_seq(e.children) + seq![EventV::End(e.name)]
}

/// The concatenated events of a list of elements.
pub open spec fn emit_seq(s: Seq<ElementV>) -> Seq<EventV>
    decreases s,
{
    if s.len() == 0 {
        Seq::empty()
    } else {
        emit(s[0]) + emit_seq(s.drop_first())
    }
}

/// The XML text of a raw element.
pub open spec fn element_text(e: ElementV) -> Seq<char> {
    events_text(emit(e))
}

/// The XML text of a list of raw elements.
pub open spec fn elements_text(s: Seq<ElementV>) -> Seq<char> {
    events_text(emit_seq(s))
}

/// A single event's text.
pub proof fn lemma_events_text_one(ev: EventV)
    ensures
        events_text(seq![ev]) == event_text(ev),
{
    assert(seq![ev].drop_first() =~= Seq::<EventV>::empty());
    assert(events_text(seq![ev]) == event_text(ev) + events_text(Seq::<EventV>::empty()));
    assert(event_text(ev) + Seq::<char>::empty() =~= event_text(ev));
}

/// An element's text, split into its four parts.
pub proof fn lemma_element_text(e: ElementV)
    ensures
        element_text(e) == start_tag(e.name, e.attrs) + (match e.content {
            Some(t) => text_escaped(t),
            None => Seq::<char>::empty(),
        }) + elements_text(e.children) + end_tag(e.name),
{
    let content_evs: Seq<EventV> = match e.content {
        Some(t) => seq![EventV::Text(t)],
        None => Seq::empty(),
    };
    let start_evs = seq![EventV::Start(e.name, e.attrs)];
    let end_evs = seq![EventV::End(e.name)];
    lemma_events_text_concat(start_evs + content_evs + emit_seq(e.children), end_evs);
    lemma_events_text_concat(start_evs + content_evs, emit_seq(e.children));
    lemma_events_text_concat(start_evs, content_evs);
    lemma_events_text_one(EventV::Start(e.name, e.attrs));
    lemma_events_text_one(EventV::End(e.name));
    match e.content {
        Some(t) => {
            lemma_events_text_one(EventV::Text(t));
        },
        None => {
            assert(events_text(content_evs) =~= Seq::<char>::empty());
        },
    }
}

/// The text of a list of elements, one element at a time.
pub proof fn lemma_elements_text_take(s: Seq<ElementV>, i: int)
    requires
        1 <= i <= s.len(),
    ensures
        elements_text(s.take(i)) == elements_text(s.take(i - 1)) + element_text(s[i - 1]),
    decreases i,
{
    if i == 1 {
        assert(s.take(1) =~= seq![s[0]]);
        assert(s.take(0) =~= Seq::<ElementV>::empty());
        assert(seq![s[0]].drop_first() =~= Seq::<ElementV>::empty());
        lemma_events_text_concat(emit(s[0]), Seq::empty());
        assert(emit(seq![s[0]][0]) + emit_seq(Seq::<ElementV>::empty()) =~= emit(s[0]));
    } else {
        let t = s.take(i);
        assert(t[0] == s[0]);
        assert(t.drop_first() =~= s.drop_first().take(i - 1));
        assert(s.take(i - 1)[0] == s[0]);
        assert(s.take(i - 1).drop_first() =~= s.drop_first().take(i - 2));
        lemma_elements_text_take(s.drop_first(), i - 1);
        lemma_events_text_concat(emit(s[0]), emit_seq(s.drop_first().take(i - 1)));
        lemma_events_text_concat(emit(s[0]), emit_seq(s.drop_first().take(i - 2)));
        assert(elements_text(s.take(i)) =~= elements_text(s.take(i - 1)) + element_text(
            s[i - 1],
        ));
    }
}

// -------------------------------------------------------------------
// Trusted rendering wrappers.
// -------------------------------------------------------------------

/// Relies on `quick_xml::Writer::write_event` with a `BytesStart`: a
/// start event renders as `<` name, then ` key="value"` per attribute
/// with the value escaped by `Attribute::from` through
/// `escape_attribute`, whose documented replacement table
/// [`attr_escaped_char`] restates, then `>`.
#[verifier::external_body]
fn render_start(name: &str, attrs: &Vec<(String, String)>) -> (r: String)
    ensures
        r@ == start_tag(name@, attrs.deep_view()),
        attrs.deep_view().len() == 1 ==> r@ == seq!['<'] + name@ + seq![' ']
            + attrs.deep_view()[0].0 + seq!['=', '"'] + attr_escaped(attrs.deep_view()[0].1)
            + seq!['"'] + seq!['>'],
{
    let mut w = quick_xml::Writer::new(Vec::new());
    let e = quick_xml::events::BytesStart::new(name).with_attributes(
        attrs.iter().map(|p| (p.0.as_str(), p.1.as_str())),
    );
    let _ = w.write_event(quick_xml::events::Event::Start(e));
    String::from_utf8(w.into_inner()).unwrap_or_default()
}

/// Relies on `quick_xml::Writer::write_event` with a `BytesText`: a
/// text event renders as the content escaped by `escape`, whose
/// documented replacement table [`text_escaped_char`] restates.
#[verifier::external_body]
fn render_text(content: &str) -> (r: String)
    ensures
        r@ == text_escaped(content@),
{
    let mut w = quick_xml::Writer::new(Vec::new());
    let _ = w.write_event(quick_xml::events::Event::Text(quick_xml::events::BytesText::new(
        content,
    )));
    String::from_utf8(w.into_inner()).unwrap_or_default()
}

/// Relies on `quick_xml::Writer::write_event` with a `BytesEnd`: an
/// end event renders as `</` name `>`.
#[verifier::external_body]
fn render_end(name: &str) -> (r: String)
    ensures
        r@ == end_tag(name@),
{
    let mut w = quick_xml::Writer::new(Vec::new());
    let _ = w.write_event(quick_xml::events::Event::End(quick_xml::events::BytesEnd::new(name)));
    String::from_utf8(w.into_inner()).unwrap_or_default()
}

/// Relies on `[String]::concat`: the pieces joined in order with
/// nothing between them.
#[verifier::external_body]
pub fn concat_parts(parts: &Vec<String>) -> (s: String)
    ensures
        s@ == parts_text(parts@),
{
    parts.concat()
}

/// The concatenated text of a list of string pieces.
pub open spec fn parts_text(parts: Seq<String>) -> Seq<char>
    decreases parts.len(),
{
    if parts.len() == 0 {
        Seq::empty()
    } else {
        parts[0]@ + parts_text(parts.drop_first())
    }
}

/// Appending a piece appends its text.
pub proof fn lemma_parts_text_push(parts: Seq<String>, p: String)
    ensures
        parts_text(parts.push(p)) == parts_text(parts) + p@,
    decreases parts.len(),
{
    if parts.len() == 0 {
        assert(parts.push(p)[0] == p);
        assert(parts.push(p).drop_first() =~= Seq::<String>::empty());
        assert(parts_text(parts.push(p)) == p@ + parts_text(Seq::<String>::empty()));
        assert(p@ + Seq::<char>::empty() =~= p@);
        assert(parts_text(parts) + p@ =~= p@);
    } else {
        assert(parts.push(p)[0] == parts[0]);
        assert(parts.push(p).drop_first() =~= parts.drop_first().push(p));
        lemma_parts_text_push(parts.drop_first(), p);
        assert(parts_text(parts.push(p)) == parts[0]@ + parts_text(parts.drop_first().push(p)));
        assert(parts_text(parts) == parts[0]@ + parts_text(parts.drop_first()));
        assert(parts[0]@ + (parts_text(parts.drop_first()) + p@) =~= (parts[0]@ + parts_text(
            parts.drop_first(),
        )) + p@);
    }
}

// -------------------------------------------------------------------
// The verified renderer: a raw element tree to its XML text pieces.
// -------------------------------------------------------------------

/// Append the text pieces of `e` to `out`.
pub fn render_element(e: &Element, out: &mut Vec<String>)
    ensures
        parts_text(final(out)@) == parts_text(old(out)@) + element_text(e@),
    decreases *e,
{
    proof {
        crate::views::lemma_elems_view(e.children@);
        lemma_element_text(e@);
    }
    let start = render_start(e.name.as_str(), &e.attrs);
    proof {
        lemma_parts_text_push(out@, start);
    }
    out.push(start);
    if let Some(content) = &e.content {
        let t = render_text(content.as_str());
        proof {
            lemma_parts_text_push(out@, t);
        }
        out.push(t);
    }
    let ghost mid = out@;
    let ghost kids = e@.children;
    let mut i: usize = 0;
    proof {
        assert(kids.take(0) =~= Seq::<ElementV>::empty());
    }
    while i < e.children.len()
        invariant
            i <= e.children.len(),
            kids == e@.children,
            kids.len() == e.children@.len(),
            forall|q: int|
                0 <= q < e.children@.len() ==> kids[q] == #[trigger] e.children@[q]@,
            parts_text(out@) == parts_text(mid) + elements_text(kids.take(i as int)),
        decreases e.children.len() - i,
    {
        proof {
            assert(decreases_to!(*e => e.children));
            assert(decreases_to!(e.children => e.children@[i as int]));
        }
        let child = &e.children[i];
        render_element(child, out);
        i = i + 1;
        proof {
            lemma_elements_text_take(kids, i as int);
        }
    }
    proof {
        assert(kids.take(e.children@.len() as int) =~= kids);
    }
    let endp = render_end(e.name.as_str());
    proof {
        lemma_parts_text_push(out@, endp);
    }
    out.push(endp);
}

/// The XML text of a raw element, as one string.
pub fn element_to_string(e: &Element) -> (s: String)
    ensures
        s@ == element_text(e@),
{
    let mut parts: Vec<String> = Vec::new();
    render_element(e, &mut parts);
    concat_parts(&parts)
}

} // verus!
