//! The decoder's lexical half: pulling events out of `quick_xml`'s
//! tokenizer, and folding an event stream into one raw element with an
//! explicit stack of in-progress builders.
use vstd::prelude::*;

use crate::model::Element;
use crate::model::KmlError;
use crate::txt::chars_to_string;
use crate::txt::push_str_chars;
use crate::views::AttrsV;
use crate::views::ElementV;
use crate::views::KmlErrorV;
use crate::views::elems_view;
use crate::xml::EventV;
use crate::xml::XmlEvent;
use crate::xml::events_view;

verus! {

// -------------------------------------------------------------------
// Trusted tokenizer wrappers.
// -------------------------------------------------------------------

#[verifier::external_type_specification]
#[verifier::external_body]
#[verifier::reject_recursive_types(R)]
pub struct ExReader<R>(quick_xml::Reader<R>);

#[verifier::external_type_specification]
#[verifier::external_body]
pub struct ExQxError(quick_xml::Error);

/// Relies on `quick_xml::Reader::from_str`; empty elements are
/// expanded so the stream shows only start/end pairs.
#[verifier::external_body]
fn xml_reader<'a>(s: &'a str) -> (r: quick_xml::Reader<&'a [u8]>) {
    let mut r = quick_xml::Reader::from_str(s);
    r.config_mut().expand_empty_elements = true;
    r
}

#[verifier::external_type_specification]
#[verifier::external_body]
pub struct ExBytesStart<'a>(quick_xml::events::BytesStart<'a>);

#[verifier::external_type_specification]
#[verifier::external_body]
pub struct ExBytesRef<'a>(quick_xml::events::BytesRef<'a>);

/// Relies on `BytesStart::name` and `BytesStart::attributes`: the
/// tag's verbatim name, and its key/value pairs with the values
/// entity-unescaped by `Attribute::normalized_value`.
#[verifier::external_body]
fn start_event(e: &quick_xml::events::BytesStart<'_>) -> (ev: Result<XmlEvent, quick_xml::Error>) {
    let attrs = e.attributes().map(
        |a| {
            let a = a.map_err(quick_xml::Error::from)?;
            Ok((
                a.key.as_ref().to_string(),
                a.normalized_value(quick_xml::XmlVersion::Implicit1_0)?.into_owned(),
            ))
        },
    ).collect::<Result<Vec<(String, String)>, quick_xml::Error>>()?;
    Ok(XmlEvent::Start(e.name().as_ref().to_string(), attrs))
}

/// Relies on `quick_xml::escape::unescape` to resolve one general
/// entity reference to its replacement text.
#[verifier::external_body]
fn ref_event(g: &quick_xml::events::BytesRef<'_>) -> (ev: Result<XmlEvent, quick_xml::Error>) {
    let raw = format!("&{};", g.xml10_content());
    let resolved = quick_xml::escape::unescape(&raw)?;
    Ok(XmlEvent::Text(resolved.into_owned()))
}

/// Relies on `quick_xml::Reader::read_event`: one lexical event per
/// call, with structural errors reported by the tokenizer.
#[verifier::external_body]
fn next_event(r: &mut quick_xml::Reader<&[u8]>) -> (ev: Result<XmlEvent, quick_xml::Error>) {
    match r.read_event()? {
        quick_xml::events::Event::Start(e) => start_event(&e),
        quick_xml::events::Event::End(e) => Ok(XmlEvent::End(e.name().as_ref().to_string())),
        quick_xml::events::Event::Text(t) => Ok(XmlEvent::Text(t.xml10_content().into_owned())),
        quick_xml::events::Event::CData(t) => Ok(XmlEvent::Text(t.into_inner().into_owned())),
        quick_xml::events::Event::GeneralRef(g) => ref_event(&g),
        quick_xml::events::Event::Eof => Ok(XmlEvent::Eof),
        _ => Ok(XmlEvent::Other),
    }
}

/// Relies on `quick_xml::Error`'s `Display` impl for the diagnostic
/// text, prefixed with the byte position the tokenizer reported.
#[verifier::external_body]
fn qx_error_text(e: &quick_xml::Error, pos: u64) -> (s: String) {
    format!("at byte {}: {}", pos, e)
}

/// What the tokenizer yields over a text it scans without a lexical
/// error: the whole event sequence, closed by the end-of-input event.
/// Over a fixed configuration the stream is a function of the text
/// alone; its exact shape is the tokenizer's own business, so it is
/// named, not spelled out.
pub uninterp spec fn tokens_of(s: Seq<char>) -> Seq<EventV>;

/// Relies on `quick_xml::Reader::read_event`, pulled to the end of the
/// input: the reader is deterministic over a fixed configuration, so a
/// successful scan yields `tokens_of` of the text — one event per call,
/// ending at the first end-of-input event.  On a lexical error the pair
/// carries the error and the reader's `error_position`.
#[verifier::external_body]
fn read_events(s: &str) -> (r: Result<Vec<XmlEvent>, (quick_xml::Error, u64)>)
    ensures
        match r {
            Ok(evs) => {
                &&& events_view(evs@) == tokens_of(s@)
                &&& evs@.len() > 0
                &&& evs@.last() is Eof
                &&& forall|q: int| 0 <= q < evs@.len() - 1 ==> !((#[trigger] evs@[q]) is Eof)
            },
            Err(_) => true,
        },
{
    let mut rd = xml_reader(s);
    let mut evs: Vec<XmlEvent> = Vec::new();
    loop {
        match next_event(&mut rd) {
            Err(e) => return Err((e, rd.error_position())),
            Ok(XmlEvent::Eof) => {
                evs.push(XmlEvent::Eof);
                return Ok(evs);
            },
            Ok(ev) => evs.push(ev),
        }
    }
}

/// Pull every event of `s`, up to and including end-of-input.
///
/// Success yields exactly the tokenizer's event stream for `s`; a
/// lexical error becomes `MalformedXml` with the tokenizer's message
/// and the byte position it points at.
pub fn tokenize(s: &str) -> (r: Result<Vec<XmlEvent>, KmlError>)
    ensures
        match r {
            Ok(evs) => {
                &&& events_view(evs@) == tokens_of(s@)
                &&& evs@.len() > 0
                &&& evs@.last() is Eof
            },
            Err(e) => e@ is MalformedXml,
        },
{
    match read_events(s) {
        Ok(evs) => Ok(evs),
        Err(ep) => Err(KmlError::MalformedXml(qx_error_text(&ep.0, ep.1))),
    }
}

// -------------------------------------------------------------------
// The builder-stack machine.
// -------------------------------------------------------------------

/// One in-progress element builder.
#[derive(Debug)]
pub struct Partial {
    pub name: String,
    pub attrs: Vec<(String, String)>,
    pub content: Option<Vec<char>>,
    pub children: Vec<Element>,
}

/// Spec-level mirror of [`Partial`].
#[verifier::ext_equal]
pub struct PartialV {
    pub name: Seq<char>,
    pub attrs: AttrsV,
    pub content: Option<Seq<char>>,
    pub children: Seq<ElementV>,
}

impl View for Partial {
    type V = PartialV;

    open spec fn view(&self) -> PartialV {
        PartialV {
            name: self.name@,
            attrs: self.attrs.deep_view(),
            content: match self.content {
                Some(ref c) => Some(c@),
                None => None,
            },
            children: elems_view(self.children@),
        }
    }
}

/// The view of a builder stack.
pub open spec fn stack_view(s: Seq<Partial>) -> Seq<PartialV> {
    s.map_values(|p: Partial| p@)
}

/// The machine's whole state: the builder stack, the finished root if
/// the stack has emptied, the error if one was hit.  Once `out` or
/// `err` is set the machine ignores further events.
#[verifier::ext_equal]
pub struct MachineV {
    pub stack: Seq<PartialV>,
    pub out: Option<ElementV>,
    pub err: Option<KmlErrorV>,
}

pub open spec fn machine_init() -> MachineV {
    MachineV { stack: Seq::empty(), out: None, err: None }
}

pub open spec fn machine_done(m: MachineV) -> bool {
    m.out is Some || m.err is Some
}

/// Close a builder into a concrete element.
pub open spec fn finish_partial(p: PartialV) -> ElementV {
    ElementV { name: p.name, attrs: p.attrs, content: p.content, children: p.children }
}

/// One step of the builder-stack machine, exactly as the decoder's
/// design reads: Start pushes a builder, Text feeds the top builder's
/// accumulator, End pops and attaches, end-of-input inside an open
/// element is an error.
pub open spec fn machine_step(m: MachineV, ev: EventV) -> MachineV {
    if machine_done(m) {
        m
    } else {
        match ev {
            EventV::Start(n, a) => MachineV {
                stack: m.stack.push(
                    PartialV { name: n, attrs: a, content: None, children: Seq::empty() },
                ),
                out: m.out,
                err: m.err,
            },
            EventV::Text(t) => {
                if m.stack.len() == 0 {
                    m
                } else {
                    let top = m.stack.last();
                    let nt = match top.content {
                        Some(c) => Some(c + t),
                        None => Some(t),
                    };
                    MachineV {
                        stack: m.stack.update(
                            m.stack.len() - 1,
                            PartialV {
                                name: top.name,
                                attrs: top.attrs,
                                content: nt,
                                children: top.children,
                            },
                        ),
                        out: m.out,
                        err: m.err,
                    }
                }
            },
            EventV::End(n) => {
                if m.stack.len() == 0 {
                    MachineV {
                        stack: m.stack,
                        out: m.out,
                        err: Some(KmlErrorV::UnexpectedElement(n)),
                    }
                } else {
                    let top = m.stack.last();
                    if top.name != n {
                        MachineV {
                            stack: m.stack,
                            out: m.out,
                            err: Some(KmlErrorV::UnexpectedElement(n)),
                        }
                    } else {
                        let el = finish_partial(top);
                        let rest = m.stack.drop_last();
                        if rest.len() == 0 {
                            MachineV { stack: rest, out: Some(el), err: m.err }
                        } else {
                            let pt = rest.last();
                            MachineV {
                                stack: rest.update(
                                    rest.len() - 1,
                                    PartialV {
                                        name: pt.name,
                                        attrs: pt.attrs,
                                        content: pt.content,
                                        children: pt.children.push(el),
                                    },
                                ),
                                out: m.out,
                                err: m.err,
                            }
                        }
                    }
                }
            },
            EventV::Eof => MachineV {
                stack: m.stack,
                out: m.out,
                err: Some(KmlErrorV::UnexpectedEof),
            },
            EventV::Other => m,
        }
    }
}

/// Run the machine over the events from position `i` on.
pub open spec fn machine_run(evs: Seq<EventV>, i: int, m: MachineV) -> MachineV
    decreases evs.len() - i,
{
    if i < 0 || i >= evs.len() {
        m
    } else {
        machine_run(evs, i + 1, machine_step(m, evs[i]))
    }
}

/// A finished machine ignores the rest of the stream.
pub proof fn lemma_run_done(evs: Seq<EventV>, i: int, m: MachineV)
    requires
        machine_done(m),
    ensures
        machine_run(evs, i, m) == m,
    decreases evs.len() - i,
{
    if 0 <= i < evs.len() {
        assert(machine_step(m, evs[i]) == m);
        lemma_run_done(evs, i + 1, m);
    }
}

/// What decoding an event stream yields: the root element, or the
/// first error, with an unterminated document reported as truncated.
pub open spec fn spec_parse_events(evs: Seq<EventV>) -> Result<ElementV, KmlErrorV> {
    let m = machine_run(evs, 0, machine_init());
    if m.err is Some {
        Err(m.err->0)
    } else if m.out is Some {
        Ok(m.out->0)
    } else {
        Err(KmlErrorV::UnexpectedEof)
    }
}

/// Append a finished child to a builder.
fn attach_child(parent: &mut Partial, el: Element)
    ensures
        final(parent)@ == (PartialV {
            name: old(parent)@.name,
            attrs: old(parent)@.attrs,
            content: old(parent)@.content,
            children: old(parent)@.children.push(el@),
        }),
{
    proof {
        crate::encode::lemma_elems_view_push(parent.children@, el);
    }
    parent.children.push(el);
    proof {
        assert(parent@ =~~= (PartialV {
            name: old(parent)@.name,
            attrs: old(parent)@.attrs,
            content: old(parent)@.content,
            children: old(parent)@.children.push(el@),
        }));
    }
}

/// Fold an event stream into its root element.
///
/// Returns exactly what the builder-stack machine yields: the first
/// structural error, or the first complete top-level element.
#[verifier::loop_isolation(false)]
pub fn parse_events(evs: &Vec<XmlEvent>) -> (r: Result<Element, KmlError>)
    ensures
        match (r, spec_parse_events(events_view(evs@))) {
            (Ok(el), Ok(ev)) => el@ == ev,
            (Err(e), Err(ev)) => e@ == ev,
            _ => false,
        },
{
    let ghost evv = events_view(evs@);
    let mut stack: Vec<Partial> = Vec::new();
    let mut i: usize = 0;
    proof {
        assert(stack_view(stack@) =~= Seq::<PartialV>::empty());
        assert(MachineV { stack: stack_view(stack@), out: None, err: None } =~= machine_init());
    }
    while i < evs.len()
        invariant
            i <= evs.len(),
            machine_run(evv, 0, machine_init()) == machine_run(
                evv,
                i as int,
                MachineV { stack: stack_view(stack@), out: None, err: None },
            ),
        decreases evs.len() - i,
    {
        let ghost cur = MachineV { stack: stack_view(stack@), out: None, err: None };
        proof {
            assert(machine_run(evv, i as int, cur) == machine_run(
                evv,
                i as int + 1,
                machine_step(cur, evv[i as int]),
            ));
        }
        match &evs[i] {
            XmlEvent::Start(n, a) => {
                let p = Partial {
                    name: n.clone(),
                    attrs: crate::encode::clone_attrs(a),
                    content: None,
                    children: Vec::new(),
                };
                proof {
                    assert(elems_view(p.children@) =~= Seq::<ElementV>::empty());
                }
                stack.push(p);
                proof {
                    assert(stack_view(stack@) =~~= machine_step(cur, evv[i as int]).stack);
                    assert(MachineV { stack: stack_view(stack@), out: None, err: None }
                        =~~= machine_step(cur, evv[i as int]));
                }
            },
            XmlEvent::Text(t) => {
                if stack.len() > 0 {
                    let mut top = stack.pop().unwrap();
                    let mut acc: Vec<char> = match top.content {
                        Some(v) => v,
                        None => Vec::new(),
                    };
                    push_str_chars(&mut acc, t.as_str());
                    top.content = Some(acc);
                    stack.push(top);
                    proof {
                        assert(stack_view(stack@) =~~= machine_step(cur, evv[i as int]).stack);
                        assert(MachineV { stack: stack_view(stack@), out: None, err: None }
                            =~~= machine_step(cur, evv[i as int]));
                    }
                } else {
                    proof {
                        assert(MachineV { stack: stack_view(stack@), out: None, err: None }
                            =~~= machine_step(cur, evv[i as int]));
                    }
                }
            },
            XmlEvent::End(n) => {
                if stack.len() == 0 {
                    proof {
                        lemma_run_done(evv, i as int + 1, machine_step(cur, evv[i as int]));
                    }
                    return Err(KmlError::UnexpectedElement(n.clone()));
                }
                let top = stack.pop().unwrap();
                if !crate::txt::str_eq(top.name.as_str(), n.as_str()) {
                    proof {
                        let after = machine_step(cur, evv[i as int]);
                        lemma_run_done(evv, i as int + 1, after);
                    }
                    return Err(KmlError::UnexpectedElement(n.clone()));
                }
                let content: Option<String> = match &top.content {
                    Some(v) => Some(chars_to_string(v)),
                    None => None,
                };
                let el = Element {
                    name: top.name,
                    attrs: top.attrs,
                    content,
                    children: top.children,
                };
                proof {
                    assert(el@ =~~= finish_partial(cur.stack.last()));
                }
                if stack.len() == 0 {
                    proof {
                        let after = machine_step(cur, evv[i as int]);
                        assert(after.out == Some(el@));
                        lemma_run_done(evv, i as int + 1, after);
                    }
                    return Ok(el);
                }
                let mut parent = stack.pop().unwrap();
                attach_child(&mut parent, el);
                stack.push(parent);
                proof {
                    assert(stack_view(stack@) =~~= machine_step(cur, evv[i as int]).stack);
                    assert(MachineV { stack: stack_view(stack@), out: None, err: None }
                        =~~= machine_step(cur, evv[i as int]));
                }
            },
            XmlEvent::Eof => {
                proof {
                    let after = machine_step(cur, evv[i as int]);
                    lemma_run_done(evv, i as int + 1, after);
                }
                return Err(KmlError::UnexpectedEof);
            },
            XmlEvent::Other => {
                proof {
                    assert(MachineV { stack: stack_view(stack@), out: None, err: None }
                        =~~= machine_step(cur, evv[i as int]));
                }
            },
        }
        i = i + 1;
    }
    proof {
        let fin = MachineV { stack: stack_view(stack@), out: None, err: None };
        assert(machine_run(evv, evs@.len() as int, fin) == fin);
    }
    Err(KmlError::UnexpectedEof)
}

} // verus!
