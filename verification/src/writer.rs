//! The public encoding surface: the whole-tree text function and the
//! buffering `KmlWriter`.
use vstd::prelude::*;

use crate::encode::lower_kml;
use crate::encode::lower_v;
use crate::model::Kml;
use crate::model::KmlError;
use crate::views::KmlV;
use crate::xml::element_text;
use crate::xml::element_to_string;
use crate::xml::parts_text;
use crate::xml::render_element;

verus! {

/// The exact XML text a node encodes to.
pub open spec fn kml_text(k: KmlV) -> Seq<char> {
    element_text(lower_v(k))
}

impl Kml {
    /// Encode this node as one XML string.
    ///
    /// Encoding never fails: the typed tree makes invalid documents
    /// unrepresentable, and the in-memory sink cannot error.
    pub fn to_string(&self) -> (s: String)
        ensures
            s@ == kml_text(self@),
    {
        let el = lower_kml(self);
        element_to_string(&el)
    }
}

/// An encoder over an in-memory sink.  Each `write` appends the exact
/// text of one node.
pub struct KmlWriter {
    parts: Vec<String>,
}

impl View for KmlWriter {
    type V = Seq<char>;

    closed spec fn view(&self) -> Seq<char> {
        parts_text(self.parts@)
    }
}

impl KmlWriter {
    /// An empty writer.
    pub fn new() -> (w: KmlWriter)
        ensures
            w@ == Seq::<char>::empty(),
    {
        let w = KmlWriter { parts: Vec::new() };
        proof {
            assert(w.parts@ =~= Seq::<String>::empty());
        }
        w
    }

    /// A writer seeded with already-written text.
    pub fn from_writer(out: String) -> (w: KmlWriter)
        ensures
            w@ == out@,
    {
        let ghost ov = out@;
        let ghost o = out;
        let mut parts: Vec<String> = Vec::new();
        parts.push(out);
        let w = KmlWriter { parts };
        proof {
            assert(w.parts@ == Seq::<String>::empty().push(o));
            assert(Seq::<String>::empty().push(o)[0] == o);
            assert(w.parts@.drop_first() =~= Seq::<String>::empty());
            assert(parts_text(w.parts@) == o@ + parts_text(Seq::<String>::empty()));
            assert(o@ + Seq::<char>::empty() =~= ov);
        }
        w
    }

    /// Append the text of one node to the sink.
    ///
    /// Never fails: the sink is in memory; the `Result` mirrors the
    /// signature an I/O-backed sink would need.
    pub fn write(&mut self, kml: &Kml) -> (r: Result<(), KmlError>)
        ensures
            r is Ok,
            final(self)@ == old(self)@ + kml_text(kml@),
    {
        let el = lower_kml(kml);
        render_element(&el, &mut self.parts);
        Ok(())
    }

    /// Take the accumulated text.
    pub fn into_inner(self) -> (s: String)
        ensures
            s@ == self@,
    {
        crate::xml::concat_parts(&self.parts)
    }
}

} // verus!
