//! The span collector slot and the annotation emitters. The slot is a value
//! the dispatch cycle threads through: set at the start, cleared at the end;
//! an emitter with no active collector does nothing.

use vstd::prelude::*;
use crate::json::{JsonVal, JsonData, field_views_of, lemma_field_views_elts};

verus! {

broadcast use vstd::seq::group_seq_axioms, vstd::std_specs::vec::group_vec_axioms;

/// One recorded span.
#[derive(Debug)]
pub struct Span {
    pub span_type: String,
    pub name: String,
    pub attributes: JsonVal,
    pub succeeded: bool,
}

pub struct SpanData {
    pub span_type: Seq<char>,
    pub name: Seq<char>,
    pub attributes: JsonData,
    pub succeeded: bool,
}

impl View for Span {
    type V = SpanData;

    open spec fn view(&self) -> SpanData {
        SpanData {
            span_type: self.span_type@,
            name: self.name@,
            attributes: self.attributes@,
            succeeded: self.succeeded,
        }
    }
}

pub open spec fn spans_view(s: Seq<Span>) -> Seq<SpanData> {
    Seq::new(s.len(), |i: int| s[i]@)
}

/// Collects the spans of one dispatch.
#[derive(Debug)]
pub struct SpanCollector {
    pub spans: Vec<Span>,
}

impl SpanCollector {
    pub open spec fn view_seq(&self) -> Seq<SpanData> {
        spans_view(self.spans@)
    }

    pub fn new() -> (r: SpanCollector)
        ensures
            r.view_seq().len() == 0,
    {
        SpanCollector { spans: Vec::new() }
    }

    /// Record one span.
    pub fn record(&mut self, span: Span) -> (nothing: ())
        ensures
            final(self).view_seq() == old(self).view_seq().push(span@),
    {
        let ghost sv = span@;
        self.spans.push(span);
        proof {
            assert(self.view_seq() =~= old(self).view_seq().push(sv));
        }
    }
}

/// The task-scoped slot that holds the active collector.
#[derive(Debug)]
pub struct TelemetrySlot {
    pub active: Option<SpanCollector>,
}

impl TelemetrySlot {
    /// An empty slot: no collector, emitters do nothing.
    pub fn new() -> (r: TelemetrySlot)
        ensures
            r.active is None,
    {
        TelemetrySlot { active: None }
    }
}

/// Install a collector as the active one.
pub fn set_active_collector(slot: &mut TelemetrySlot, collector: SpanCollector) -> (nothing: ())
    ensures
        final(slot).active matches Some(c) && c.view_seq() == collector.view_seq(),
{
    let ghost cv = collector.view_seq();
    slot.active = Some(collector);
}

/// Remove the active collector.
pub fn clear_active_collector(slot: &mut TelemetrySlot) -> (nothing: ())
    ensures
        final(slot).active is None,
{
    slot.active = None;
}

/// The active collector, when one is installed.
pub fn with_active_collector(slot: &TelemetrySlot) -> (r: Option<&SpanCollector>)
    ensures
        match r {
            Some(c) => slot.active matches Some(a) && a.view_seq() == c.view_seq(),
            None => slot.active is None,
        },
{
    match &slot.active {
        Some(c) => Some(c),
        None => None,
    }
}

/// The attributes of an annotation span.
pub open spec fn annotation_attrs(key: Seq<char>, value: JsonData) -> JsonData {
    JsonData::Obj(
        seq![("annotation_key"@, JsonData::Str(key)), ("annotation_value"@, value)],
    )
}

/// Record an annotation on the active collector; with no collector installed
/// nothing happens.
pub fn emit_annotation(slot: &mut TelemetrySlot, key: &str, value: JsonVal) -> (nothing: ())
    ensures
        old(slot).active is None ==> final(slot).active is None,
        old(slot).active matches Some(c) ==> final(slot).active matches Some(c2)
            && c2.view_seq() == c.view_seq().push(
            SpanData {
                span_type: "annotation"@,
                name: key@,
                attributes: annotation_attrs(key@, value@),
                succeeded: true,
            },
        ),
{
    let taken = slot.active.take();
    match taken {
        None => {}
        Some(mut c) => {
            let ghost vv = value@;
            let mut fields: Vec<(String, JsonVal)> = Vec::new();
            fields.push(("annotation_key".to_owned(), JsonVal::Str(key.to_owned())));
            fields.push(("annotation_value".to_owned(), value));
            proof {
                lemma_field_views_elts(fields@);
                assert(field_views_of(fields@) =~= seq![
                    ("annotation_key"@, JsonData::Str(key@)),
                    ("annotation_value"@, vv),
                ]);
            }
            let span = Span {
                span_type: "annotation".to_owned(),
                name: key.to_owned(),
                attributes: JsonVal::Obj(fields),
                succeeded: true,
            };
            c.record(span);
            slot.active = Some(c);
        }
    }
}

/// Record a free-text message as an annotation.
pub fn emit_message(slot: &mut TelemetrySlot, text: &str) -> (nothing: ())
    ensures
        old(slot).active is None ==> final(slot).active is None,
        old(slot).active matches Some(c) ==> final(slot).active matches Some(c2)
            && c2.view_seq() == c.view_seq().push(
            SpanData {
                span_type: "annotation"@,
                name: "message"@,
                attributes: annotation_attrs("message"@, JsonData::Str(text@)),
                succeeded: true,
            },
        ),
{
    emit_annotation(slot, "message", JsonVal::Str(text.to_owned()))
}

} // verus!
