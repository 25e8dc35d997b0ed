//! Navigation pipeline: from serial bytes to notifications of the current
//! time.
//!
//! Each emitted frame is decoded, adapted and published on its own. A frame
//! that is rejected, skipped or refused is reported and the next one is
//! handled as if nothing had happened.

use crate::adapter::{adapt, adapt_spec};
use crate::attributes::{
    lemma_same_schema_chain, lemma_schema_is_kept, notify_spec, same_schema, AttributeModel,
    AttributeTable, Refusal, CURRENT_TIME,
};
use crate::decoder::{decode, decode_spec, Record, RejectReason};
use crate::framer::{events_view, run, Emitted, FrameBuffer, FramerEvent};
use vstd::prelude::*;

verus! {

/// What became of one emission of the framer.
#[derive(Clone, Copy, Debug, PartialEq, Eq)]
pub enum Report {
    /// A time datum was stored under the current-time attribute; these bytes
    /// are to be notified to the peer.
    Notified([u8; 10]),
    /// The sentence is well formed and of a kind that is not published.
    Skipped,
    /// The sentence was rejected by the decoder.
    Rejected(RejectReason),
    /// A time datum was decoded, but the table refused the update.
    Unsent(Refusal),
    /// The framer dropped an overlong sentence.
    Overflow,
}

/// A report over sequences.
pub enum ReportModel {
    Notified(Seq<u8>),
    Skipped,
    Rejected(RejectReason),
    Unsent(Refusal),
    Overflow,
}

impl View for Report {
    type V = ReportModel;

    open spec fn view(&self) -> ReportModel {
        match self {
            Report::Notified(bytes) => ReportModel::Notified(bytes@),
            Report::Skipped => ReportModel::Skipped,
            Report::Rejected(reason) => ReportModel::Rejected(*reason),
            Report::Unsent(refusal) => ReportModel::Unsent(*refusal),
            Report::Overflow => ReportModel::Overflow,
        }
    }
}

/// The views of a list of reports, in order.
pub open spec fn reports_view(reports: Seq<Report>) -> Seq<ReportModel> {
    Seq::new(reports.len(), |i: int| reports[i]@)
}

/// The table after a decoded sentence is passed on, and the report: the
/// payload of a time datum is stored under the current-time attribute, and
/// nothing changes for any other record or for a rejection.
pub open spec fn send_spec(table: Seq<AttributeModel>, outcome: Result<Record, RejectReason>) -> (
    Seq<AttributeModel>,
    ReportModel,
) {
    match outcome {
        Err(reason) => (table, ReportModel::Rejected(reason)),
        Ok(record) => match adapt_spec(record) {
            None => (table, ReportModel::Skipped),
            Some(payload) => match notify_spec(table, CURRENT_TIME, payload).1 {
                Some(refusal) => (table, ReportModel::Unsent(refusal)),
                None => (
                    notify_spec(table, CURRENT_TIME, payload).0,
                    ReportModel::Notified(payload),
                ),
            },
        },
    }
}

/// The table after the bytes of one sentence are published, and the report.
pub open spec fn publish_spec(table: Seq<AttributeModel>, frame: Seq<u8>) -> (
    Seq<AttributeModel>,
    ReportModel,
) {
    send_spec(table, decode_spec(frame))
}

/// The table after one emission of the framer is handled, and the report.
pub open spec fn handle_spec(table: Seq<AttributeModel>, event: Emitted) -> (
    Seq<AttributeModel>,
    ReportModel,
) {
    match event {
        Emitted::Frame(bytes) => publish_spec(table, bytes),
        Emitted::Idle(bytes) => publish_spec(table, bytes),
        Emitted::Overflow => (table, ReportModel::Overflow),
    }
}

/// The table after the first `n` emissions are handled in order, and the
/// reports: one for each emission.
pub open spec fn handled(table: Seq<AttributeModel>, events: Seq<Emitted>, n: int) -> (
    Seq<AttributeModel>,
    Seq<ReportModel>,
)
    decreases n,
{
    if n <= 0 {
        (table, Seq::empty())
    } else {
        let (before, reports) = handled(table, events, n - 1);
        let (after, report) = handle_spec(before, events[n - 1]);
        (after, reports.push(report))
    }
}

/// Passes a decoded sentence on: a time datum is encoded and stored under
/// the current-time attribute, and its payload is handed back for the
/// notification. Nothing is stored for a rejection or a record of another
/// kind, or where the table refuses the payload.
pub fn send_nmea_msg(table: &mut AttributeTable, outcome: Result<Record, RejectReason>) -> (report:
    Report)
    ensures
        final(table)@ == send_spec(old(table)@, outcome).0,
        report@ == send_spec(old(table)@, outcome).1,
{
    match outcome {
        Err(reason) => Report::Rejected(reason),
        Ok(record) => match adapt(&record) {
            None => Report::Skipped,
            Some(payload) => match table.notify(CURRENT_TIME, payload.as_slice()) {
                Some(refusal) => Report::Unsent(refusal),
                None => Report::Notified(payload),
            },
        },
    }
}

/// Decodes the bytes of one sentence and passes the outcome on.
pub fn publish(table: &mut AttributeTable, frame: &[u8]) -> (report: Report)
    ensures
        final(table)@ == publish_spec(old(table)@, frame@).0,
        report@ == publish_spec(old(table)@, frame@).1,
{
    let outcome = decode(frame);
    send_nmea_msg(table, outcome)
}

/// Handles one emission of the framer: publishes a sentence, passes an
/// overflow on.
pub fn handle(table: &mut AttributeTable, event: &FramerEvent) -> (report: Report)
    ensures
        final(table)@ == handle_spec(old(table)@, event@).0,
        report@ == handle_spec(old(table)@, event@).1,
{
    match event {
        FramerEvent::Frame(bytes) => publish(table, bytes.as_slice()),
        FramerEvent::Idle(bytes) => publish(table, bytes.as_slice()),
        FramerEvent::Overflow => Report::Overflow,
    }
}

/// Handles the emissions of the framer in order, one report for each.
pub fn handle_all(table: &mut AttributeTable, events: &[FramerEvent]) -> (reports: Vec<Report>)
    ensures
        reports@.len() == events@.len(),
        final(table)@ == handled(old(table)@, events_view(events@), events@.len() as int).0,
        reports_view(reports@) == handled(
            old(table)@,
            events_view(events@),
            events@.len() as int,
        ).1,
{
    let mut reports: Vec<Report> = Vec::new();
    assert(reports_view(reports@) =~= Seq::<ReportModel>::empty());
    let mut i: usize = 0;
    while i < events.len()
        invariant
            i <= events.len(),
            reports@.len() == i,
            table@ == handled(old(table)@, events_view(events@), i as int).0,
            reports_view(reports@) == handled(old(table)@, events_view(events@), i as int).1,
        decreases events.len() - i,
    {
        let ghost before = reports@;
        let report = handle(table, &events[i]);
        reports.push(report);
        assert(reports_view(reports@) =~= reports_view(before).push(report@));
        i += 1;
    }
    reports
}

/// Takes what one read of the serial source returned, frames it, and
/// publishes every sentence that it completes. An empty chunk is the
/// source's idle signal.
pub fn on_read(buffer: &mut FrameBuffer, table: &mut AttributeTable, chunk: &[u8]) -> (reports:
    Vec<Report>)
    ensures
        ({
            let emitted = if chunk@.len() == 0 {
                seq![Emitted::Idle(old(buffer)@)]
            } else {
                run(old(buffer)@, chunk@).1
            };
            &&& final(buffer)@ == (if chunk@.len() == 0 {
                Seq::<u8>::empty()
            } else {
                run(old(buffer)@, chunk@).0
            })
            &&& reports@.len() == emitted.len()
            &&& final(table)@ == handled(old(table)@, emitted, emitted.len() as int).0
            &&& reports_view(reports@) == handled(old(table)@, emitted, emitted.len() as int).1
        }),
{
    let events = buffer.feed(chunk);
    handle_all(table, events.as_slice())
}

/// Every emission of the framer has its report, whatever the sentences hold:
/// a bad sentence stops nothing.
pub proof fn lemma_one_report_per_emission(table: Seq<AttributeModel>, events: Seq<Emitted>, n: int)
    requires
        0 <= n <= events.len(),
    ensures
        handled(table, events, n).1.len() == n,
        forall|i: int|
            0 <= i < n ==> #[trigger] handled(table, events, n).1[i] == handle_spec(
                handled(table, events, i).0,
                events[i],
            ).1,
    decreases n,
{
    if n > 0 {
        lemma_one_report_per_emission(table, events, n - 1);
    }
}

/// However many emissions are handled, the table declares the same
/// attributes as before: only values change.
pub proof fn lemma_publishing_keeps_schema(
    table: Seq<AttributeModel>,
    events: Seq<Emitted>,
    n: int,
)
    ensures
        same_schema(table, handled(table, events, n).0),
    decreases n,
{
    if n > 0 {
        lemma_publishing_keeps_schema(table, events, n - 1);
        let before = handled(table, events, n - 1).0;
        let after = handled(table, events, n).0;
        assert(same_schema(before, after)) by {
            assert forall|payload: Seq<u8>| same_schema(
                before,
                #[trigger] notify_spec(before, CURRENT_TIME, payload).0,
            ) by {
                lemma_schema_is_kept(before, CURRENT_TIME, payload);
            }
        }
        lemma_same_schema_chain(table, before, after);
    }
}

}
