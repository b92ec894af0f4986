//! The acquisition cycle's decisions. The surrounding binary talks to the
//! platform smart-card service — enumerate, connect, transmit — and reports
//! each reader's exchange here; this module decides what every outcome
//! means, assembles the snapshot in enumeration order, and pins the policy
//! that a cycle tolerates any single reader's failure and retries a failed
//! enumeration exactly once.

use vstd::prelude::*;

use vstd::string::StringExecFns;

use crate::card::{decoded_card, raw_valid, CardModel, NHICardBasic};
use crate::errors::TransportError;

verus! {

/// What one reader's exchange came to, as the binary reports it.
pub enum ReaderReport {
    /// Connecting failed; soft kinds mean no usable card is present.
    ConnectFailed(TransportError),
    /// A transmit failed mid-exchange.
    TransmitFailed(TransportError),
    /// The SELECT answer was not the accepting status: not a supported
    /// card.
    UnsupportedCard,
    /// The READ answer, still raw.
    ReadData(Vec<u8>),
}

/// The record one reader contributes: only a read that parses yields one,
/// and it carries that reader's name.
pub open spec fn report_card(name: Seq<char>, report: ReaderReport) -> Option<CardModel> {
    match report {
        ReaderReport::ReadData(b) => {
            if raw_valid(b@) {
                Option::Some(CardModel { reader_name: Option::Some(name), ..decoded_card(b@) })
            } else {
                Option::None
            }
        },
        _ => Option::None,
    }
}

/// The snapshot of a whole cycle: each reader's contribution, in
/// enumeration order, failed readers skipped.
pub open spec fn snapshot_of_reports(reports: Seq<(String, ReaderReport)>) -> Seq<CardModel>
    decreases reports.len(),
{
    if reports.len() == 0 {
        Seq::empty()
    } else {
        snapshot_of_reports(reports.drop_last()) + (match report_card(
            reports.last().0@,
            reports.last().1,
        ) {
            Option::Some(c) => seq![c],
            Option::None => Seq::empty(),
        })
    }
}

pub open spec fn views_of(rs: Seq<NHICardBasic>) -> Seq<CardModel> {
    rs.map_values(|c: NHICardBasic| c@)
}

/// The SELECT answer that marks a supported card: status words 90 00.
pub fn select_accepted(response: &[u8]) -> (r: bool)
    ensures
        r == (response@ == seq![144u8, 0u8]),
{
    let ok = response.len() == 2 && response[0] == 144 && response[1] == 0;
    proof {
        if ok {
            assert(response@ =~= seq![144u8, 0u8]);
        }
    }
    ok
}

/// The enumeration buffer is sized to the service's reported requirement,
/// floored at several KB to tolerate services that misreport it.
pub fn enumeration_buffer_size(reported: usize) -> (r: usize)
    ensures
        r == if reported >= 4096 {
            reported
        } else {
            4096usize
        },
{
    if reported >= 4096 {
        reported
    } else {
        4096
    }
}

/// What a cycle does when enumeration cannot reach the smart-card service:
/// re-establish the context and try once more, or — if that was already the
/// retry — abort the cycle and leave the cache untouched.
#[derive(Debug, Clone, Copy, PartialEq, Eq, Structural)]
pub enum CycleDecision {
    RetryEstablish,
    Abort,
}

pub fn on_enumeration_failure(already_retried: bool) -> (r: CycleDecision)
    ensures
        r == if already_retried {
            CycleDecision::Abort
        } else {
            CycleDecision::RetryEstablish
        },
{
    if already_retried {
        CycleDecision::Abort
    } else {
        CycleDecision::RetryEstablish
    }
}

/// Decodes one reader's exchange. Every failure — no card, a removed card,
/// a transmit error, an unsupported applet, a record that does not parse —
/// yields nothing, and the cycle goes on with the next reader.
pub fn process_reader(reader_name: &str, report: &ReaderReport) -> (r: Option<NHICardBasic>)
    ensures
        match r {
            Option::Some(c) => report_card(reader_name@, *report) == Option::Some(c@),
            Option::None => report_card(reader_name@, *report) is None,
        },
{
    match report {
        ReaderReport::ReadData(data) => {
            match NHICardBasic::from_raw(data.as_slice()) {
                Ok(mut card) => {
                    card.reader_name = Some(String::from_str(reader_name));
                    Some(card)
                },
                Err(_) => None,
            }
        },
        _ => None,
    }
}

/// Builds the full snapshot from all readers' exchanges, in enumeration
/// order. The cycle never publishes part of a snapshot: this value is built
/// whole before anything touches the cache.
pub fn assemble_snapshot(reports: &Vec<(String, ReaderReport)>) -> (r: Vec<NHICardBasic>)
    ensures
        views_of(r@) == snapshot_of_reports(reports@),
{
    let mut out: Vec<NHICardBasic> = Vec::new();
    proof {
        assert(views_of(out@) =~= snapshot_of_reports(reports@.take(0)));
    }
    let mut i: usize = 0;
    while i < reports.len()
        invariant
            i <= reports@.len(),
            views_of(out@) == snapshot_of_reports(reports@.take(i as int)),
        decreases reports@.len() - i,
    {
        let (name, report) = &reports[i];
        match process_reader(name.as_str(), report) {
            Some(card) => {
                out.push(card);
            },
            None => {},
        }
        proof {
            assert(reports@.take(i + 1).drop_last() =~= reports@.take(i as int));
            assert(reports@.take(i + 1).last() == reports@[i as int]);
            assert(views_of(out@) =~= snapshot_of_reports(reports@.take(i + 1)));
        }
        i = i + 1;
    }
    proof {
        assert(reports@.take(reports@.len() as int) =~= reports@);
    }
    out
}

/// An empty enumeration — no hardware at all — contributes no records, and
/// the empty snapshot serializes to exactly `[]`: clients get a well-formed
/// response, never an error.
pub proof fn lemma_empty_enumeration_serves_empty_array()
    ensures
        snapshot_of_reports(Seq::<(String, ReaderReport)>::empty()) == Seq::<CardModel>::empty(),
        crate::json::snapshot_json(Seq::<NHICardBasic>::empty()) == "[]"@,
{
}

} // verus!
