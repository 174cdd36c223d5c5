//! Banner and roster tables: parsing the game's delimited event table into
//! typed banner rows, and turning roster tables into per-tier slot data and
//! concrete observations.

use vstd::prelude::*;

use crate::model::{RarityTier, SlotObservation, BLANK_SLOT_USER};
use crate::numbers::{int_literal_value, is_i32_literal, is_u32_literal, parse_i32, parse_u32};

verus! {

/// The field separator of the event table (a tab) and of the roster tables
/// (a comma), as delimiter bytes.
pub const TAB: u8 = 9;
pub const COMMA: u8 = 44;

/// The records a headerless, flexible-length read of delimited text yields:
/// a function of the text and the delimiter alone.
pub uninterp spec fn csv_records_of(data: Seq<char>, delimiter: u8) -> Seq<Seq<Seq<char>>>;

/// Relies on `csv::ReaderBuilder` / `csv::Reader`: reading an in-memory
/// string without headers, with flexible record lengths and the given
/// delimiter, yields records determined by that string alone. Read errors
/// are skipped; reading valid UTF-8 in flexible mode does not produce them.
#[verifier::external_body]
fn csv_records(data: &str, delimiter: u8) -> (r: Vec<Vec<String>>)
    ensures
        r.deep_view() == csv_records_of(data@, delimiter),
{
    let mut reader = csv::ReaderBuilder::new()
        .delimiter(delimiter)
        .has_headers(false)
        .flexible(true)
        .from_reader(data.as_bytes());
    let mut records: Vec<Vec<String>> = Vec::new();
    for result in reader.records() {
        if let Ok(record) = result {
            records.push(record.iter().map(|f| f.to_string()).collect());
        }
    }
    records
}

/// One row of the event table: a banner with its validity window, identity,
/// per-tier percentage weights and label, all as the raw table fields.
#[derive(Debug)]
pub struct GatyaEvent {
    pub index: u32,
    pub start: String,
    pub end: String,
    pub gatya_id: String,
    pub rare_chance: String,
    pub super_rare_chance: String,
    pub uber_rare_chance: String,
    pub legend_rare_chance: String,
    pub banner_txt: String,
}

impl Clone for GatyaEvent {
    fn clone(&self) -> (res: Self)
        ensures
            res == *self,
    {
        GatyaEvent {
            index: self.index,
            start: self.start.clone(),
            end: self.end.clone(),
            gatya_id: self.gatya_id.clone(),
            rare_chance: self.rare_chance.clone(),
            super_rare_chance: self.super_rare_chance.clone(),
            uber_rare_chance: self.uber_rare_chance.clone(),
            legend_rare_chance: self.legend_rare_chance.clone(),
            banner_txt: self.banner_txt.clone(),
        }
    }
}

/// An event record is well formed when its tenth field holds the number of
/// banner variants, at least 1, and the fields of the last variant fit in
/// the record.
pub open spec fn event_record_wf(rec: Seq<Seq<char>>) -> bool {
    &&& rec.len() >= 25
    &&& is_i32_literal(rec[9])
    &&& {
        let l = int_literal_value(rec[9]);
        1 <= l && 24 + 15 * (l - 1) < rec.len()
    }
}

/// The fields of a parsed event against its record: each field of the
/// banner's last variant, whose position depends on the variant count in
/// the tenth field.
pub open spec fn event_fields_match(e: GatyaEvent, rec: Seq<Seq<char>>) -> bool {
    let l = int_literal_value(rec[9]);
    &&& e.start@ == rec[0]
    &&& e.end@ == rec[2]
    &&& e.gatya_id@ == rec[10 + 15 * (l - 1)]
    &&& e.rare_chance@ == rec[16 + 15 * (l - 1)]
    &&& e.super_rare_chance@ == rec[18 + 15 * (l - 1)]
    &&& e.uber_rare_chance@ == rec[20 + 15 * (l - 1)]
    &&& e.legend_rare_chance@ == rec[22 + 15 * (l - 1)]
    &&& e.banner_txt@ == rec[24 + 15 * (l - 1)]
}

/// Whether a record is well formed, decided executably.
fn event_record_ok(line: &Vec<String>) -> (b: bool)
    ensures
        b == event_record_wf(line.deep_view()),
{
    proof {
        assert forall|p: int| 0 <= p < line@.len()
            implies line.deep_view()[p] == line@[p]@ by {}
    }
    if line.len() < 25 {
        return false;
    }
    match parse_i32(line[9].as_str()) {
        None => false,
        Some(l) => {
            if l < 1 {
                return false;
            }
            let banner_pos: i64 = 24 + 15 * (l as i64 - 1);
            (banner_pos as u64) < (line.len() as u64)
        },
    }
}

/// Parse one well-formed event record into a banner row, tagging it with
/// the caller's record index.
pub fn parse_gatya_event(index: i32, line: &Vec<String>) -> (r: GatyaEvent)
    requires
        event_record_wf(line.deep_view()),
    ensures
        r.index == index as u32,
        event_fields_match(r, line.deep_view()),
{
    proof {
        assert forall|p: int| 0 <= p < line@.len()
            implies line.deep_view()[p] == line@[p]@ by {}
    }
    let length: i32 = parse_i32(line[9].as_str()).unwrap();
    let ext: i64 = 15 * (length as i64 - 1);
    let n = line.len();
    proof {
        assert(line.deep_view().len() == line@.len());
        assert(0 <= (ext as int));
        assert(24 + (ext as int) < (n as int));
    }
    let gatya_id_pos: usize = (10 + ext) as usize;
    let rare_chance_pos: usize = (16 + ext) as usize;
    let super_rare_chance_pos: usize = (18 + ext) as usize;
    let uber_rare_chance_pos: usize = (20 + ext) as usize;
    let legend_rare_chance_pos: usize = (22 + ext) as usize;
    let banner_text_pos: usize = (24 + ext) as usize;
    proof {
        let l = int_literal_value(line.deep_view()[9]);
        assert(gatya_id_pos as int == 10 + 15 * (l - 1));
        assert(banner_text_pos as int == 24 + 15 * (l - 1));
    }
    GatyaEvent {
        index: index as u32,
        start: line[0].clone(),
        end: line[2].clone(),
        gatya_id: line[gatya_id_pos].clone(),
        rare_chance: line[rare_chance_pos].clone(),
        super_rare_chance: line[super_rare_chance_pos].clone(),
        uber_rare_chance: line[uber_rare_chance_pos].clone(),
        legend_rare_chance: line[legend_rare_chance_pos].clone(),
        banner_txt: line[banner_text_pos].clone(),
    }
}

/// The events parsed from the first `i` records: records of fewer than 25
/// fields are skipped, each other record must be well formed and yields one
/// event in order, indexed by its record position.
pub open spec fn events_match_upto(
    es: Seq<GatyaEvent>,
    recs: Seq<Seq<Seq<char>>>,
    i: int,
) -> bool
    decreases i,
{
    if i <= 0 {
        es.len() == 0
    } else if recs[i - 1].len() >= 25 {
        &&& es.len() >= 1
        &&& event_record_wf(recs[i - 1])
        &&& es.last().index == ((i - 1) as i32) as u32
        &&& event_fields_match(es.last(), recs[i - 1])
        &&& events_match_upto(es.drop_last(), recs, i - 1)
    } else {
        events_match_upto(es, recs, i - 1)
    }
}

/// The events parsed from a whole record list.
pub open spec fn events_of_records(es: Seq<GatyaEvent>, recs: Seq<Seq<Seq<char>>>) -> bool {
    events_match_upto(es, recs, recs.len() as int)
}

/// A malformed record of the event table: the first record that has enough
/// fields to be a banner but no usable variant count.
#[derive(Clone, Copy, Debug, PartialEq, Eq, Structural)]
pub struct GatyaParseError {
    pub record_index: usize,
}

/// Parse the raw tab-separated event table into banner rows. Records of
/// fewer than 25 fields are skipped; the first kept record that is not well
/// formed aborts the parse with its index.
pub fn parse_gatya_events(data: String) -> (r: Result<Vec<GatyaEvent>, GatyaParseError>)
    ensures
        ({
            let recs = csv_records_of(data@, TAB);
            &&& (r matches Ok(es) ==> {
                &&& events_of_records(es@, recs)
                &&& forall|j: int| 0 <= j < recs.len() && (#[trigger] recs[j]).len() >= 25
                    ==> event_record_wf(recs[j])
            })
            &&& (r matches Err(e) ==> {
                &&& (e.record_index as int) < recs.len()
                &&& recs[e.record_index as int].len() >= 25
                &&& !event_record_wf(recs[e.record_index as int])
                &&& forall|j: int| 0 <= j < e.record_index as int
                    && (#[trigger] recs[j]).len() >= 25 ==> event_record_wf(recs[j])
            })
        }),
{
    let records = csv_records(data.as_str(), TAB);
    let ghost recs = csv_records_of(data@, TAB);
    proof {
        assert forall|p: int| 0 <= p < records@.len()
            implies recs[p] == records@[p].deep_view() by {}
    }
    let mut events: Vec<GatyaEvent> = Vec::new();
    let mut i: usize = 0;
    while i < records.len()
        invariant
            recs == csv_records_of(data@, TAB),
            records.deep_view() == recs,
            recs.len() == records@.len(),
            forall|p: int| 0 <= p < records@.len() ==> recs[p] == (#[trigger] records@[p]).deep_view(),
            0 <= i <= records@.len(),
            events_match_upto(events@, recs, i as int),
            forall|j: int| 0 <= j < i && (#[trigger] recs[j]).len() >= 25
                ==> event_record_wf(recs[j]),
        decreases records@.len() - i,
    {
        let rec = &records[i];
        proof {
            assert(recs[i as int] == records@[i as int].deep_view());
            assert(rec@.len() == recs[i as int].len());
        }
        if rec.len() < 25 {
            proof {
                assert(events_match_upto(events@, recs, i as int + 1));
            }
            i += 1;
            continue;
        }
        if !event_record_ok(rec) {
            proof {
                assert(rec.deep_view() == recs[i as int]);
                assert(!event_record_wf(recs[i as int]));
                assert(recs[i as int].len() >= 25);
            }
            return Err(GatyaParseError { record_index: i });
        }
        let e = parse_gatya_event(i as i32, rec);
        proof {
            assert(events@.push(e).drop_last() =~= events@);
            assert(events@.push(e).last() == e);
        }
        events.push(e);
        i += 1;
    }
    Ok(events)
}

/// The events that describe a selectable banner: those with a non-empty
/// banner label, in order.
pub open spec fn spec_valid_events(es: Seq<GatyaEvent>) -> Seq<GatyaEvent>
    decreases es.len(),
{
    if es.len() == 0 {
        Seq::empty()
    } else {
        let pre = spec_valid_events(es.drop_last());
        if es.last().banner_txt@.len() > 0 {
            pre.push(es.last())
        } else {
            pre
        }
    }
}

/// Keep the events with a non-empty banner label, in order: the ones a
/// front end offers for selection.
pub fn filter_valid_events(events: &Vec<GatyaEvent>) -> (r: Vec<GatyaEvent>)
    ensures
        r@ == spec_valid_events(events@),
{
    let mut out: Vec<GatyaEvent> = Vec::new();
    let mut i: usize = 0;
    while i < events.len()
        invariant
            0 <= i <= events@.len(),
            out@ == spec_valid_events(events@.take(i as int)),
        decreases events@.len() - i,
    {
        proof {
            assert(events@.take(i as int + 1).drop_last() =~= events@.take(i as int));
            assert(events@.take(i as int + 1).last() == events@[i as int]);
        }
        if !events[i].banner_txt.as_str().is_empty() {
            out.push(events[i].clone());
        }
        i += 1;
    }
    proof {
        assert(events@.take(events@.len() as int) =~= events@);
    }
    out
}

/// The position of the first event whose identity field reads as
/// `gatya_id`, scanning from `i`; negative when there is none.
pub open spec fn first_event_with_id(events: Seq<GatyaEvent>, gatya_id: i32, i: int) -> int
    decreases events.len() - i,
{
    if i < 0 || i >= events.len() {
        -1
    } else if is_i32_literal(events[i].gatya_id@)
        && int_literal_value(events[i].gatya_id@) == gatya_id {
        i
    } else {
        first_event_with_id(events, gatya_id, i + 1)
    }
}

/// Find the first banner whose identity field reads as `gatya_id`.
pub fn get_gatya_event(data: &Vec<GatyaEvent>, gatya_id: i32) -> (r: Option<GatyaEvent>)
    requires
        forall|i: int| 0 <= i < data@.len() ==> is_i32_literal((#[trigger] data@[i]).gatya_id@),
    ensures
        first_event_with_id(data@, gatya_id, 0) >= 0
            ==> r == Some(data@[first_event_with_id(data@, gatya_id, 0)]),
        first_event_with_id(data@, gatya_id, 0) < 0 ==> r is None,
{
    let mut i: usize = 0;
    while i < data.len()
        invariant
            0 <= i <= data@.len(),
            forall|k: int| 0 <= k < data@.len()
                ==> is_i32_literal((#[trigger] data@[k]).gatya_id@),
            first_event_with_id(data@, gatya_id, 0) == first_event_with_id(
                data@, gatya_id, i as int),
        decreases data@.len() - i,
    {
        let id = parse_i32(data[i].gatya_id.as_str()).unwrap();
        if id == gatya_id {
            return Some(data[i].clone());
        }
        i += 1;
    }
    None
}

/// The position of the first event whose record index is `index`, scanning
/// from `i`; negative when there is none.
pub open spec fn first_event_with_index(events: Seq<GatyaEvent>, index: u32, i: int) -> int
    decreases events.len() - i,
{
    if i < 0 || i >= events.len() {
        -1
    } else if events[i].index == index {
        i
    } else {
        first_event_with_index(events, index, i + 1)
    }
}

/// Find the first banner carrying the given record index.
pub fn get_gatya_event_from_index(data: &Vec<GatyaEvent>, index: u32) -> (r: Option<GatyaEvent>)
    ensures
        first_event_with_index(data@, index, 0) >= 0
            ==> r == Some(data@[first_event_with_index(data@, index, 0)]),
        first_event_with_index(data@, index, 0) < 0 ==> r is None,
{
    let mut i: usize = 0;
    while i < data.len()
        invariant
            0 <= i <= data@.len(),
            first_event_with_index(data@, index, 0) == first_event_with_index(
                data@, index, i as int),
        decreases data@.len() - i,
    {
        if data[i].index == index {
            return Some(data[i].clone());
        }
        i += 1;
    }
    None
}

/// The integers read from the first `k` fields of a record, in order:
/// fields that do not read as a 32-bit integer are skipped.
pub open spec fn int_row_upto(row: Seq<i32>, rec: Seq<Seq<char>>, k: int) -> bool
    decreases k,
{
    if k <= 0 {
        row.len() == 0
    } else if is_i32_literal(rec[k - 1]) {
        &&& row.len() >= 1
        &&& row.last() == int_literal_value(rec[k - 1]) as i32
        &&& int_row_upto(row.drop_last(), rec, k - 1)
    } else {
        int_row_upto(row, rec, k - 1)
    }
}

/// The position of the first field reading as -1, the roster table's stop
/// marker, from `k` on; the record length when there is none.
pub open spec fn row_stop_from(rec: Seq<Seq<char>>, k: int) -> int
    decreases rec.len() - k,
{
    if k < 0 || k >= rec.len() {
        rec.len() as int
    } else if is_i32_literal(rec[k]) && int_literal_value(rec[k]) == -1 {
        k
    } else {
        row_stop_from(rec, k + 1)
    }
}

/// Read the integer fields of one record up to its stop marker.
fn parse_cat_row(rec: &Vec<String>) -> (row: Vec<i32>)
    ensures
        int_row_upto(row@, rec.deep_view(), row_stop_from(rec.deep_view(), 0)),
{
    proof {
        assert forall|p: int| 0 <= p < rec@.len()
            implies rec.deep_view()[p] == rec@[p]@ by {}
    }
    let ghost dv = rec.deep_view();
    let mut row: Vec<i32> = Vec::new();
    let mut k: usize = 0;
    while k < rec.len()
        invariant
            dv == rec.deep_view(),
            dv.len() == rec@.len(),
            forall|p: int| 0 <= p < rec@.len() ==> dv[p] == (#[trigger] rec@[p])@,
            0 <= k <= rec@.len(),
            row_stop_from(dv, 0) == row_stop_from(dv, k as int),
            int_row_upto(row@, dv, k as int),
        decreases rec@.len() - k,
    {
        match parse_i32(rec[k].as_str()) {
            None => {},
            Some(v) => {
                if v == -1 {
                    proof {
                        assert(row_stop_from(dv, k as int) == k as int);
                    }
                    return row;
                }
                proof {
                    assert(row@.push(v).drop_last() =~= row@);
                }
                row.push(v);
            },
        }
        k += 1;
    }
    row
}

/// Read all integer fields of one record, skipping unreadable ones.
fn parse_int_row(rec: &Vec<String>) -> (row: Vec<i32>)
    ensures
        int_row_upto(row@, rec.deep_view(), rec.deep_view().len() as int),
{
    proof {
        assert forall|p: int| 0 <= p < rec@.len()
            implies rec.deep_view()[p] == rec@[p]@ by {}
    }
    let ghost dv = rec.deep_view();
    let mut row: Vec<i32> = Vec::new();
    let mut k: usize = 0;
    while k < rec.len()
        invariant
            dv == rec.deep_view(),
            dv.len() == rec@.len(),
            forall|p: int| 0 <= p < rec@.len() ==> dv[p] == (#[trigger] rec@[p])@,
            0 <= k <= rec@.len(),
            int_row_upto(row@, dv, k as int),
        decreases rec@.len() - k,
    {
        match parse_i32(rec[k].as_str()) {
            None => {},
            Some(v) => {
                proof {
                    assert(row@.push(v).drop_last() =~= row@);
                }
                row.push(v);
            },
        }
        k += 1;
    }
    row
}

/// Parse the comma-separated banner roster table: one row of cat identities
/// per banner, each row read up to its -1 stop marker, unreadable fields
/// skipped.
pub fn parse_gatya_cat_data(data: String) -> (r: Vec<Vec<i32>>)
    ensures
        ({
            let recs = csv_records_of(data@, COMMA);
            &&& r@.len() == recs.len()
            &&& forall|i: int| 0 <= i < recs.len() ==> int_row_upto(
                (#[trigger] r@[i])@, recs[i], row_stop_from(recs[i], 0))
        }),
{
    let records = csv_records(data.as_str(), COMMA);
    let ghost recs = csv_records_of(data@, COMMA);
    proof {
        assert forall|p: int| 0 <= p < records@.len()
            implies recs[p] == records@[p].deep_view() by {}
    }
    let mut out: Vec<Vec<i32>> = Vec::new();
    let mut i: usize = 0;
    while i < records.len()
        invariant
            records.deep_view() == recs,
            recs.len() == records@.len(),
            forall|p: int| 0 <= p < records@.len()
                ==> recs[p] == (#[trigger] records@[p]).deep_view(),
            0 <= i <= records@.len(),
            out@.len() == i,
            forall|j: int| 0 <= j < i ==> int_row_upto(
                (#[trigger] out@[j])@, recs[j], row_stop_from(recs[j], 0)),
        decreases records@.len() - i,
    {
        let row = parse_cat_row(&records[i]);
        out.push(row);
        i += 1;
    }
    out
}

/// Parse the comma-separated unit table: all integer fields of every
/// record, unreadable fields skipped.
pub fn parse_unitbuy_cat_data(data: String) -> (r: Vec<Vec<i32>>)
    ensures
        ({
            let recs = csv_records_of(data@, COMMA);
            &&& r@.len() == recs.len()
            &&& forall|i: int| 0 <= i < recs.len() ==> int_row_upto(
                (#[trigger] r@[i])@, recs[i], recs[i].len() as int)
        }),
{
    let records = csv_records(data.as_str(), COMMA);
    let ghost recs = csv_records_of(data@, COMMA);
    proof {
        assert forall|p: int| 0 <= p < records@.len()
            implies recs[p] == records@[p].deep_view() by {}
    }
    let mut out: Vec<Vec<i32>> = Vec::new();
    let mut i: usize = 0;
    while i < records.len()
        invariant
            records.deep_view() == recs,
            recs.len() == records@.len(),
            forall|p: int| 0 <= p < records@.len()
                ==> recs[p] == (#[trigger] records@[p]).deep_view(),
            0 <= i <= records@.len(),
            out@.len() == i,
            forall|j: int| 0 <= j < i ==> int_row_upto(
                (#[trigger] out@[j])@, recs[j], recs[j].len() as int),
        decreases records@.len() - i,
    {
        let row = parse_int_row(&records[i]);
        out.push(row);
        i += 1;
    }
    out
}

/// The cats of `row` whose unit-table rarity code equals `code`, in row
/// order.
pub open spec fn spec_rarity_bucket(row: Seq<i32>, units: Seq<Vec<i32>>, code: int) -> Seq<i32>
    decreases row.len(),
{
    if row.len() == 0 {
        Seq::empty()
    } else {
        let pre = spec_rarity_bucket(row.drop_last(), units, code);
        if units[row.last() as int]@[13] == code {
            pre.push(row.last())
        } else {
            pre
        }
    }
}

/// Sort one banner's cat identities into the four per-tier rosters, by the
/// rarity code column of the unit table: codes 2 to 5 are the Rare to
/// LegendRare tiers, other codes are dropped.
pub fn get_gatya_slot_data(
    gatya_id: i32,
    gatya_cat_data: Vec<Vec<i32>>,
    unit_buy_cat_data: Vec<Vec<i32>>,
) -> (r: Vec<Vec<i32>>)
    requires
        0 <= gatya_id < gatya_cat_data@.len(),
        forall|k: int| 0 <= k < gatya_cat_data@[gatya_id as int]@.len() ==> {
            let c = #[trigger] gatya_cat_data@[gatya_id as int]@[k];
            0 <= c < unit_buy_cat_data@.len() && unit_buy_cat_data@[c as int]@.len() > 13
        },
    ensures
        r@.len() == 4,
        forall|t: int| 0 <= t < 4 ==> (#[trigger] r@[t])@ == spec_rarity_bucket(
            gatya_cat_data@[gatya_id as int]@, unit_buy_cat_data@, t + 2),
{
    let row = &gatya_cat_data[gatya_id as usize];
    let ghost rowv = gatya_cat_data@[gatya_id as int]@;
    let mut rares: Vec<i32> = Vec::new();
    let mut super_rares: Vec<i32> = Vec::new();
    let mut uber_rares: Vec<i32> = Vec::new();
    let mut legend_rares: Vec<i32> = Vec::new();
    let mut k: usize = 0;
    while k < row.len()
        invariant
            rowv == gatya_cat_data@[gatya_id as int]@,
            0 <= gatya_id < gatya_cat_data@.len(),
            row@ == rowv,
            0 <= k <= rowv.len(),
            forall|j: int| 0 <= j < rowv.len() ==> {
                let c = #[trigger] rowv[j];
                0 <= c < unit_buy_cat_data@.len() && unit_buy_cat_data@[c as int]@.len() > 13
            },
            rares@ == spec_rarity_bucket(rowv.take(k as int), unit_buy_cat_data@, 2),
            super_rares@ == spec_rarity_bucket(rowv.take(k as int), unit_buy_cat_data@, 3),
            uber_rares@ == spec_rarity_bucket(rowv.take(k as int), unit_buy_cat_data@, 4),
            legend_rares@ == spec_rarity_bucket(rowv.take(k as int), unit_buy_cat_data@, 5),
        decreases rowv.len() - k,
    {
        let cat_id = row[k];
        let rarity = unit_buy_cat_data[cat_id as usize][13];
        proof {
            assert(rowv.take(k as int + 1).drop_last() =~= rowv.take(k as int));
            assert(rowv.take(k as int + 1).last() == rowv[k as int]);
        }
        if rarity == 2 {
            rares.push(cat_id);
        } else if rarity == 3 {
            super_rares.push(cat_id);
        } else if rarity == 4 {
            uber_rares.push(cat_id);
        } else if rarity == 5 {
            legend_rares.push(cat_id);
        }
        k += 1;
    }
    proof {
        assert(rowv.take(rowv.len() as int) =~= rowv);
    }
    let mut r: Vec<Vec<i32>> = Vec::new();
    r.push(rares);
    r.push(super_rares);
    r.push(uber_rares);
    r.push(legend_rares);
    r
}

/// The probability boundaries a banner row yields: its three upper-tier
/// percentage fields read as 32-bit integers and turned into boundaries;
/// `None` when a field is unreadable or the weights cannot form strictly
/// increasing boundaries.
pub open spec fn spec_event_thresholds(e: GatyaEvent) -> Option<
    crate::model::ProbabilityThresholds,
> {
    if is_u32_literal(e.super_rare_chance@) && is_u32_literal(e.uber_rare_chance@)
        && is_u32_literal(e.legend_rare_chance@) {
        crate::model::spec_thresholds_from_rates(
            int_literal_value(e.super_rare_chance@) as u32,
            int_literal_value(e.uber_rare_chance@) as u32,
            int_literal_value(e.legend_rare_chance@) as u32,
        )
    } else {
        None
    }
}

/// Derive a banner's probability boundaries from its percentage fields.
pub fn thresholds_from_event(e: &GatyaEvent) -> (r: Option<crate::model::ProbabilityThresholds>)
    ensures
        r == spec_event_thresholds(*e),
        r matches Some(t) ==> t.wf(),
{
    let super_rare = match parse_u32(e.super_rare_chance.as_str()) {
        Some(v) => v,
        None => {
            return None;
        },
    };
    let uber = match parse_u32(e.uber_rare_chance.as_str()) {
        Some(v) => v,
        None => {
            return None;
        },
    };
    let legend = match parse_u32(e.legend_rare_chance.as_str()) {
        Some(v) => v,
        None => {
            return None;
        },
    };
    crate::model::thresholds_from_rates(super_rare, uber, legend)
}

/// Read the four per-tier roster sizes off the slot data: the matcher's
/// slot rolls run modulo these counts.
pub fn tier_sizes_from_slot_data(gatya_slot_data: &Vec<Vec<i32>>) -> (r: crate::model::TierSizes)
    requires
        gatya_slot_data@.len() == 4,
        forall|i: int| 0 <= i < gatya_slot_data@.len()
            ==> (#[trigger] gatya_slot_data@[i])@.len() <= u32::MAX,
    ensures
        r.rare == gatya_slot_data@[0]@.len(),
        r.super_rare == gatya_slot_data@[1]@.len(),
        r.uber_rare == gatya_slot_data@[2]@.len(),
        r.legend_rare == gatya_slot_data@[3]@.len(),
{
    crate::model::TierSizes {
        rare: gatya_slot_data[0].len() as u32,
        super_rare: gatya_slot_data[1].len() as u32,
        uber_rare: gatya_slot_data[2].len() as u32,
        legend_rare: gatya_slot_data[3].len() as u32,
    }
}

/// The first position of `cat_id` in one roster row, from `j` on; negative
/// when absent.
pub open spec fn first_slot_in_row(row: Seq<i32>, cat_id: i32, j: int) -> int
    decreases row.len() - j,
{
    if j < 0 || j >= row.len() {
        -1
    } else if row[j] == cat_id {
        j
    } else {
        first_slot_in_row(row, cat_id, j + 1)
    }
}

/// The first (tier row, slot) holding `cat_id`, scanning rows from `i` in
/// row-major order.
pub open spec fn spec_slot_lookup(data: Seq<Vec<i32>>, cat_id: i32, i: int) -> Option<(int, int)>
    decreases data.len() - i,
{
    if i < 0 || i >= data.len() {
        None
    } else if first_slot_in_row(data[i]@, cat_id, 0) >= 0 {
        Some((i, first_slot_in_row(data[i]@, cat_id, 0)))
    } else {
        spec_slot_lookup(data, cat_id, i + 1)
    }
}

/// Find the rarity row and slot of a cat identity in the per-tier slot
/// data, in row-major order.
pub fn get_slot_from_id(gatya_slot_data: &Vec<Vec<i32>>, cat_id: i32) -> (r: Option<(i32, i32)>)
    requires
        gatya_slot_data@.len() <= i32::MAX,
        forall|i: int| 0 <= i < gatya_slot_data@.len()
            ==> (#[trigger] gatya_slot_data@[i])@.len() <= i32::MAX,
    ensures
        ({
            let l = spec_slot_lookup(gatya_slot_data@, cat_id, 0);
            &&& (l matches Some(p) ==> {
                &&& 0 <= p.0 < gatya_slot_data@.len()
                &&& 0 <= p.1 < gatya_slot_data@[p.0]@.len()
                &&& r == Some((p.0 as i32, p.1 as i32))
            })
            &&& (l is None ==> r is None)
        }),
{
    let mut i: usize = 0;
    while i < gatya_slot_data.len()
        invariant
            gatya_slot_data@.len() <= i32::MAX,
            forall|p: int| 0 <= p < gatya_slot_data@.len()
                ==> (#[trigger] gatya_slot_data@[p])@.len() <= i32::MAX,
            0 <= i <= gatya_slot_data@.len(),
            spec_slot_lookup(gatya_slot_data@, cat_id, 0) == spec_slot_lookup(
                gatya_slot_data@, cat_id, i as int),
        decreases gatya_slot_data@.len() - i,
    {
        let row = &gatya_slot_data[i];
        let mut j: usize = 0;
        while j < row.len()
            invariant
                gatya_slot_data@.len() <= i32::MAX,
                row@.len() <= i32::MAX,
                spec_slot_lookup(gatya_slot_data@, cat_id, 0) == spec_slot_lookup(
                    gatya_slot_data@, cat_id, i as int),
                row@ == gatya_slot_data@[i as int]@,
                i < gatya_slot_data@.len(),
                0 <= j <= row@.len(),
                first_slot_in_row(row@, cat_id, 0) == first_slot_in_row(row@, cat_id, j as int),
            decreases row@.len() - j,
        {
            if row[j] == cat_id {
                proof {
                    assert(first_slot_in_row(row@, cat_id, j as int) == j as int);
                    assert(spec_slot_lookup(gatya_slot_data@, cat_id, i as int)
                        == Some((i as int, j as int)));
                    assert(i as int <= i32::MAX && j as int <= i32::MAX);
                }
                return Some((i as i32, j as i32));
            }
            j += 1;
        }
        i += 1;
    }
    None
}

/// The observation a user-entered cat identity stands for: the blank
/// sentinel is a Blank draw; any other identity must be found in the
/// four-tier slot data, giving its tier and slot.
pub open spec fn spec_observation_for_id(data: Seq<Vec<i32>>, id: i32) -> Option<SlotObservation> {
    if id == BLANK_SLOT_USER {
        Some(SlotObservation { tier: RarityTier::Blank, slot: None })
    } else {
        match spec_slot_lookup(data, id, 0) {
            Some(p) => Some(SlotObservation {
                tier: crate::model::spec_tier_from_row(p.0),
                slot: Some(p.1 as u32),
            }),
            None => None,
        }
    }
}

/// Turn user-entered cat identities into concrete observations against the
/// four-tier slot data. `None` as soon as an identity is neither the blank
/// sentinel nor present in any tier's roster.
pub fn get_cat_list_from_ids(
    gatya_slot_data: &Vec<Vec<i32>>,
    cat_ids: &Vec<i32>,
) -> (r: Option<Vec<SlotObservation>>)
    requires
        gatya_slot_data@.len() == 4,
        forall|i: int| 0 <= i < gatya_slot_data@.len()
            ==> (#[trigger] gatya_slot_data@[i])@.len() <= i32::MAX,
    ensures
        r is Some <==> (forall|k: int| 0 <= k < cat_ids@.len()
            ==> spec_observation_for_id(gatya_slot_data@, #[trigger] cat_ids@[k]) is Some),
        r matches Some(v) ==> {
            &&& v@.len() == cat_ids@.len()
            &&& forall|k: int| 0 <= k < cat_ids@.len() ==> Some(#[trigger] v@[k])
                == spec_observation_for_id(gatya_slot_data@, cat_ids@[k])
        },
{
    let mut out: Vec<SlotObservation> = Vec::new();
    let mut k: usize = 0;
    while k < cat_ids.len()
        invariant
            gatya_slot_data@.len() == 4,
            forall|i: int| 0 <= i < gatya_slot_data@.len()
                ==> (#[trigger] gatya_slot_data@[i])@.len() <= i32::MAX,
            0 <= k <= cat_ids@.len(),
            out@.len() == k,
            forall|j: int| 0 <= j < k
                ==> spec_observation_for_id(gatya_slot_data@, #[trigger] cat_ids@[j]) is Some,
            forall|j: int| 0 <= j < k ==> Some(#[trigger] out@[j])
                == spec_observation_for_id(gatya_slot_data@, cat_ids@[j]),
        decreases cat_ids@.len() - k,
    {
        let id = cat_ids[k];
        if id == BLANK_SLOT_USER {
            out.push(SlotObservation { tier: RarityTier::Blank, slot: None });
        } else {
            match get_slot_from_id(gatya_slot_data, id) {
                None => {
                    proof {
                        assert(spec_observation_for_id(gatya_slot_data@, cat_ids@[k as int])
                            is None);
                    }
                    return None;
                },
                Some((row, slot)) => {
                    let tier = if row == 0 {
                        RarityTier::Rare
                    } else if row == 1 {
                        RarityTier::SuperRare
                    } else if row == 2 {
                        RarityTier::UberRare
                    } else {
                        RarityTier::LegendRare
                    };
                    out.push(SlotObservation { tier, slot: Some(slot as u32) });
                },
            }
        }
        k += 1;
    }
    Some(out)
}

} // verus!
