//! Bounded side-input join: enrich a stream of bids with a bounded
//! side-input table keyed by `auction mod 10000`, keeping a joined row
//! only when the bid was processed no earlier than the side row was
//! loaded.

use vstd::prelude::*;

verus! {

/// An auction bid, reduced to the fields the join reads.
#[derive(Debug, Clone, Copy, PartialEq, Eq, Structural)]
pub struct Bid {
    pub auction: u64,
    pub bidder: u64,
    pub price: u64,
    pub date_time: u64,
}

/// A stream event; only bids take part in this query.
#[derive(Debug, Clone, Copy)]
pub enum Event {
    Person,
    Auction,
    Bid(Bid),
}

/// A side-input row as the query sees it: key, value and load time.
pub type SideRow = ((u64, Seq<char>, u64), i64);

/// A joined output row: auction, bidder, price, bid time and the side
/// value, with the product weight.
pub type OutRow = ((u64, u64, u64, u64, Seq<char>), i64);

/// The side-input rows reduced to their mathematical views.
pub open spec fn side_views(side: Seq<((u64, String, u64), i64)>) -> Seq<SideRow> {
    Seq::new(side.len(), |i: int| ((side[i].0.0, side[i].0.1@, side[i].0.2), side[i].1))
}

/// The output rows reduced to their mathematical views.
pub open spec fn out_views(out: Seq<((u64, u64, u64, u64, String), i64)>) -> Seq<OutRow> {
    Seq::new(
        out.len(),
        |i: int|
            ((out[i].0.0, out[i].0.1, out[i].0.2, out[i].0.3, out[i].0.4@), out[i].1),
    )
}

/// The join rows one weighted bid contributes: one row per side row whose
/// key equals the bid's auction modulo 10000 and whose load time does not
/// exceed the bid's processing time.
pub open spec fn q13_bid_rows(b: Bid, w1: i64, side: Seq<SideRow>, p: u64) -> Seq<OutRow>
    decreases side.len(),
{
    if side.len() == 0 {
        Seq::empty()
    } else {
        (if side[0].0.0 == b.auction % 10000 && p >= side[0].0.2 {
            seq![
                (
                    (b.auction, b.bidder, b.price, b.date_time, side[0].0.1),
                    (w1 * side[0].1) as i64,
                ),
            ]
        } else {
            Seq::empty()
        }) + q13_bid_rows(b, w1, side.skip(1), p)
    }
}

/// The join rows one event contributes: bids join, everything else is
/// dropped.
pub open spec fn q13_event_rows(ev: (Event, i64), side: Seq<SideRow>, p: u64) -> Seq<OutRow> {
    match ev.0 {
        Event::Bid(b) => q13_bid_rows(b, ev.1, side, p),
        _ => Seq::empty(),
    }
}

/// All join rows of a batch of events, in event order.
pub open spec fn q13_rows(bids: Seq<(Event, i64)>, side: Seq<SideRow>, p: u64) -> Seq<OutRow>
    decreases bids.len(),
{
    if bids.len() == 0 {
        Seq::empty()
    } else {
        q13_event_rows(bids[0], side, p) + q13_rows(bids.skip(1), side, p)
    }
}

proof fn lemma_bid_rows_push(b: Bid, w1: i64, side: Seq<SideRow>, row: SideRow, p: u64)
    ensures
        q13_bid_rows(b, w1, side.push(row), p) == q13_bid_rows(b, w1, side, p) + (if row.0.0
            == b.auction % 10000 && p >= row.0.2 {
            seq![((b.auction, b.bidder, b.price, b.date_time, row.0.1), (w1 * row.1) as i64)]
        } else {
            Seq::<OutRow>::empty()
        }),
    decreases side.len(),
{
    if side.len() == 0 {
        assert(side.push(row)[0] == row);
        assert(side.push(row).skip(1) =~= Seq::<SideRow>::empty());
        assert(q13_bid_rows(b, w1, Seq::<SideRow>::empty(), p) == Seq::<OutRow>::empty());
        assert(side =~= Seq::<SideRow>::empty());
        assert(q13_bid_rows(b, w1, side.push(row), p) =~~= q13_bid_rows(b, w1, side, p) + (
        if row.0.0 == b.auction % 10000 && p >= row.0.2 {
            seq![((b.auction, b.bidder, b.price, b.date_time, row.0.1), (w1 * row.1) as i64)]
        } else {
            Seq::<OutRow>::empty()
        }));
    } else {
        assert(side.push(row)[0] == side[0]);
        assert(side.push(row).skip(1) =~= side.skip(1).push(row));
        lemma_bid_rows_push(b, w1, side.skip(1), row, p);
        assert(q13_bid_rows(b, w1, side.push(row), p) =~~= q13_bid_rows(b, w1, side, p) + (
        if row.0.0 == b.auction % 10000 && p >= row.0.2 {
            seq![((b.auction, b.bidder, b.price, b.date_time, row.0.1), (w1 * row.1) as i64)]
        } else {
            Seq::<OutRow>::empty()
        }));
    }
}

proof fn lemma_rows_push(bids: Seq<(Event, i64)>, ev: (Event, i64), side: Seq<SideRow>, p: u64)
    ensures
        q13_rows(bids.push(ev), side, p) == q13_rows(bids, side, p) + q13_event_rows(
            ev,
            side,
            p,
        ),
    decreases bids.len(),
{
    if bids.len() == 0 {
        assert(bids.push(ev)[0] == ev);
        assert(bids.push(ev).skip(1) =~= Seq::<(Event, i64)>::empty());
        assert(q13_rows(Seq::<(Event, i64)>::empty(), side, p) == Seq::<OutRow>::empty());
        assert(bids =~= Seq::<(Event, i64)>::empty());
        assert(q13_rows(bids.push(ev), side, p) =~~= q13_rows(bids, side, p) + q13_event_rows(
            ev,
            side,
            p,
        ));
    } else {
        assert(bids.push(ev)[0] == bids[0]);
        assert(bids.push(ev).skip(1) =~= bids.skip(1).push(ev));
        lemma_rows_push(bids.skip(1), ev, side, p);
        assert(q13_rows(bids.push(ev), side, p) =~~= q13_rows(bids, side, p) + q13_event_rows(
            ev,
            side,
            p,
        ));
    }
}

/// Join a batch of weighted events against the side input: for each bid,
/// emit one row per side row keyed by the bid's auction modulo 10000 and
/// loaded no later than `p_time`, with the weights multiplied.
pub fn q13(
    bids: &Vec<(Event, i64)>,
    side: &Vec<((u64, String, u64), i64)>,
    p_time: u64,
) -> (out: Vec<((u64, u64, u64, u64, String), i64)>)
    requires
        forall|i: int, j: int|
            #![trigger bids@[i], side@[j]]
            0 <= i < bids@.len() && 0 <= j < side@.len() ==> i64::MIN <= bids@[i].1 * side@[j].1
                <= i64::MAX,
    ensures
        out_views(out@) == q13_rows(bids@, side_views(side@), p_time),
{
    let ghost sv = side_views(side@);
    let mut out: Vec<((u64, u64, u64, u64, String), i64)> = Vec::new();
    let n = bids.len();
    let mut i: usize = 0;
    while i < n
        invariant
            forall|a: int, c: int|
                #![trigger bids@[a], side@[c]]
                0 <= a < bids@.len() && 0 <= c < side@.len() ==> i64::MIN <= bids@[a].1
                    * side@[c].1 <= i64::MAX,
            n == bids@.len(),
            0 <= i <= n,
            sv == side_views(side@),
            out_views(out@) == q13_rows(bids@.take(i as int), sv, p_time),
        decreases n - i,
    {
        let (ev, w1) = bids[i];
        match ev {
            Event::Bid(b) => {
                let m = side.len();
                let mut j: usize = 0;
                while j < m
                    invariant
                        forall|a: int, c: int|
                            #![trigger bids@[a], side@[c]]
                            0 <= a < bids@.len() && 0 <= c < side@.len() ==> i64::MIN <= bids@[a].1
                                * side@[c].1 <= i64::MAX,
                        n == bids@.len(),
                        0 <= i < n,
                        m == side@.len(),
                        0 <= j <= m,
                        sv == side_views(side@),
                        (ev, w1) == bids@[i as int],
                        ev == (Event::Bid(b)),
                        out_views(out@) == q13_rows(bids@.take(i as int), sv, p_time)
                            + q13_bid_rows(b, w1, sv.take(j as int), p_time),
                    decreases m - j,
                {
                    let key = side[j].0.0;
                    let t = side[j].0.2;
                    let w2 = side[j].1;
                    let ghost out_pre = out@;
                    if key == b.auction % 10000 && p_time >= t {
                        assert(bids@[i as int].1 * side@[j as int].1 == w1 * w2);
                        let w = w1 * w2;
                        let v = side[j].0.1.clone();
                        out.push(((b.auction, b.bidder, b.price, b.date_time, v), w));
                    }
                    proof {
                        assert(sv.take(j + 1) =~= sv.take(j as int).push(sv[j as int]));
                        lemma_bid_rows_push(b, w1, sv.take(j as int), sv[j as int], p_time);
                        assert(sv[j as int].0.0 == side@[j as int].0.0);
                        assert(sv[j as int].0.2 == side@[j as int].0.2);
                        assert(sv[j as int].1 == side@[j as int].1);
                        if out@.len() > out_pre.len() {
                            assert(out_views(out@) =~~= out_views(out_pre).push(
                                out_views(out@).last(),
                            ));
                        } else {
                            assert(out_views(out@) =~~= out_views(out_pre));
                        }
                        assert(out_views(out@) =~~= q13_rows(bids@.take(i as int), sv, p_time)
                            + q13_bid_rows(b, w1, sv.take(j + 1), p_time));
                    }
                    j = j + 1;
                }
                proof {
                    assert(sv.take(m as int) =~= sv);
                }
            },
            _ => {
            },
        }
        proof {
            assert(bids@.take(i + 1) =~= bids@.take(i as int).push(bids@[i as int]));
            lemma_rows_push(bids@.take(i as int), bids@[i as int], sv, p_time);
            assert(out_views(out@) =~~= q13_rows(bids@.take(i + 1), sv, p_time));
        }
        i = i + 1;
    }
    proof {
        assert(bids@.take(n as int) =~= bids@);
    }
    out
}

/// The rows a headerless two-column CSV file decodes to, or nothing when
/// a row is malformed.
pub uninterp spec fn side_rows_of(data: Seq<u8>) -> Option<Seq<(u64, Seq<char>)>>;

/// Relies on csv's `ReaderBuilder`, `Reader::deserialize` and serde's
/// derived decoding of `(u64, String)`: the decoded rows of a headerless
/// CSV byte stream, a function of the bytes alone.
#[verifier::external_body]
fn parse_side_csv(data: &[u8]) -> (r: Option<Vec<(u64, String)>>)
    ensures
        (r is Some) == (side_rows_of(data@) is Some),
        r matches Some(v) ==> side_rows_of(data@) matches Some(rows) && v@.len() == rows.len()
            && (forall|i: int|
            0 <= i < rows.len() ==> v@[i].0 == rows[i].0 && v@[i].1@ == rows[i].1),
{
    let reader = csv::ReaderBuilder::new().has_headers(false).from_reader(data);
    let mut rows: Vec<(u64, String)> = Vec::new();
    for rec in reader.into_deserialize::<(u64, String)>() {
        match rec {
            Ok(row) => rows.push(row),
            Err(_) => return None,
        }
    }
    Some(rows)
}

/// Decode the side-input table from headerless CSV bytes of
/// `key,value` rows.
pub fn read_side_input(data: &[u8]) -> (r: Option<Vec<(u64, String)>>)
    ensures
        (r is Some) == (side_rows_of(data@) is Some),
        r matches Some(v) ==> side_rows_of(data@) matches Some(rows) && v@.len() == rows.len()
            && (forall|i: int|
            0 <= i < rows.len() ==> v@[i].0 == rows[i].0 && v@[i].1@ == rows[i].1),
{
    parse_side_csv(data)
}

/// Stamp freshly loaded side-input rows with their load time and unit
/// weight.
pub fn side_input_with_time(rows: Vec<(u64, String)>, p_time: u64) -> (r: Vec<
    ((u64, String, u64), i64),
>)
    ensures
        r@.len() == rows@.len(),
        forall|i: int|
            0 <= i < r@.len() ==> (#[trigger] r@[i]).0.0 == rows@[i].0 && r@[i].0.1
                == rows@[i].1 && r@[i].0.2 == p_time && r@[i].1 == 1,
{
    let mut r: Vec<((u64, String, u64), i64)> = Vec::new();
    let n = rows.len();
    let mut i: usize = 0;
    while i < n
        invariant
            n == rows@.len(),
            0 <= i <= n,
            r@.len() == i,
            forall|j: int|
                0 <= j < i ==> (#[trigger] r@[j]).0.0 == rows@[j].0 && r@[j].0.1 == rows@[j].1
                    && r@[j].0.2 == p_time && r@[j].1 == 1,
        decreases n - i,
    {
        let k = rows[i].0;
        let v = rows[i].1.clone();
        r.push(((k, v, p_time), 1));
        i = i + 1;
    }
    r
}

/// Relies on std::time's `SystemTime::now` and
/// `SystemTime::duration_since`: the wall clock in milliseconds since the
/// epoch, zero if the clock reads before the epoch.  Nothing is promised
/// of the value.
#[verifier::external_body]
pub fn process_time() -> u64 {
    match std::time::SystemTime::now().duration_since(std::time::UNIX_EPOCH) {
        Ok(d) => d.as_millis() as u64,
        Err(_) => 0,
    }
}

} // verus!
