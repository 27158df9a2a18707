//! Tests of the bounded side-input join and its CSV side-input decoder.

use zset_store::q13::{q13, read_side_input, side_input_with_time, Bid, Event};

fn make_bid(auction: u64) -> Bid {
    Bid { auction, bidder: 1, price: 99, date_time: 0 }
}

#[test]
fn test_q13() {
    let bids = vec![
        (Event::Bid(make_bid(1005)), 1i64),
        (Event::Bid(make_bid(10005)), 1i64),
    ];
    // The side-input table maps each key below 10000 to its decimal
    // rendering, loaded before the bids are processed.
    let mut rows: Vec<(u64, String)> = Vec::new();
    for k in 0..10000u64 {
        rows.push((k, k.to_string()));
    }
    let side = side_input_with_time(rows, 10);
    let out = q13(&bids, &side, 20);
    let expected = vec![
        ((1005u64, 1u64, 99u64, 0u64, String::from("1005")), 1i64),
        ((10005u64, 1u64, 99u64, 0u64, String::from("5")), 1i64),
    ];
    assert_eq!(out, expected);
}

#[test]
fn q13_filters_late_side_rows() {
    let bids = vec![(Event::Bid(make_bid(7)), 2i64), (Event::Person, 1i64)];
    let side = vec![
        ((7u64, String::from("early"), 5u64), 3i64),
        ((7u64, String::from("late"), 50u64), 3i64),
        ((8u64, String::from("other"), 5u64), 3i64),
    ];
    let out = q13(&bids, &side, 20);
    assert_eq!(out, vec![((7u64, 1u64, 99u64, 0u64, String::from("early")), 6i64)]);
}

#[test]
fn test_read_side_input() {
    let reader = "1,five\n2,four\n3,three".as_bytes();

    let got = read_side_input(reader).unwrap();

    assert_eq!(
        vec![
            (1, String::from("five")),
            (2, String::from("four")),
            (3, String::from("three")),
        ],
        got
    );
}

#[test]
fn read_side_input_rejects_bad_rows() {
    assert_eq!(read_side_input("x,five".as_bytes()), None);
}
