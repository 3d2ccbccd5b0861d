use fee_insights::codec::{
    decode_point, encode_point, encode_snapshot, format_fee, format_timestamp, parse_fee,
    parse_timestamp,
};
use fee_insights::{FeeDataPoint, FeeSnapshot, UtcTime};

fn instant() -> UtcTime {
    UtcTime { year: 2024, month: 1, day: 2, hour: 3, minute: 4, second: 5 }
}

#[test]
fn timestamp_formats_as_iso8601() {
    assert_eq!(format_timestamp(&instant()), "2024-01-02T03:04:05Z");
    let end_of_year = UtcTime { year: 999, month: 12, day: 31, hour: 23, minute: 59, second: 59 };
    assert_eq!(format_timestamp(&end_of_year), "0999-12-31T23:59:59Z");
}

#[test]
fn timestamp_round_trips_to_the_second() {
    let t = instant();
    let text = format_timestamp(&t);
    assert_eq!(parse_timestamp(&text), Some(t));
}

#[test]
fn parse_rejects_malformed_texts() {
    assert_eq!(parse_timestamp(""), None);
    assert_eq!(parse_timestamp("2024-01-02"), None);
    assert_eq!(parse_timestamp("2024-01-02 03:04:05Z"), None);
    assert_eq!(parse_timestamp("2024-13-02T03:04:05Z"), None);
    assert_eq!(parse_timestamp("2024-00-02T03:04:05Z"), None);
    assert_eq!(parse_timestamp("2024-01-32T03:04:05Z"), None);
    assert_eq!(parse_timestamp("2024-01-02T24:04:05Z"), None);
    assert_eq!(parse_timestamp("2024-01-02T03:60:05Z"), None);
    assert_eq!(parse_timestamp("2024-01-02T03:04:60Z"), None);
    assert_eq!(parse_timestamp("2024-01-02T03:04:0xZ"), None);
    assert_eq!(parse_timestamp("x024-01-02T03:04:05Z"), None);
    assert_eq!(parse_timestamp("2024-01-02T03:04:05Zx"), None);
}

#[test]
fn parse_accepts_exact_rendering_only() {
    assert_eq!(
        parse_timestamp("2024-01-02T03:04:05Z"),
        Some(instant())
    );
}

#[test]
fn point_round_trips_through_its_persisted_row() {
    let p = FeeDataPoint {
        fee_amount: 4500,
        timestamp: instant(),
        transaction_hash: "abc123def".to_string(),
        ledger_sequence: 987654,
    };
    let row = encode_point(&p);
    assert_eq!(row.fee_amount, 4500);
    assert_eq!(row.timestamp, "2024-01-02T03:04:05Z");
    assert_eq!(row.transaction_hash, "abc123def");
    assert_eq!(row.ledger_sequence, 987654);

    let back = decode_point(&row).unwrap();
    assert_eq!(back.fee_amount, p.fee_amount);
    assert_eq!(back.timestamp, p.timestamp);
    assert_eq!(back.transaction_hash, p.transaction_hash);
    assert_eq!(back.ledger_sequence, p.ledger_sequence);
}

#[test]
fn snapshot_row_keeps_exact_magnitudes() {
    let snap = FeeSnapshot {
        base_fee: 100,
        min_fee: 150,
        max_fee: 500,
        avg_fee: 283,
        captured_at: instant(),
    };
    let row = encode_snapshot(&snap);
    assert_eq!(row.base_fee, "100");
    assert_eq!(row.min_fee, "150");
    assert_eq!(row.max_fee, "500");
    assert_eq!(row.avg_fee, "283");
    assert_eq!(row.captured_at, "2024-01-02T03:04:05Z");
}

#[test]
fn fee_text_round_trips_across_the_whole_range() {
    for &n in &[0u64, 1, 9, 10, 99, 100, 283, 4500, 1_000_000_007, u64::MAX] {
        let text = format_fee(n);
        assert_eq!(text, n.to_string());
        assert_eq!(parse_fee(&text), Some(n));
    }
}

#[test]
fn parse_fee_rejects_non_canonical_texts() {
    assert_eq!(parse_fee(""), None);
    assert_eq!(parse_fee("007"), None);
    assert_eq!(parse_fee("-1"), None);
    assert_eq!(parse_fee("1 2"), None);
    assert_eq!(parse_fee("12x"), None);
    // One past the largest fee: 2^64 exactly.
    assert_eq!(parse_fee("18446744073709551616"), None);
    assert_eq!(parse_fee("18446744073709551615"), Some(u64::MAX));
}
