use railway::{
    BookingStatus, CoachCategory, CreatePassenger, EngineError, GroupBookingRequest, Ledger, PaymentMode, Tier,
};

const LABELS: [&str; 7] = ["2S", "AC1", "AC2", "AC3", "CC", "FC", "SL"];

fn passenger(name: &str) -> CreatePassenger {
    CreatePassenger { name: name.to_string(), age: 30, sex: "F".to_string(), disability: false }
}

fn group(journey_id: i64, names: &[&str], category: &str) -> GroupBookingRequest {
    GroupBookingRequest {
        group_size: names.len() as i32,
        passengers: names.iter().map(|n| passenger(n)).collect(),
        journey_id,
        train_id: 12951,
        start_station_id: 1,
        end_station_id: 3,
        mode: PaymentMode::UPI,
        txn_id: 77,
        email: "a@example.com".to_string(),
        reservation_category: category.to_string(),
    }
}

#[test]
fn seat_counts_of_empty_journey() {
    let ledger = Ledger::new();
    let rows = ledger.seat_counts(5, Tier::CNF);
    assert_eq!(rows.len(), 7);
    for (row, label) in rows.iter().zip(LABELS.iter()) {
        assert_eq!(row.reservation_category, *label);
        assert_eq!(row.seat_count, 0);
    }
}

#[test]
fn seat_counts_follow_category_tier_and_journey() {
    let mut ledger = Ledger::new();
    ledger.create_group_booking(&group(5, &["A", "B"], "SL"), Tier::CNF, 50000, 1000).unwrap();
    ledger.create_group_booking(&group(5, &["C"], "AC2"), Tier::CNF, 90000, 1000).unwrap();
    ledger.create_group_booking(&group(5, &["D"], "SL"), Tier::WL, 50000, 1000).unwrap();
    ledger.create_group_booking(&group(6, &["E"], "SL"), Tier::CNF, 50000, 1000).unwrap();
    let rows = ledger.seat_counts(5, Tier::CNF);
    let counts: Vec<usize> = rows.iter().map(|r| r.seat_count).collect();
    assert_eq!(counts, vec![0, 0, 1, 0, 0, 0, 2]);
    assert_eq!(counts.iter().sum::<usize>(), 3);
    let wl: Vec<usize> = ledger.seat_counts(5, Tier::WL).iter().map(|r| r.seat_count).collect();
    assert_eq!(wl, vec![0, 0, 0, 0, 0, 0, 1]);
    let rac: Vec<usize> = ledger.seat_counts(5, Tier::RAC).iter().map(|r| r.seat_count).collect();
    assert_eq!(rac, vec![0; 7]);
}

#[test]
fn cancelled_bookings_leave_the_counts() {
    let mut ledger = Ledger::new();
    ledger.create_group_booking(&group(5, &["A", "B"], "SL"), Tier::CNF, 50000, 1000).unwrap();
    let first = ledger.bookings()[0].booking_id;
    ledger.cancel_booking(first, 50000, 77, 2000).unwrap();
    let rows = ledger.seat_counts(5, Tier::CNF);
    assert_eq!(rows[6].seat_count, 1);
}

#[test]
fn group_booking_creates_one_record_per_passenger() {
    let mut ledger = Ledger::new();
    let pnrs = ledger.create_group_booking(&group(5, &["A", "B", "C"], "CC"), Tier::RAC, 40000, 1234).unwrap();
    assert_eq!(pnrs, vec![1, 2, 3]);
    assert_eq!(ledger.bookings().len(), 3);
    assert_eq!(ledger.passengers().len(), 3);
    assert_eq!(ledger.passengers()[1].name, "B");
    assert_eq!(ledger.passengers()[1].pnr, 2);
    for (b, pnr) in ledger.bookings().iter().zip(pnrs.iter()) {
        assert_eq!(b.pnr, *pnr);
        assert_eq!(b.txn_id, 77);
        assert_eq!(b.booking_status, BookingStatus::PND);
        assert_eq!(b.price, 40000);
        assert_eq!(b.booking_time, 1234);
    }
    for r in ledger.reservations() {
        assert_eq!(r.reservation_category, CoachCategory::CC);
        assert_eq!(r.reservation_status, Tier::RAC);
    }
}

#[test]
fn group_booking_rejects_bad_requests_whole() {
    let mut ledger = Ledger::new();
    let mut req = group(5, &["A", "B"], "SL");
    req.group_size = 3;
    assert_eq!(ledger.create_group_booking(&req, Tier::CNF, 100, 1), Err(EngineError::InvalidArgument));
    let req = group(5, &["A"], "XL");
    assert_eq!(ledger.create_group_booking(&req, Tier::CNF, 100, 1), Err(EngineError::InvalidArgument));
    let req = group(0, &["A"], "SL");
    assert_eq!(ledger.create_group_booking(&req, Tier::CNF, 100, 1), Err(EngineError::InvalidArgument));
    let req = group(5, &[], "SL");
    assert_eq!(ledger.create_group_booking(&req, Tier::CNF, 100, 1), Err(EngineError::InvalidArgument));
    assert!(ledger.bookings().is_empty());
    assert!(ledger.passengers().is_empty());
    assert!(ledger.reservations().is_empty());
}

#[test]
fn cancel_booking_scenario() {
    let mut ledger = Ledger::new();
    ledger.create_group_booking(&group(5, &["A"], "SL"), Tier::CNF, 50000, 1000).unwrap();
    let b = ledger.bookings()[0].booking_id;
    // A refund of 100.00 in paise.
    let cid = ledger.cancel_booking(b, 10000, 77, 2000).unwrap();
    assert_eq!(ledger.bookings()[0].booking_status, BookingStatus::CNC);
    assert_eq!(ledger.cancellations().len(), 1);
    let rec = &ledger.cancellations()[0];
    assert_eq!(rec.cid, cid);
    assert_eq!(rec.booking_id, b);
    assert_eq!(rec.refund_amount, 10000);
    assert_eq!(rec.cancel_time, 2000);
    assert_eq!(rec.status.to_string(), "Cancelled");
}

#[test]
fn failed_cancellation_changes_nothing() {
    let mut ledger = Ledger::new();
    ledger.create_group_booking(&group(5, &["A"], "SL"), Tier::CNF, 50000, 1000).unwrap();
    let b = ledger.bookings()[0].booking_id;
    assert_eq!(ledger.cancel_booking(b, -1, 77, 2000), Err(EngineError::InvalidArgument));
    assert_eq!(ledger.bookings()[0].booking_status, BookingStatus::PND);
    assert!(ledger.cancellations().is_empty());
}

#[test]
fn cancel_unknown_booking_is_not_found() {
    let mut ledger = Ledger::new();
    ledger.create_group_booking(&group(5, &["A"], "SL"), Tier::CNF, 50000, 1000).unwrap();
    assert_eq!(ledger.cancel_booking(999, 10000, 77, 2000), Err(EngineError::NotFound));
    assert!(ledger.cancellations().is_empty());
    assert_eq!(ledger.bookings()[0].booking_status, BookingStatus::PND);
}

#[test]
fn cancel_now_stamps_the_current_time() {
    let mut ledger = Ledger::new();
    ledger.create_group_booking(&group(5, &["A"], "SL"), Tier::CNF, 50000, 1000).unwrap();
    let b = ledger.bookings()[0].booking_id;
    ledger.cancel_booking_now(b, 0, 77).unwrap();
    // 2020-09-13, well before any run of this test.
    assert!(ledger.cancellations()[0].cancel_time > 1_600_000_000);
    assert_eq!(ledger.cancel_booking_now(b + 1, 0, 77), Err(EngineError::NotFound));
}
