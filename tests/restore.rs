use railway::{
    find_journeys, Booking, BookingStatus, Coach, CoachCategory, Directory, EngineError, Fleet, Ledger, Reservation,
    RouteDirectory, RouteRecord, SeatCategory, SeatRecord, SeatType, StationResponse, Stop, Tier, Timetable,
};

#[test]
fn stations_keep_their_stored_ids() {
    let mut dir = Directory::new();
    let rec = |id: i64, name: &str| StationResponse {
        station_id: id,
        station_name: Some(name.to_string()),
        station_type: Some("JN".to_string()),
    };
    assert_eq!(dir.insert_station(rec(40, "Pune")), Ok(()));
    assert_eq!(dir.insert_station(rec(40, "Again")), Err(EngineError::Conflict));
    assert_eq!(dir.insert_station(rec(0, "Zero")), Err(EngineError::InvalidArgument));
    assert_eq!(dir.station_name(40).as_deref(), Some("Pune"));
}

#[test]
fn routes_keep_their_stored_ids() {
    let mut routes = RouteDirectory::new();
    let rec = RouteRecord { route_id: 12, route_name: "North".to_string(), source_station_id: 1 };
    assert_eq!(routes.insert_route(rec.clone()), Ok(()));
    assert_eq!(routes.insert_route(rec), Err(EngineError::Conflict));
    routes.add_intermediate_station(12, 1, 0).unwrap();
    routes.add_intermediate_station(12, 2, 7000).unwrap();
    assert_eq!(routes.distance_between(12, 2, 1), Ok(7000));
    let fresh = routes
        .create_route(&railway::CreateRoute { route_name: "Next".to_string(), source_station_id: 5 })
        .unwrap();
    assert_eq!(fresh, 13);
}

#[test]
fn journeys_and_stops_keep_their_stored_ids() {
    let mut tt = Timetable::new();
    assert_eq!(tt.insert_journey(30, 9, 1, 2, 1000, 9000), Ok(()));
    assert_eq!(tt.insert_journey(30, 9, 1, 2, 1000, 9000), Err(EngineError::Conflict));
    assert_eq!(tt.insert_journey(-4, 9, 1, 2, 1000, 9000), Err(EngineError::InvalidArgument));
    let stop = |sched_id: i64, station_id: i64, at: i64| Stop {
        sched_id,
        station_id,
        sched_toa: at,
        sched_tod: at + 60,
        route_id: None,
    };
    assert_eq!(tt.append_stop(30, stop(500, 1, 1000)), Ok(()));
    assert_eq!(tt.append_stop(30, stop(501, 2, 5000)), Ok(()));
    assert_eq!(tt.append_stop(31, stop(502, 2, 5000)), Err(EngineError::NotFound));
    assert_eq!(tt.append_stop(30, stop(0, 2, 5000)), Err(EngineError::InvalidArgument));
    assert_eq!(tt.locate_stop(501), Some((30, 1)));
    let dir = Directory::new();
    let legs = find_journeys(&tt, &dir, 1, 2, 0).unwrap();
    assert_eq!(legs.len(), 1);
    assert_eq!(legs[0].travel_time, 4000);
    assert_eq!(legs[0].train_name, None);
    assert_eq!(tt.add_journey(9, 1, 2, 0, 10), Ok(31));
}

#[test]
fn bookings_keep_their_stored_ids() {
    let mut ledger = Ledger::new();
    let b = Booking {
        booking_id: 70,
        booking_time: 0,
        booking_status: BookingStatus::CNF,
        pnr: 900,
        journey_id: 4,
        start_station_id: 1,
        end_station_id: 2,
        price: 1000,
        txn_id: 3,
    };
    assert_eq!(ledger.insert_booking(b), Ok(()));
    assert_eq!(ledger.insert_booking(Booking { booking_id: 71, ..b }), Err(EngineError::Conflict));
    assert_eq!(ledger.insert_booking(Booking { pnr: 901, ..b }), Err(EngineError::Conflict));
    assert_eq!(ledger.insert_booking(Booking { booking_id: 0, pnr: 5, ..b }), Err(EngineError::InvalidArgument));
    ledger.insert_reservation(Reservation {
        pnr: 900,
        reservation_category: CoachCategory::AC3,
        reservation_status: Tier::CNF,
    });
    ledger.insert_reservation(Reservation {
        pnr: 12345,
        reservation_category: CoachCategory::AC3,
        reservation_status: Tier::CNF,
    });
    let rows = ledger.seat_counts(4, Tier::CNF);
    assert_eq!(rows[3].reservation_category, "AC3");
    assert_eq!(rows[3].seat_count, 1);
    assert_eq!(ledger.cancel_booking(70, 0, 3, 10), Ok(1));
    assert_eq!(ledger.seat_counts(4, Tier::CNF)[3].seat_count, 0);
}

#[test]
fn coaches_and_seats_keep_their_stored_ids() {
    let mut fleet = Fleet::new();
    let coach = Coach {
        coach_id: 8,
        coach_name: "B1".to_string(),
        coach_type: CoachCategory::AC3,
        fare: 150000,
        train_id: 2,
    };
    assert_eq!(fleet.insert_coach(coach.clone()), Ok(()));
    assert_eq!(fleet.insert_coach(coach), Err(EngineError::Conflict));
    let seat = SeatRecord { seat_id: 3, seat_no: 1, seat_type: SeatType::UP, coach_id: 8, seat_category: SeatCategory::RAC };
    assert_eq!(fleet.insert_seat(seat), Ok(()));
    assert_eq!(fleet.insert_seat(SeatRecord { seat_id: 0, ..seat }), Err(EngineError::InvalidArgument));
    let rac = fleet.seat_pool_counts(2, SeatCategory::RAC);
    assert_eq!(rac[3].seat_count, 1);
    assert_eq!(fleet.seat_pool_counts(3, SeatCategory::RAC)[3].seat_count, 0);
}

#[test]
fn exhausted_ids_are_a_storage_failure() {
    let mut dir = Directory::new();
    let last = StationResponse { station_id: i64::MAX - 1, station_name: None, station_type: None };
    assert_eq!(dir.insert_station(last), Ok(()));
    let req = railway::CreateStation { station_name: "New".to_string(), station_type: "ST".to_string() };
    assert_eq!(dir.create_station(&req), Err(EngineError::StorageFailure));

    let mut routes = RouteDirectory::new();
    let rec = RouteRecord { route_id: i64::MAX - 1, route_name: "Last".to_string(), source_station_id: 1 };
    assert_eq!(routes.insert_route(rec), Ok(()));
    let req = railway::CreateRoute { route_name: "New".to_string(), source_station_id: 1 };
    assert_eq!(routes.create_route(&req), Err(EngineError::StorageFailure));

    let mut tt = Timetable::new();
    assert_eq!(tt.insert_journey(i64::MAX - 1, 1, 1, 2, 0, 10), Ok(()));
    assert_eq!(tt.add_journey(1, 1, 2, 0, 10), Err(EngineError::StorageFailure));
}
