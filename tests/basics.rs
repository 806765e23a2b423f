use railway::{
    day_of, CancellationStatus, CoachCategory, Config, CreateCoach, CreateJourney, CreateSeat, CreateStation,
    Directory, EngineError, Fleet, Pagination, SeatCategory, SeatType, Timetable, Train, TrainType,
};

#[test]
fn cancellation_status_words() {
    assert_eq!(CancellationStatus::CNC.to_string(), "Cancelled");
    assert_eq!(CancellationStatus::PND.to_string(), "Pending");
}

#[test]
fn error_status_codes() {
    assert_eq!(EngineError::InvalidArgument.status_code(), 400);
    assert_eq!(EngineError::NotFound.status_code(), 404);
    assert_eq!(EngineError::Conflict.status_code(), 409);
    assert_eq!(EngineError::StorageFailure.status_code(), 500);
}

#[test]
fn config_defaults() {
    let c = Config::with_defaults("mysql://db".to_string(), None, None);
    assert_eq!(c.host, "127.0.0.1");
    assert_eq!(c.port, 8080);
    let c = Config::with_defaults("mysql://db".to_string(), Some("0.0.0.0".to_string()), Some(9000));
    assert_eq!(c.host, "0.0.0.0");
    assert_eq!(c.port, 9000);
    assert_eq!(c.database_url, "mysql://db");
}

#[test]
fn pagination_defaults_and_offset() {
    let p = Pagination::from_query(None, None).unwrap();
    assert_eq!((p.page, p.limit, p.offset), (1, 10, 0));
    let p = Pagination::from_query(Some(3), Some(25)).unwrap();
    assert_eq!(p.offset, 50);
    assert_eq!(p.window(60), (50, 60));
    assert_eq!(p.window(40), (40, 40));
    assert_eq!(p.window(100), (50, 75));
    assert_eq!(Pagination::from_query(Some(0), Some(5)), Err(EngineError::InvalidArgument));
    let p = Pagination::from_query(Some(u32::MAX), Some(u32::MAX)).unwrap();
    assert_eq!(p.offset, (u32::MAX as u64 - 1) * u32::MAX as u64);
}

#[test]
fn calendar_days() {
    assert_eq!(day_of(0), 0);
    assert_eq!(day_of(86399), 0);
    assert_eq!(day_of(86400), 1);
    assert_eq!(day_of(-1), -1);
    assert_eq!(day_of(-86400), -1);
    assert_eq!(day_of(-86401), -2);
    assert_eq!(day_of(1714521600 + 7200), 19844);
}

#[test]
fn create_journey_reads_times() {
    let mut tt = Timetable::new();
    let req = CreateJourney {
        start_time: "2024-05-01 10:00:00".to_string(),
        end_time: "2024-05-01 18:30:00".to_string(),
        train_id: 12951,
        start_station_id: 1,
        end_station_id: 2,
    };
    let id = tt.create_journey(&req).unwrap();
    let j = &tt.journeys()[0];
    assert_eq!(j.journey_id, id);
    assert_eq!(j.start_time, 1714557600);
    assert_eq!(j.end_time, 1714588200);
    let bad = CreateJourney { start_time: "tomorrow".to_string(), ..req };
    assert_eq!(tt.create_journey(&bad), Err(EngineError::InvalidArgument));
    assert_eq!(tt.journeys().len(), 1);
}

#[test]
fn add_journey_checks_arguments() {
    let mut tt = Timetable::new();
    assert_eq!(tt.add_journey(0, 1, 2, 0, 10), Err(EngineError::InvalidArgument));
    assert_eq!(tt.add_journey(1, 1, 2, i64::MAX, 10), Err(EngineError::InvalidArgument));
    assert_eq!(tt.add_journey(1, 1, 2, 0, 10), Ok(1));
    assert_eq!(tt.add_journey(1, 1, 2, 0, 10), Ok(2));
}

#[test]
fn stations_and_trains() {
    let mut dir = Directory::new();
    let a = dir.create_station(&CreateStation { station_name: "Agra".to_string(), station_type: "JN".to_string() });
    assert_eq!(a, Ok(1));
    let bad = dir.create_station(&CreateStation { station_name: "X".to_string(), station_type: "XX".to_string() });
    assert_eq!(bad, Err(EngineError::InvalidArgument));
    assert_eq!(dir.station_name(1).as_deref(), Some("Agra"));
    assert_eq!(dir.station_name(2), None);
    let t = Train { train_no: 7, train_name: "Mail".to_string(), train_type: TrainType::ML };
    assert_eq!(dir.create_train(t.clone()), Ok(()));
    assert_eq!(dir.create_train(t), Err(EngineError::Conflict));
    assert_eq!(dir.train_name(7).as_deref(), Some("Mail"));
}

#[test]
fn coach_labels() {
    assert_eq!(CoachCategory::from_label(&"2S".to_string()), Some(CoachCategory::SecondSitting));
    assert_eq!(CoachCategory::from_label(&"AC3".to_string()), Some(CoachCategory::AC3));
    assert_eq!(CoachCategory::from_label(&"ac3".to_string()), None);
    assert_eq!(CoachCategory::SL.label(), "SL");
}

#[test]
fn seat_pools_by_train() {
    let mut fleet = Fleet::new();
    let sl = fleet
        .create_coach(&CreateCoach { coach_name: "S1".to_string(), coach_type: "SL".to_string(), fare: 500, train_id: 9 })
        .unwrap();
    let ac = fleet
        .create_coach(&CreateCoach { coach_name: "A1".to_string(), coach_type: "AC1".to_string(), fare: 3000, train_id: 9 })
        .unwrap();
    let other = fleet
        .create_coach(&CreateCoach { coach_name: "S1".to_string(), coach_type: "SL".to_string(), fare: 500, train_id: 8 })
        .unwrap();
    assert_eq!(
        fleet.create_coach(&CreateCoach { coach_name: "Z".to_string(), coach_type: "ZZ".to_string(), fare: 1, train_id: 9 }),
        Err(EngineError::InvalidArgument)
    );
    let seat = |no: i64, coach_id: i64, cat: SeatCategory| CreateSeat {
        seat_no: no,
        seat_type: SeatType::LL,
        coach_id,
        seat_category: cat,
    };
    fleet.create_seat(&seat(1, sl, SeatCategory::CNF)).unwrap();
    fleet.create_seat(&seat(2, sl, SeatCategory::CNF)).unwrap();
    fleet.create_seat(&seat(3, sl, SeatCategory::RAC)).unwrap();
    fleet.create_seat(&seat(1, ac, SeatCategory::CNF)).unwrap();
    fleet.create_seat(&seat(1, other, SeatCategory::CNF)).unwrap();
    assert_eq!(fleet.create_seat(&seat(1, 99, SeatCategory::CNF)), Err(EngineError::NotFound));
    let cnf: Vec<usize> = fleet.seat_pool_counts(9, SeatCategory::CNF).iter().map(|r| r.seat_count).collect();
    assert_eq!(cnf, vec![0, 1, 0, 0, 0, 0, 2]);
    let rac: Vec<usize> = fleet.seat_pool_counts(9, SeatCategory::RAC).iter().map(|r| r.seat_count).collect();
    assert_eq!(rac, vec![0, 0, 0, 0, 0, 0, 1]);
    let coaches = fleet.coaches_for_train(9);
    assert_eq!(coaches.len(), 2);
    assert_eq!(coaches[0].total_seats, 3);
    assert_eq!(coaches[1].total_seats, 1);
    assert_eq!(coaches[1].coach_type, CoachCategory::AC1);
    assert_eq!(fleet.seats_by_coach(sl).len(), 3);
}
