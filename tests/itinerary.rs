use railway::{find_journeys, CreateSchedule, EngineError, Timetable};
use railway::{CreateRoute, CreateStation, Directory, RouteDirectory, Train, TrainType};

// 2024-05-01 00:00:00 UTC
const MAY_FIRST: i64 = 1714521600;
const MAY_FIRST_DAY: i64 = 19844;

fn stop(journey_id: i64, station_id: i64, at: i64, n: i32, route: Option<i64>) -> CreateSchedule {
    CreateSchedule {
        station_id,
        sched_toa: at,
        sched_tod: at + 300,
        journey_id,
        stop_number: n,
        route_id: route,
    }
}

struct World {
    dir: Directory,
    routes: RouteDirectory,
    tt: Timetable,
    s: [i64; 3],
    route: i64,
    journey: i64,
}

fn world() -> World {
    let mut dir = Directory::new();
    let mut s = [0; 3];
    for (i, name) in ["S0", "S1", "S2"].iter().enumerate() {
        s[i] = dir
            .create_station(&CreateStation { station_name: name.to_string(), station_type: "JN".to_string() })
            .unwrap();
    }
    dir.create_train(Train { train_no: 12951, train_name: "Rajdhani".to_string(), train_type: TrainType::SF })
        .unwrap();
    let mut routes = RouteDirectory::new();
    let route = routes
        .create_route(&CreateRoute { route_name: "R".to_string(), source_station_id: s[0] })
        .unwrap();
    routes.add_intermediate_station(route, s[1], 10).unwrap();
    routes.add_intermediate_station(route, s[2], 25).unwrap();
    let mut tt = Timetable::new();
    let journey = tt.add_journey(12951, s[0], s[2], MAY_FIRST + 3600, MAY_FIRST + 4 * 3600).unwrap();
    tt.insert_stop(&stop(journey, s[0], MAY_FIRST + 3600, 0, Some(route))).unwrap();
    tt.insert_stop(&stop(journey, s[1], MAY_FIRST + 2 * 3600, 1, Some(route))).unwrap();
    tt.insert_stop(&stop(journey, s[2], MAY_FIRST + 4 * 3600, 2, Some(route))).unwrap();
    World { dir, routes, tt, s, route, journey }
}

#[test]
fn find_journeys_scenario() {
    let w = world();
    assert_eq!(w.routes.distance_between(w.route, w.s[1], w.s[2]), Ok(15));
    let legs = find_journeys(&w.tt, &w.dir, w.s[1], w.s[2], MAY_FIRST_DAY).unwrap();
    assert_eq!(legs.len(), 1);
    let leg = &legs[0];
    assert_eq!(leg.journey_id, w.journey);
    assert_eq!(leg.travel_time, 2 * 3600);
    assert_eq!(leg.travel_time, leg.end_time - leg.start_time);
    assert_eq!(leg.start_stop_number, 1);
    assert_eq!(leg.end_stop_number, 2);
    assert_eq!(leg.train_id, 12951);
    assert_eq!(leg.train_name.as_deref(), Some("Rajdhani"));
    assert_eq!(leg.start_station.as_deref(), Some("S1"));
    assert_eq!(leg.end_station.as_deref(), Some("S2"));
    let back = find_journeys(&w.tt, &w.dir, w.s[2], w.s[1], MAY_FIRST_DAY).unwrap();
    assert!(back.is_empty());
}

#[test]
fn find_journeys_other_day_is_empty() {
    let w = world();
    let legs = find_journeys(&w.tt, &w.dir, w.s[1], w.s[2], MAY_FIRST_DAY + 1).unwrap();
    assert!(legs.is_empty());
}

#[test]
fn find_journeys_rejects_zero_station() {
    let w = world();
    assert_eq!(find_journeys(&w.tt, &w.dir, 0, w.s[2], MAY_FIRST_DAY), Err(EngineError::InvalidArgument));
    assert_eq!(find_journeys(&w.tt, &w.dir, w.s[1], 0, MAY_FIRST_DAY), Err(EngineError::InvalidArgument));
}

#[test]
fn looping_journey_gives_legs_both_ways_without_overlap() {
    let mut w = world();
    // The train comes back to S1 after S2.
    w.tt.insert_stop(&stop(w.journey, w.s[1], MAY_FIRST + 6 * 3600, 3, Some(w.route))).unwrap();
    let ab = find_journeys(&w.tt, &w.dir, w.s[1], w.s[2], MAY_FIRST_DAY).unwrap();
    let ba = find_journeys(&w.tt, &w.dir, w.s[2], w.s[1], MAY_FIRST_DAY).unwrap();
    assert_eq!(ab.len(), 1);
    assert_eq!(ba.len(), 1);
    for l in ab.iter().chain(ba.iter()) {
        assert!(l.start_stop_number < l.end_stop_number);
    }
    for x in &ab {
        for y in &ba {
            assert_ne!(x, y);
        }
    }
    assert_eq!(ba[0].start_stop_number, 2);
    assert_eq!(ba[0].end_stop_number, 3);
}

#[test]
fn schedule_listing_numbers_and_distances() {
    let w = world();
    let rows = w.tt.schedule_for_journey(&w.routes, &w.dir, w.journey).unwrap();
    let numbers: Vec<usize> = rows.iter().map(|r| r.stop_number).collect();
    assert_eq!(numbers, vec![0, 1, 2]);
    assert_eq!(rows[0].distance, Some(0));
    assert_eq!(rows[1].distance, Some(15));
    assert_eq!(rows[2].distance, None);
    assert_eq!(rows[1].station_name.as_deref(), Some("S1"));
    assert_eq!(w.tt.schedule_for_journey(&w.routes, &w.dir, w.journey + 9).unwrap_err(), EngineError::NotFound);
}

#[test]
fn inserting_a_stop_shifts_later_stops() {
    let mut w = world();
    let extra = w.dir
        .create_station(&CreateStation { station_name: "Halt".to_string(), station_type: "HT".to_string() })
        .unwrap();
    let id = w.tt.insert_stop(&stop(w.journey, extra, MAY_FIRST + 3 * 3600, 2, None)).unwrap();
    let rows = w.tt.schedule_for_journey(&w.routes, &w.dir, w.journey).unwrap();
    let stations: Vec<i64> = rows.iter().map(|r| r.station_id).collect();
    assert_eq!(stations, vec![w.s[0], w.s[1], extra, w.s[2]]);
    let numbers: Vec<usize> = rows.iter().map(|r| r.stop_number).collect();
    assert_eq!(numbers, vec![0, 1, 2, 3]);
    assert_eq!(rows[2].sched_id, id);
    // The stop before the new one has no distance: the new stop is not on the route.
    assert_eq!(rows[1].distance, None);
    assert_eq!(w.tt.locate_stop(id), Some((w.journey, 2)));
    let removed = w.tt.remove_stop(w.journey, 2).unwrap();
    assert_eq!(removed.station_id, extra);
    let rows = w.tt.schedule_for_journey(&w.routes, &w.dir, w.journey).unwrap();
    let numbers: Vec<usize> = rows.iter().map(|r| r.stop_number).collect();
    assert_eq!(numbers, vec![0, 1, 2]);
    assert_eq!(w.tt.locate_stop(id), None);
}

#[test]
fn stop_requests_are_checked() {
    let mut w = world();
    assert_eq!(
        w.tt.insert_stop(&stop(w.journey, w.s[1], MAY_FIRST, 9, None)),
        Err(EngineError::InvalidArgument)
    );
    assert_eq!(
        w.tt.insert_stop(&stop(w.journey, w.s[1], MAY_FIRST, -1, None)),
        Err(EngineError::InvalidArgument)
    );
    assert_eq!(w.tt.insert_stop(&stop(w.journey, 0, MAY_FIRST, 0, None)), Err(EngineError::InvalidArgument));
    assert_eq!(w.tt.insert_stop(&stop(w.journey + 3, w.s[1], MAY_FIRST, 0, None)), Err(EngineError::NotFound));
    assert_eq!(w.tt.remove_stop(w.journey, 3).unwrap_err(), EngineError::NotFound);
}
