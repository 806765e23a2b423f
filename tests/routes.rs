use railway::{CreateRoute, EngineError, RouteDirectory};
use railway::{CreateStation, Directory};

fn route_with_three_stations() -> (RouteDirectory, i64) {
    let mut routes = RouteDirectory::new();
    let r = routes
        .create_route(&CreateRoute { route_name: "Coastal".to_string(), source_station_id: 100 })
        .unwrap();
    routes.add_intermediate_station(r, 102, 25).unwrap();
    routes.add_intermediate_station(r, 101, 10).unwrap();
    (routes, r)
}

#[test]
fn distance_between_scenario() {
    let (routes, r) = route_with_three_stations();
    assert_eq!(routes.distance_between(r, 101, 102), Ok(15));
    assert_eq!(routes.distance_between(r, 102, 101), Ok(15));
    assert_eq!(routes.distance_between(r, 100, 102), Ok(25));
    assert_eq!(routes.distance(r, 100), Some(0));
}

#[test]
fn distance_between_missing_station_is_not_found() {
    let (routes, r) = route_with_three_stations();
    assert_eq!(routes.distance_between(r, 101, 999), Err(EngineError::NotFound));
    assert_eq!(routes.distance_between(r + 1, 101, 102), Err(EngineError::NotFound));
}

#[test]
fn route_stations_are_in_traversal_order() {
    let (mut routes, r) = route_with_three_stations();
    routes.add_intermediate_station(r, 103, 10).unwrap();
    routes.add_intermediate_station(r, 104, 5).unwrap();
    let detail = routes.route_stations(r).unwrap();
    let order: Vec<i64> = detail.stations.iter().map(|s| s.station_id).collect();
    assert_eq!(order, vec![100, 104, 101, 103, 102]);
    let dists: Vec<i64> = detail.stations.iter().map(|s| s.distance).collect();
    assert_eq!(dists, vec![0, 5, 10, 10, 25]);
    assert_eq!(detail.total_stations, 5);
    assert_eq!(detail.total_distance, 25);
    assert_eq!(detail.route_name, "Coastal");
    assert_eq!(detail.source_station_id, 100);
}

#[test]
fn route_stations_of_unknown_route() {
    let (routes, r) = route_with_three_stations();
    assert!(matches!(routes.route_stations(r + 7), Err(EngineError::NotFound)));
}

#[test]
fn duplicate_station_is_conflict() {
    let (mut routes, r) = route_with_three_stations();
    assert_eq!(routes.add_intermediate_station(r, 101, 40), Err(EngineError::Conflict));
    assert_eq!(routes.distance(r, 101), Some(10));
}

#[test]
fn bad_intermediate_station_arguments() {
    let (mut routes, r) = route_with_three_stations();
    assert_eq!(routes.add_intermediate_station(r, 105, -1), Err(EngineError::InvalidArgument));
    assert_eq!(routes.add_intermediate_station(r, 0, 3), Err(EngineError::InvalidArgument));
    assert_eq!(routes.add_intermediate_station(r + 5, 105, 3), Err(EngineError::NotFound));
}

#[test]
fn create_route_with_zero_source_is_rejected() {
    let mut routes = RouteDirectory::new();
    let r = routes.create_route(&CreateRoute { route_name: "X".to_string(), source_station_id: 0 });
    assert_eq!(r, Err(EngineError::InvalidArgument));
}

#[test]
fn route_summaries_count_and_measure() {
    let (mut routes, r) = route_with_three_stations();
    let r2 = routes
        .create_route(&CreateRoute { route_name: "Spur".to_string(), source_station_id: 300 })
        .unwrap();
    let all = routes.route_summaries();
    assert_eq!(all.len(), 2);
    assert_eq!(all[0].route_id, r);
    assert_eq!(all[0].num_stations, 3);
    assert_eq!(all[0].total_distance, 25);
    assert_eq!(all[1].route_id, r2);
    assert_eq!(all[1].num_stations, 1);
    assert_eq!(all[1].total_distance, 0);
}

#[test]
fn routes_between_two_stations() {
    let (mut routes, r) = route_with_three_stations();
    let r2 = routes
        .create_route(&CreateRoute { route_name: "Inland".to_string(), source_station_id: 102 })
        .unwrap();
    routes.add_intermediate_station(r2, 101, 40).unwrap();
    let found = routes.routes_between_stations(101, 102);
    assert_eq!(found.len(), 2);
    assert_eq!(found[0].route_id, r);
    assert_eq!(found[0].distance, 15);
    assert_eq!(found[1].route_id, r2);
    assert_eq!(found[1].distance, 40);
    assert_eq!(found[1].route_name, "Inland");
    assert!(routes.routes_between_stations(101, 555).is_empty());
}

#[test]
fn relative_stations_from_a_middle_station() {
    let (routes, r) = route_with_three_stations();
    let mut dir = Directory::new();
    for name in ["Alpha", "Beta", "Gamma"] {
        dir.create_station(&CreateStation { station_name: name.to_string(), station_type: "ST".to_string() })
            .unwrap();
    }
    let rel = routes.relative_stations(&dir, r, 101);
    assert_eq!(rel.len(), 2);
    assert_eq!(rel[0].station_id, 100);
    assert_eq!(rel[0].distance_from_given_station, -10);
    assert_eq!(rel[1].station_id, 102);
    assert_eq!(rel[1].distance_from_given_station, 15);
    assert!(routes.relative_stations(&dir, r, 999).is_empty());
}
