use railway::query::{compose_filters, journey_filters, station_filters, train_filters, Column, Comparison, Param, Predicate};

#[test]
fn no_filters_give_no_clause() {
    let (sql, params) = compose_filters(&journey_filters(Some(0), None, Some(String::new()), None));
    assert_eq!(sql, "");
    assert!(params.is_empty());
}

#[test]
fn journey_filters_compose_in_order() {
    let f = journey_filters(Some(4), Some(12951), Some("Pune".to_string()), Some("Agra".to_string()));
    let (sql, params) = compose_filters(&f);
    assert_eq!(
        sql,
        " WHERE J.journey_id = ? AND J.train_id = ? AND S1.station_name LIKE ? AND S2.station_name LIKE ?"
    );
    assert_eq!(
        params,
        vec![
            Param::Int(4),
            Param::Int(12951),
            Param::Text("%Pune%".to_string()),
            Param::Text("%Agra%".to_string())
        ]
    );
}

#[test]
fn quotes_stay_out_of_the_query_text() {
    let f = train_filters(None, Some("x' OR '1'='1".to_string()), Some("EX".to_string()));
    let (sql, params) = compose_filters(&f);
    assert_eq!(sql, " WHERE train_name LIKE ? AND train_type = ?");
    assert_eq!(params[0], Param::Text("%x' OR '1'='1%".to_string()));
    assert_eq!(params[1], Param::Text("EX".to_string()));
}

#[test]
fn station_filters_keep_given_values() {
    let f = station_filters(Some(7), None, Some("JN".to_string()));
    assert_eq!(
        f,
        vec![
            Predicate { column: Column::StationId, comparison: Comparison::Equals, value: Param::Int(7) },
            Predicate {
                column: Column::StationType,
                comparison: Comparison::Equals,
                value: Param::Text("JN".to_string())
            },
        ]
    );
    let (sql, _) = compose_filters(&f);
    assert_eq!(sql, " WHERE station_id = ? AND station_type = ?");
}
