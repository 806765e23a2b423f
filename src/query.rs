use vstd::prelude::*;

verus! {

/// A column that list filters may test.
#[derive(Debug, Clone, Copy, PartialEq, Eq, Structural)]
pub enum Column {
    JourneyId,
    JourneyTrainId,
    JourneyStartStationName,
    JourneyEndStationName,
    TrainId,
    TrainName,
    TrainType,
    StationId,
    StationName,
    StationType,
}

/// How a filter compares a column with its value.
#[derive(Debug, Clone, Copy, PartialEq, Eq, Structural)]
pub enum Comparison {
    /// The column equals the value.
    Equals,
    /// The column contains the value as text.
    Contains,
}

/// A value bound to a placeholder of a query.
#[derive(Debug, Clone, PartialEq, Eq)]
pub enum Param {
    Int(i64),
    Text(String),
}

/// One condition of a list filter.
#[derive(Debug, Clone, PartialEq, Eq)]
pub struct Predicate {
    pub column: Column,
    pub comparison: Comparison,
    pub value: Param,
}

impl Column {
    /// The column as the listing queries name it.
    pub open spec fn spec_sql(self) -> Seq<char> {
        match self {
            Column::JourneyId => "J.journey_id"@,
            Column::JourneyTrainId => "J.train_id"@,
            Column::JourneyStartStationName => "S1.station_name"@,
            Column::JourneyEndStationName => "S2.station_name"@,
            Column::TrainId => "train_id"@,
            Column::TrainName => "train_name"@,
            Column::TrainType => "train_type"@,
            Column::StationId => "station_id"@,
            Column::StationName => "station_name"@,
            Column::StationType => "station_type"@,
        }
    }

    pub fn sql(&self) -> (r: &'static str)
        ensures
            r@ == self.spec_sql(),
    {
        match self {
            Column::JourneyId => "J.journey_id",
            Column::JourneyTrainId => "J.train_id",
            Column::JourneyStartStationName => "S1.station_name",
            Column::JourneyEndStationName => "S2.station_name",
            Column::TrainId => "train_id",
            Column::TrainName => "train_name",
            Column::TrainType => "train_type",
            Column::StationId => "station_id",
            Column::StationName => "station_name",
            Column::StationType => "station_type",
        }
    }
}

/// The condition text of one predicate, with a placeholder for its value.
pub open spec fn condition_sql(p: Predicate) -> Seq<char> {
    p.column.spec_sql() + match p.comparison {
        Comparison::Equals => " = ?"@,
        Comparison::Contains => " LIKE ?"@,
    }
}

/// The conditions of `ps` joined by `AND`.
pub open spec fn conjunction_sql(ps: Seq<Predicate>) -> Seq<char>
    decreases ps.len(),
{
    if ps.len() == 0 {
        Seq::empty()
    } else if ps.len() == 1 {
        condition_sql(ps[0])
    } else {
        conjunction_sql(ps.drop_last()) + " AND "@ + condition_sql(ps.last())
    }
}

/// The `WHERE` clause of `ps`: empty where there is no condition.
pub open spec fn where_sql(ps: Seq<Predicate>) -> Seq<char> {
    if ps.len() == 0 {
        Seq::empty()
    } else {
        " WHERE "@ + conjunction_sql(ps)
    }
}

/// `r` is the value bound for predicate `p`: the value itself for an
/// equality, and for a containment the text between two `%` wildcards.
pub open spec fn binds(r: Param, p: Predicate) -> bool {
    match (p.value, r) {
        (Param::Int(n), Param::Int(m)) => m == n,
        (Param::Text(t), Param::Text(u)) => match p.comparison {
            Comparison::Equals => u@ == t@,
            Comparison::Contains => u@ == "%"@ + t@ + "%"@,
        },
        _ => false,
    }
}

fn condition(p: &Predicate) -> (r: String)
    ensures
        r@ == condition_sql(*p),
{
    let mut s = String::from_str(p.column.sql());
    match p.comparison {
        Comparison::Equals => s.append(" = ?"),
        Comparison::Contains => s.append(" LIKE ?"),
    }
    s
}

fn bind_value(p: &Predicate) -> (r: Param)
    ensures
        binds(r, *p),
{
    match (&p.comparison, &p.value) {
        (Comparison::Contains, Param::Text(t)) => {
            let mut s = String::from_str("%");
            s.append(t.as_str());
            s.append("%");
            Param::Text(s)
        },
        (_, Param::Int(n)) => Param::Int(*n),
        (Comparison::Equals, Param::Text(t)) => Param::Text(t.clone()),
    }
}

/// Composes the filters into a `WHERE` clause with one `?` placeholder per
/// filter, and the values to bind to them, in order. No value ever enters the
/// query text.
pub fn compose_filters(ps: &Vec<Predicate>) -> (r: (String, Vec<Param>))
    ensures
        r.0@ == where_sql(ps@),
        r.1@.len() == ps@.len(),
        forall|k: int| 0 <= k < ps@.len() ==> binds(#[trigger] r.1@[k], ps@[k]),
{
    let mut conj = String::new();
    let mut params: Vec<Param> = Vec::new();
    let mut i: usize = 0;
    while i < ps.len()
        invariant
            i <= ps@.len(),
            conj@ == conjunction_sql(ps@.take(i as int)),
            params@.len() == i,
            forall|k: int| 0 <= k < i ==> binds(#[trigger] params@[k], ps@[k]),
        decreases ps@.len() - i,
    {
        let p = &ps[i];
        proof {
            let t = ps@.take(i as int + 1);
            assert(t.drop_last() =~= ps@.take(i as int));
            assert(t.last() == *p);
            assert(i == 0 ==> t[0] == *p);
        }
        if i > 0 {
            conj.append(" AND ");
        }
        let c = condition(p);
        conj.append(c.as_str());
        proof {
            let t = ps@.take(i as int + 1);
            if i == 0 {
                assert(conj@ =~= condition_sql(*p));
            } else {
                assert(conj@ =~= conjunction_sql(ps@.take(i as int)) + " AND "@ + condition_sql(*p));
            }
        }
        params.push(bind_value(p));
        i += 1;
    }
    assert(ps@.take(ps@.len() as int) =~= ps@);
    if ps.len() == 0 {
        (String::new(), params)
    } else {
        let mut clause = String::from_str(" WHERE ");
        clause.append(conj.as_str());
        (clause, params)
    }
}

/// `s` with `p` added at the end where `add` holds.
pub open spec fn push_if(s: Seq<Predicate>, add: bool, p: Predicate) -> Seq<Predicate> {
    if add {
        s.push(p)
    } else {
        s
    }
}

/// Text that is present and not empty.
pub open spec fn given_text(t: Option<String>) -> bool {
    t is Some && t->Some_0@.len() > 0
}

fn text_given(t: &Option<String>) -> (r: bool)
    ensures
        r == given_text(*t),
{
    match t {
        Some(s) => !s.as_str().is_empty(),
        None => false,
    }
}

fn pred(column: Column, comparison: Comparison, value: Param) -> (r: Predicate)
    ensures
        r == (Predicate { column, comparison, value }),
{
    Predicate { column, comparison, value }
}

/// The filters of the journey listing: a journey id and a train number
/// other than 0 must match; station names that are given must occur in the
/// names of the start and end stations.
pub fn journey_filters(
    journey_id: Option<i64>,
    train_no: Option<i64>,
    start_station_name: Option<String>,
    end_station_name: Option<String>,
) -> (r: Vec<Predicate>)
    ensures
        r@ == push_if(
            push_if(
                push_if(
                    push_if(
                        Seq::empty(),
                        journey_id is Some && journey_id->Some_0 != 0,
                        Predicate {
                            column: Column::JourneyId,
                            comparison: Comparison::Equals,
                            value: Param::Int(journey_id->Some_0),
                        },
                    ),
                    train_no is Some && train_no->Some_0 != 0,
                    Predicate {
                        column: Column::JourneyTrainId,
                        comparison: Comparison::Equals,
                        value: Param::Int(train_no->Some_0),
                    },
                ),
                given_text(start_station_name),
                Predicate {
                    column: Column::JourneyStartStationName,
                    comparison: Comparison::Contains,
                    value: Param::Text(start_station_name->Some_0),
                },
            ),
            given_text(end_station_name),
            Predicate {
                column: Column::JourneyEndStationName,
                comparison: Comparison::Contains,
                value: Param::Text(end_station_name->Some_0),
            },
        ),
{
    let mut r: Vec<Predicate> = Vec::new();
    if let Some(j) = journey_id {
        if j != 0 {
            r.push(pred(Column::JourneyId, Comparison::Equals, Param::Int(j)));
        }
    }
    if let Some(t) = train_no {
        if t != 0 {
            r.push(pred(Column::JourneyTrainId, Comparison::Equals, Param::Int(t)));
        }
    }
    let start_given = text_given(&start_station_name);
    let end_given = text_given(&end_station_name);
    if start_given {
        r.push(pred(Column::JourneyStartStationName, Comparison::Contains, Param::Text(start_station_name.unwrap())));
    }
    if end_given {
        r.push(pred(Column::JourneyEndStationName, Comparison::Contains, Param::Text(end_station_name.unwrap())));
    }
    r
}

/// The filters of the train listing: given text must occur in the train
/// number (as digits) and the name; a given type must match.
pub fn train_filters(train_no: Option<String>, train_name: Option<String>, train_type: Option<String>) -> (r: Vec<
    Predicate,
>)
    ensures
        r@ == push_if(
            push_if(
                push_if(
                    Seq::empty(),
                    given_text(train_no),
                    Predicate {
                        column: Column::TrainId,
                        comparison: Comparison::Contains,
                        value: Param::Text(train_no->Some_0),
                    },
                ),
                given_text(train_name),
                Predicate {
                    column: Column::TrainName,
                    comparison: Comparison::Contains,
                    value: Param::Text(train_name->Some_0),
                },
            ),
            given_text(train_type),
            Predicate { column: Column::TrainType, comparison: Comparison::Equals, value: Param::Text(train_type->Some_0) },
        ),
{
    let mut r: Vec<Predicate> = Vec::new();
    let no_given = text_given(&train_no);
    let name_given = text_given(&train_name);
    let type_given = text_given(&train_type);
    if no_given {
        r.push(pred(Column::TrainId, Comparison::Contains, Param::Text(train_no.unwrap())));
    }
    if name_given {
        r.push(pred(Column::TrainName, Comparison::Contains, Param::Text(train_name.unwrap())));
    }
    if type_given {
        r.push(pred(Column::TrainType, Comparison::Equals, Param::Text(train_type.unwrap())));
    }
    r
}

/// The filters of the station listing: a given id and type must match; a
/// given name must occur in the station's name.
pub fn station_filters(station_id: Option<i64>, station_name: Option<String>, station_type: Option<String>) -> (r: Vec<
    Predicate,
>)
    ensures
        r@ == push_if(
            push_if(
                push_if(
                    Seq::empty(),
                    station_id is Some,
                    Predicate {
                        column: Column::StationId,
                        comparison: Comparison::Equals,
                        value: Param::Int(station_id->Some_0),
                    },
                ),
                station_name is Some,
                Predicate {
                    column: Column::StationName,
                    comparison: Comparison::Contains,
                    value: Param::Text(station_name->Some_0),
                },
            ),
            station_type is Some,
            Predicate {
                column: Column::StationType,
                comparison: Comparison::Equals,
                value: Param::Text(station_type->Some_0),
            },
        ),
{
    let mut r: Vec<Predicate> = Vec::new();
    if let Some(id) = station_id {
        r.push(pred(Column::StationId, Comparison::Equals, Param::Int(id)));
    }
    if let Some(n) = station_name {
        r.push(pred(Column::StationName, Comparison::Contains, Param::Text(n)));
    }
    if let Some(t) = station_type {
        r.push(pred(Column::StationType, Comparison::Equals, Param::Text(t)));
    }
    r
}

} // verus!
