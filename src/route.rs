use vstd::prelude::*;
use crate::directory::Directory;
use crate::error::EngineError;
use crate::model::CreateRoute;

verus! {

/// A named route that starts at a source station.
#[derive(Debug, Clone)]
pub struct RouteRecord {
    pub route_id: i64,
    pub route_name: String,
    pub source_station_id: i64,
}

/// One entry of a route's distance map: a station and its distance from the
/// route's source station.
#[derive(Debug, Clone, Copy, PartialEq, Eq, Structural)]
pub struct RouteStation {
    pub route_id: i64,
    pub station_id: i64,
    pub distance: i64,
}

/// A route with its stations in traversal order.
pub struct RouteDetailResponse {
    pub route_id: i64,
    pub route_name: String,
    pub source_station_id: i64,
    pub total_stations: usize,
    pub total_distance: i64,
    pub stations: Vec<RouteStation>,
}

/// A route as listed: how many stations it has and how long it is.
pub struct RouteResponse {
    pub route_id: i64,
    pub route_name: String,
    pub source_station_id: i64,
    pub num_stations: usize,
    pub total_distance: i64,
}

/// A route that serves two given stations, with the distance between them on it.
pub struct RoutesBetweenStations {
    pub route_id: i64,
    pub route_name: String,
    pub source_station_id: i64,
    pub destination_station_id: i64,
    pub distance: i64,
}

/// A station of a route, placed by its distance from a reference station of
/// the same route (negative when it lies towards the source).
pub struct RelativeStation {
    pub station_id: i64,
    pub station_name: Option<String>,
    pub distance_from_given_station: i64,
}

/// The entries of route `r`, in the order in which they are held.
pub open spec fn route_chain(s: Seq<RouteStation>, r: i64) -> Seq<RouteStation>
    decreases s.len(),
{
    if s.len() == 0 {
        Seq::empty()
    } else {
        let prev = route_chain(s.drop_last(), r);
        if s.last().route_id == r {
            prev.push(s.last())
        } else {
            prev
        }
    }
}

/// The largest distance of the entries, or 0 where there are none.
pub open spec fn max_distance(s: Seq<RouteStation>) -> i64
    decreases s.len(),
{
    if s.len() == 0 {
        0
    } else {
        let m = max_distance(s.drop_last());
        if s.last().distance > m {
            s.last().distance
        } else {
            m
        }
    }
}

/// Distances along the sequence never decrease.
pub open spec fn non_decreasing(s: Seq<RouteStation>) -> bool {
    forall|a: int, b: int| 0 <= a < b < s.len() ==> s[a].distance <= s[b].distance
}

pub open spec fn abs_diff(a: i64, b: i64) -> i64 {
    if a >= b {
        (a - b) as i64
    } else {
        (b - a) as i64
    }
}

/// Entries that hold route `r` and lie past distance `d`.
pub open spec fn lies_beyond(s: Seq<RouteStation>, i: int, r: i64, d: i64) -> bool {
    0 <= i < s.len() && s[i].route_id == r && s[i].distance > d
}

/// Where a new entry of route `r` at distance `d` goes: before the first entry
/// of the route that lies farther, or at the end.
pub open spec fn insert_position(s: Seq<RouteStation>, r: i64, d: i64) -> int {
    if exists|i: int| #[trigger] lies_beyond(s, i, r, d) {
        choose|i: int| #[trigger] lies_beyond(s, i, r, d) && forall|j: int| 0 <= j < i ==> !lies_beyond(s, j, r, d)
    } else {
        s.len() as int
    }
}

/// Stations and named routes; each route is a chain of stations with their
/// distances from its source station.
pub struct RouteDirectory {
    routes: Vec<RouteRecord>,
    stops: Vec<RouteStation>,
    next_route_id: i64,
}

impl RouteDirectory {
    pub closed spec fn routes_view(&self) -> Seq<RouteRecord> {
        self.routes@
    }

    /// Every distance-map entry of every route.
    pub closed spec fn stops_view(&self) -> Seq<RouteStation> {
        self.stops@
    }

    pub closed spec fn next_route_id_view(&self) -> i64 {
        self.next_route_id
    }

    /// Route ids are positive, distinct and below the next id to hand out;
    /// each (route, station) pair has at most one entry; distances are not
    /// negative, and along each route they never decrease.
    pub open spec fn wf(&self) -> bool {
        let rs = self.routes_view();
        let s = self.stops_view();
        let n = self.next_route_id_view();
        &&& 1 <= n
        &&& forall|i: int| #![trigger rs[i]] 0 <= i < rs.len() ==> 1 <= rs[i].route_id < n
        &&& forall|i: int, j: int| 0 <= i < j < rs.len() ==> rs[i].route_id != rs[j].route_id
        &&& forall|i: int| #![trigger s[i]] 0 <= i < s.len() ==> 0 <= s[i].distance && s[i].route_id < n
        &&& forall|i: int, j: int|
            0 <= i < j < s.len() && s[i].route_id == s[j].route_id ==> s[i].station_id != s[j].station_id
                && s[i].distance <= s[j].distance
    }

    pub open spec fn has_route(&self, r: i64) -> bool {
        exists|i: int| 0 <= i < self.routes_view().len() && #[trigger] self.routes_view()[i].route_id == r
    }

    /// The position of route `r` among the routes.
    pub open spec fn route_index(&self, r: i64) -> int {
        choose|i: int| 0 <= i < self.routes_view().len() && #[trigger] self.routes_view()[i].route_id == r
    }

    pub open spec fn has_entry(&self, r: i64, st: i64) -> bool {
        exists|i: int|
            0 <= i < self.stops_view().len() && #[trigger] self.stops_view()[i].route_id == r
                && self.stops_view()[i].station_id == st
    }

    /// The distance of station `st` from the source of route `r`, where the
    /// route's distance map has it.
    pub open spec fn spec_distance(&self, r: i64, st: i64) -> Option<i64> {
        if self.has_entry(r, st) {
            let i = choose|i: int|
                0 <= i < self.stops_view().len() && #[trigger] self.stops_view()[i].route_id == r
                    && self.stops_view()[i].station_id == st;
            Some(self.stops_view()[i].distance)
        } else {
            None
        }
    }

    /// The distance between two stations of a route.
    pub open spec fn spec_distance_between(&self, r: i64, a: i64, b: i64) -> Option<i64> {
        match (self.spec_distance(r, a), self.spec_distance(r, b)) {
            (Some(da), Some(db)) => Some(abs_diff(db, da)),
            _ => None,
        }
    }

    /// The stations of route `r` in traversal order.
    pub open spec fn chain(&self, r: i64) -> Seq<RouteStation> {
        route_chain(self.stops_view(), r)
    }

    pub fn new() -> (r: RouteDirectory)
        ensures
            r.wf(),
            r.routes_view().len() == 0,
            r.stops_view().len() == 0,
            r.next_route_id_view() == 1,
    {
        RouteDirectory { routes: Vec::new(), stops: Vec::new(), next_route_id: 1 }
    }

    /// Opens a route under a fresh id; its source station enters the
    /// distance map at distance 0.
    pub fn create_route(&mut self, req: &CreateRoute) -> (r: Result<i64, EngineError>)
        requires
            old(self).wf(),
        ensures
            final(self).wf(),
            r == Err::<i64, EngineError>(EngineError::InvalidArgument) <==> req.source_station_id == 0,
            r == Err::<i64, EngineError>(EngineError::StorageFailure) <==> (req.source_station_id != 0
                && old(self).next_route_id_view() == i64::MAX),
            r is Ok <==> (req.source_station_id != 0 && old(self).next_route_id_view() < i64::MAX),
            r.is_err() ==> *final(self) == *old(self),
            r.is_ok() ==> {
                let id = r->Ok_0;
                &&& id >= 1
                &&& id == old(self).next_route_id_view()
                &&& !old(self).has_route(id)
                &&& final(self).has_route(id)
                &&& final(self).routes_view() == old(self).routes_view().push(
                    RouteRecord { route_id: id, route_name: req.route_name, source_station_id: req.source_station_id },
                )
                &&& final(self).stops_view() == old(self).stops_view().push(
                    RouteStation { route_id: id, station_id: req.source_station_id, distance: 0 },
                )
            },
    {
        if req.source_station_id == 0 {
            return Err(EngineError::InvalidArgument);
        }
        if self.next_route_id == i64::MAX {
            return Err(EngineError::StorageFailure);
        }
        let id = self.next_route_id;
        self.routes.push(
            RouteRecord {
                route_id: id,
                route_name: req.route_name.clone(),
                source_station_id: req.source_station_id,
            },
        );
        self.stops.push(RouteStation { route_id: id, station_id: req.source_station_id, distance: 0 });
        self.next_route_id = id + 1;
        proof {
            let s = self.stops_view();
            let rs = self.routes_view();
            assert(rs[rs.len() - 1].route_id == id);
            assert(forall|i: int| 0 <= i < s.len() - 1 ==> s[i] == old(self).stops_view()[i]);
            assert(forall|i: int| 0 <= i < rs.len() - 1 ==> rs[i] == old(self).routes_view()[i]);
            assert forall|i: int| #![trigger s[i]] 0 <= i < s.len() implies 0 <= s[i].distance && s[i].route_id
                < self.next_route_id by {
                if i < s.len() - 1 {
                    assert(old(self).stops_view()[i].route_id < id);
                }
            }
            assert forall|i: int, j: int|
                0 <= i < j < s.len() && s[i].route_id == s[j].route_id implies s[i].station_id
                != s[j].station_id && s[i].distance <= s[j].distance by {
                if j == s.len() - 1 {
                    assert(old(self).stops_view()[i].route_id < id);
                }
            }
            assert forall|i: int| #![trigger rs[i]] 0 <= i < rs.len() implies 1 <= rs[i].route_id
                < self.next_route_id by {
                if i < rs.len() - 1 {
                    assert(old(self).routes_view()[i].route_id < id);
                }
            }
            assert forall|i: int, j: int| 0 <= i < j < rs.len() implies rs[i].route_id != rs[j].route_id by {
                if j == rs.len() - 1 {
                    assert(old(self).routes_view()[i].route_id < id);
                }
            }
        }
        Ok(id)
    }

    /// Records a route that already has an id, as read back from storage;
    /// its stations are added on their own.
    pub fn insert_route(&mut self, rec: RouteRecord) -> (r: Result<(), EngineError>)
        requires
            old(self).wf(),
        ensures
            final(self).wf(),
            r == Err::<(), EngineError>(EngineError::InvalidArgument) <==> (rec.route_id < 1 || rec.route_id == i64::MAX),
            r == Err::<(), EngineError>(EngineError::Conflict) <==> (1 <= rec.route_id < i64::MAX && old(
                self,
            ).has_route(rec.route_id)),
            r is Ok <==> (1 <= rec.route_id < i64::MAX && !old(self).has_route(rec.route_id)),
            r is Err ==> *final(self) == *old(self),
            r is Ok ==> final(self).routes_view() == old(self).routes_view().push(rec) && final(self).stops_view()
                == old(self).stops_view() && final(self).has_route(rec.route_id),
    {
        if rec.route_id < 1 || rec.route_id == i64::MAX {
            return Err(EngineError::InvalidArgument);
        }
        if self.contains_route(rec.route_id) {
            return Err(EngineError::Conflict);
        }
        let id = rec.route_id;
        self.routes.push(rec);
        if self.next_route_id <= id {
            self.next_route_id = id + 1;
        }
        proof {
            let rs = self.routes_view();
            let o = old(self).routes_view();
            assert(rs[o.len() as int].route_id == id);
            assert(forall|k: int| 0 <= k < o.len() ==> rs[k] == o[k]);
            assert forall|i: int| #![trigger rs[i]] 0 <= i < rs.len() implies 1 <= rs[i].route_id
                < self.next_route_id by {
                if i < o.len() {
                    assert(o[i].route_id < old(self).next_route_id);
                }
            }
            assert forall|i: int| #![trigger self.stops_view()[i]] 0 <= i < self.stops_view().len() implies 0
                <= self.stops_view()[i].distance && self.stops_view()[i].route_id < self.next_route_id by {
                assert(old(self).stops_view()[i].route_id < old(self).next_route_id);
            }
            assert forall|i: int, j: int| 0 <= i < j < rs.len() implies rs[i].route_id != rs[j].route_id by {
                if j == o.len() {
                    assert(o[i].route_id != id);
                }
            }
        }
        Ok(())
    }

    /// Whether route `r` exists.
    pub fn contains_route(&self, r: i64) -> (b: bool)
        ensures
            b == self.has_route(r),
    {
        let mut i: usize = 0;
        while i < self.routes.len()
            invariant
                i <= self.routes@.len(),
                forall|k: int| 0 <= k < i ==> #[trigger] self.routes@[k].route_id != r,
            decreases self.routes@.len() - i,
        {
            if self.routes[i].route_id == r {
                assert(self.routes_view()[i as int].route_id == r);
                return true;
            }
            i += 1;
        }
        false
    }

    /// The distance of station `st` from the source of route `r`.
    pub fn distance(&self, r: i64, st: i64) -> (d: Option<i64>)
        requires
            self.wf(),
        ensures
            d == self.spec_distance(r, st),
    {
        let mut i: usize = 0;
        while i < self.stops.len()
            invariant
                i <= self.stops@.len(),
                self.wf(),
                forall|k: int|
                    0 <= k < i ==> !(#[trigger] self.stops@[k].route_id == r && self.stops@[k].station_id == st),
            decreases self.stops@.len() - i,
        {
            if self.stops[i].route_id == r && self.stops[i].station_id == st {
                let ghost c = choose|c: int|
                    0 <= c < self.stops_view().len() && #[trigger] self.stops_view()[c].route_id == r
                        && self.stops_view()[c].station_id == st;
                assert(c == i as int);
                return Some(self.stops[i].distance);
            }
            i += 1;
        }
        None
    }

    /// The distance between stations `a` and `b` along route `r`, whichever
    /// lies first; NotFound where the route's distance map lacks either.
    pub fn distance_between(&self, r: i64, a: i64, b: i64) -> (d: Result<i64, EngineError>)
        requires
            self.wf(),
        ensures
            d is Err <==> self.spec_distance_between(r, a, b) is None,
            d is Err ==> d == Err::<i64, EngineError>(EngineError::NotFound),
            d is Ok ==> Some(d->Ok_0) == self.spec_distance_between(r, a, b),
            d is Ok ==> d->Ok_0 >= 0,
    {
        let da = self.distance(r, a);
        let db = self.distance(r, b);
        match (da, db) {
            (Some(x), Some(y)) => {
                proof {
                    self.lemma_distance_non_negative(r, a);
                    self.lemma_distance_non_negative(r, b);
                }
                if y >= x {
                    Ok(y - x)
                } else {
                    Ok(x - y)
                }
            },
            _ => Err(EngineError::NotFound),
        }
    }

    pub proof fn lemma_distance_non_negative(&self, r: i64, st: i64)
        requires
            self.wf(),
        ensures
            self.spec_distance(r, st) matches Some(d) ==> d >= 0,
    {
        if self.has_entry(r, st) {
            let i = choose|i: int|
                0 <= i < self.stops_view().len() && #[trigger] self.stops_view()[i].route_id == r
                    && self.stops_view()[i].station_id == st;
            assert(0 <= self.stops_view()[i].distance);
        }
    }
}


/// Indices into `s` of the entries of `route_chain(s, r)`, in increasing order.
pub proof fn lemma_chain_indices(s: Seq<RouteStation>, r: i64) -> (idx: Seq<int>)
    ensures
        idx.len() == route_chain(s, r).len(),
        forall|k: int| #![trigger idx[k]] 0 <= k < idx.len() ==> 0 <= idx[k] < s.len() && s[idx[k]] == route_chain(s, r)[k],
        forall|k1: int, k2: int| 0 <= k1 < k2 < idx.len() ==> idx[k1] < idx[k2],
        forall|k: int| 0 <= k < idx.len() ==> (#[trigger] route_chain(s, r)[k]).route_id == r,
    decreases s.len(),
{
    if s.len() == 0 {
        Seq::empty()
    } else {
        let prev = lemma_chain_indices(s.drop_last(), r);
        assert(forall|i: int| 0 <= i < s.len() - 1 ==> s.drop_last()[i] == s[i]);
        if s.last().route_id == r {
            let idx = prev.push(s.len() - 1);
            assert(forall|k: int| 0 <= k < prev.len() ==> idx[k] == prev[k]);
            idx
        } else {
            prev
        }
    }
}

/// Along every route, distances never decrease in traversal order, and every
/// entry of the route's chain belongs to that route.
pub proof fn lemma_route_order(dir: &RouteDirectory, r: i64)
    requires
        dir.wf(),
    ensures
        non_decreasing(dir.chain(r)),
        forall|k: int| 0 <= k < dir.chain(r).len() ==> (#[trigger] dir.chain(r)[k]).route_id == r,
{
    let s = dir.stops_view();
    let idx = lemma_chain_indices(s, r);
    let c = dir.chain(r);
    assert forall|a: int, b: int| 0 <= a < b < c.len() implies c[a].distance <= c[b].distance by {
        assert(idx[a] < idx[b]);
        assert(s[idx[a]] == c[a]);
        assert(s[idx[b]] == c[b]);
    }
}

/// The distance between two stations of a route does not depend on which is
/// named first.
pub proof fn lemma_distance_between_symmetric(dir: &RouteDirectory, r: i64, a: i64, b: i64)
    ensures
        dir.spec_distance_between(r, a, b) == dir.spec_distance_between(r, b, a),
{
}

/// The stations of a chain other than `reference`, each placed by its
/// distance from the reference station's distance `dref`.
pub open spec fn relative_chain(dir: &Directory, c: Seq<RouteStation>, reference: i64, dref: i64) -> Seq<
    RelativeStation,
>
    decreases c.len(),
{
    if c.len() == 0 {
        Seq::empty()
    } else {
        let prev = relative_chain(dir, c.drop_last(), reference, dref);
        if c.last().station_id != reference {
            prev.push(
                RelativeStation {
                    station_id: c.last().station_id,
                    station_name: dir.spec_station_name(c.last().station_id),
                    distance_from_given_station: (c.last().distance - dref) as i64,
                },
            )
        } else {
            prev
        }
    }
}

impl RouteDirectory {
    /// The summary of one route as listed.
    pub open spec fn summary_of(&self, rec: RouteRecord) -> RouteResponse {
        RouteResponse {
            route_id: rec.route_id,
            route_name: rec.route_name,
            source_station_id: rec.source_station_id,
            num_stations: self.chain(rec.route_id).len() as usize,
            total_distance: max_distance(self.chain(rec.route_id)),
        }
    }

    /// The routes, among `rs`, on which both `a` and `b` have a distance,
    /// with the distance between them.
    pub open spec fn routes_between(&self, rs: Seq<RouteRecord>, a: i64, b: i64) -> Seq<RoutesBetweenStations>
        decreases rs.len(),
    {
        if rs.len() == 0 {
            Seq::empty()
        } else {
            let prev = self.routes_between(rs.drop_last(), a, b);
            match self.spec_distance_between(rs.last().route_id, a, b) {
                Some(d) => prev.push(
                    RoutesBetweenStations {
                        route_id: rs.last().route_id,
                        route_name: rs.last().route_name,
                        source_station_id: a,
                        destination_station_id: b,
                        distance: d,
                    },
                ),
                None => prev,
            }
        }
    }

    proof fn lemma_insert_keeps_wf(&self, r: i64, st: i64, d: i64, p: int)
        requires
            self.wf(),
            d >= 0,
            r < self.next_route_id_view(),
            !self.has_entry(r, st),
            0 <= p <= self.stops_view().len(),
            forall|j: int| 0 <= j < p ==> !lies_beyond(self.stops_view(), j, r, d),
            p < self.stops_view().len() ==> lies_beyond(self.stops_view(), p, r, d),
        ensures
            ({
                let s = self.stops_view().insert(p, RouteStation { route_id: r, station_id: st, distance: d });
                &&& forall|i: int| #![trigger s[i]] 0 <= i < s.len() ==> 0 <= s[i].distance && s[i].route_id
                    < self.next_route_id_view()
                &&& forall|i: int, j: int|
                    0 <= i < j < s.len() && s[i].route_id == s[j].route_id ==> s[i].station_id
                        != s[j].station_id && s[i].distance <= s[j].distance
            }),
    {
        let o = self.stops_view();
        let e = RouteStation { route_id: r, station_id: st, distance: d };
        let s = o.insert(p, e);
        assert forall|i: int| #![trigger s[i]] 0 <= i < s.len() implies 0 <= s[i].distance && s[i].route_id
            < self.next_route_id_view() by {
            if i < p {
                assert(s[i] == o[i]);
            } else if i > p {
                assert(s[i] == o[i - 1]);
            }
        }
        assert forall|i: int, j: int|
            0 <= i < j < s.len() && s[i].route_id == s[j].route_id implies s[i].station_id != s[j].station_id
            && s[i].distance <= s[j].distance by {
            if j < p {
                assert(s[i] == o[i] && s[j] == o[j]);
            } else if j == p {
                assert(s[i] == o[i]);
                assert(!lies_beyond(o, i, r, d));
                assert(o[i].route_id == r && o[i].station_id == st ==> self.has_entry(r, st));
            } else if i < p {
                assert(s[i] == o[i] && s[j] == o[j - 1]);
            } else if i == p {
                assert(s[j] == o[j - 1]);
                assert(lies_beyond(o, p, r, d));
                assert(o[j - 1].route_id == r && o[j - 1].station_id == st ==> self.has_entry(r, st));
                if p < j - 1 {
                    assert(o[p].distance <= o[j - 1].distance);
                }
            } else {
                assert(s[i] == o[i - 1] && s[j] == o[j - 1]);
            }
        }
    }

    /// Adds station `st` to route `r` at distance `d` from the route's source.
    /// The entry goes after every entry of the route that lies no farther, so
    /// the route stays in traversal order.
    pub fn add_intermediate_station(&mut self, r: i64, st: i64, d: i64) -> (res: Result<(), EngineError>)
        requires
            old(self).wf(),
        ensures
            final(self).wf(),
            res == Err::<(), EngineError>(EngineError::InvalidArgument) <==> (st == 0 || d < 0),
            res == Err::<(), EngineError>(EngineError::NotFound) <==> (st != 0 && d >= 0 && !old(self).has_route(
                r,
            )),
            res == Err::<(), EngineError>(EngineError::Conflict) <==> (st != 0 && d >= 0 && old(self).has_route(r)
                && old(self).has_entry(r, st)),
            res is Ok <==> (st != 0 && d >= 0 && old(self).has_route(r) && !old(self).has_entry(r, st)),
            res is Err ==> *final(self) == *old(self),
            res is Ok ==> {
                &&& final(self).routes_view() == old(self).routes_view()
                &&& final(self).next_route_id_view() == old(self).next_route_id_view()
                &&& final(self).stops_view() == old(self).stops_view().insert(
                    insert_position(old(self).stops_view(), r, d),
                    RouteStation { route_id: r, station_id: st, distance: d },
                )
                &&& final(self).spec_distance(r, st) == Some(d)
            },
    {
        if st == 0 || d < 0 {
            return Err(EngineError::InvalidArgument);
        }
        if !self.contains_route(r) {
            return Err(EngineError::NotFound);
        }
        if self.distance(r, st).is_some() {
            return Err(EngineError::Conflict);
        }
        proof {
            let ri = choose|i: int| 0 <= i < self.routes_view().len() && #[trigger] self.routes_view()[i].route_id == r;
            assert(self.routes_view()[ri].route_id < self.next_route_id);
        }
        let mut p: usize = 0;
        while p < self.stops.len()
            invariant
                p <= self.stops@.len(),
                forall|j: int| 0 <= j < p ==> !lies_beyond(self.stops@, j, r, d),
            ensures
                p <= self.stops@.len(),
                forall|j: int| 0 <= j < p ==> !lies_beyond(self.stops@, j, r, d),
                p < self.stops@.len() ==> lies_beyond(self.stops@, p as int, r, d),
            decreases self.stops@.len() - p,
        {
            if self.stops[p].route_id == r && self.stops[p].distance > d {
                break;
            }
            p += 1;
        }
        proof {
            let o = self.stops_view();
            if p < o.len() {
                assert(lies_beyond(o, p as int, r, d));
                let c = choose|i: int| #[trigger] lies_beyond(o, i, r, d) && forall|j: int| 0 <= j < i ==> !lies_beyond(o, j, r, d);
                assert(lies_beyond(o, c, r, d));
                assert(c == p as int);
            } else {
                assert(!exists|i: int| #[trigger] lies_beyond(o, i, r, d));
            }
            self.lemma_insert_keeps_wf(r, st, d, p as int);
        }
        self.stops.insert(p, RouteStation { route_id: r, station_id: st, distance: d });
        proof {
            let s = self.stops_view();
            assert(s[p as int].route_id == r && s[p as int].station_id == st);
            let c = choose|i: int| 0 <= i < s.len() && #[trigger] s[i].route_id == r && s[i].station_id == st;
            assert(c == p as int);
        }
        Ok(())
    }

    /// The entries of route `r` in traversal order, and the largest distance among them.
    fn collect_chain(&self, r: i64) -> (res: (Vec<RouteStation>, i64))
        requires
            self.wf(),
        ensures
            res.0@ == self.chain(r),
            res.1 == max_distance(self.chain(r)),
    {
        let mut out: Vec<RouteStation> = Vec::new();
        let mut m: i64 = 0;
        let mut i: usize = 0;
        while i < self.stops.len()
            invariant
                i <= self.stops@.len(),
                out@ == route_chain(self.stops@.take(i as int), r),
                m == max_distance(out@),
            decreases self.stops@.len() - i,
        {
            let e = self.stops[i];
            proof {
                let t = self.stops@.take(i as int + 1);
                assert(t.drop_last() =~= self.stops@.take(i as int));
                assert(t.last() == e);
            }
            if e.route_id == r {
                out.push(e);
                proof {
                    assert(out@.drop_last() =~= route_chain(self.stops@.take(i as int), r));
                }
                if e.distance > m {
                    m = e.distance;
                }
            }
            i += 1;
        }
        assert(self.stops@.take(self.stops@.len() as int) =~= self.stops@);
        (out, m)
    }

    /// The position of route `r` among the routes, where it exists.
    fn find_route(&self, r: i64) -> (res: Option<usize>)
        requires
            self.wf(),
        ensures
            res is None <==> !self.has_route(r),
            res is Some ==> res->Some_0 == self.route_index(r) && res->Some_0 < self.routes_view().len(),
    {
        let mut i: usize = 0;
        while i < self.routes.len()
            invariant
                i <= self.routes@.len(),
                self.wf(),
                forall|k: int| 0 <= k < i ==> #[trigger] self.routes@[k].route_id != r,
            decreases self.routes@.len() - i,
        {
            if self.routes[i].route_id == r {
                proof {
                    assert(self.routes_view()[i as int].route_id == r);
                    let c = self.route_index(r);
                    assert(c == i as int);
                }
                return Some(i);
            }
            i += 1;
        }
        None
    }

    /// Route `r` with its stations in traversal order; the total distance is
    /// the largest distance of any of them.
    pub fn route_stations(&self, r: i64) -> (res: Result<RouteDetailResponse, EngineError>)
        requires
            self.wf(),
        ensures
            res is Err <==> !self.has_route(r),
            res is Err ==> res == Err::<RouteDetailResponse, EngineError>(EngineError::NotFound),
            res is Ok ==> {
                let d = res->Ok_0;
                let rec = self.routes_view()[self.route_index(r)];
                &&& d.route_id == r
                &&& d.route_name == rec.route_name
                &&& d.source_station_id == rec.source_station_id
                &&& d.stations@ == self.chain(r)
                &&& d.total_stations == self.chain(r).len()
                &&& d.total_distance == max_distance(self.chain(r))
                &&& non_decreasing(d.stations@)
            },
    {
        match self.find_route(r) {
            None => Err(EngineError::NotFound),
            Some(i) => {
                let (stations, total) = self.collect_chain(r);
                proof {
                    lemma_route_order(self, r);
                }
                Ok(
                    RouteDetailResponse {
                        route_id: r,
                        route_name: self.routes[i].route_name.clone(),
                        source_station_id: self.routes[i].source_station_id,
                        total_stations: stations.len(),
                        total_distance: total,
                        stations,
                    },
                )
            },
        }
    }

    /// Every route with the number of stations on it and its length.
    pub fn route_summaries(&self) -> (res: Vec<RouteResponse>)
        requires
            self.wf(),
        ensures
            res@.len() == self.routes_view().len(),
            forall|k: int| 0 <= k < res@.len() ==> #[trigger] res@[k] == self.summary_of(self.routes_view()[k]),
    {
        let mut out: Vec<RouteResponse> = Vec::new();
        let mut i: usize = 0;
        while i < self.routes.len()
            invariant
                i <= self.routes@.len(),
                self.wf(),
                out@.len() == i,
                forall|k: int| 0 <= k < i ==> #[trigger] out@[k] == self.summary_of(self.routes_view()[k]),
            decreases self.routes@.len() - i,
        {
            let rec = &self.routes[i];
            let (stations, total) = self.collect_chain(rec.route_id);
            out.push(
                RouteResponse {
                    route_id: rec.route_id,
                    route_name: rec.route_name.clone(),
                    source_station_id: rec.source_station_id,
                    num_stations: stations.len(),
                    total_distance: total,
                },
            );
            i += 1;
        }
        out
    }

    /// The routes that serve both `a` and `b`, each with the distance between
    /// the two stations on it.
    pub fn routes_between_stations(&self, a: i64, b: i64) -> (res: Vec<RoutesBetweenStations>)
        requires
            self.wf(),
        ensures
            res@ == self.routes_between(self.routes_view(), a, b),
    {
        let mut out: Vec<RoutesBetweenStations> = Vec::new();
        let mut i: usize = 0;
        while i < self.routes.len()
            invariant
                i <= self.routes@.len(),
                self.wf(),
                out@ == self.routes_between(self.routes@.take(i as int), a, b),
            decreases self.routes@.len() - i,
        {
            let rec = &self.routes[i];
            proof {
                let t = self.routes@.take(i as int + 1);
                assert(t.drop_last() =~= self.routes@.take(i as int));
                assert(t.last() == *rec);
            }
            match self.distance_between(rec.route_id, a, b) {
                Ok(d) => {
                    out.push(
                        RoutesBetweenStations {
                            route_id: rec.route_id,
                            route_name: rec.route_name.clone(),
                            source_station_id: a,
                            destination_station_id: b,
                            distance: d,
                        },
                    );
                },
                Err(_) => {},
            }
            i += 1;
        }
        assert(self.routes@.take(self.routes@.len() as int) =~= self.routes@);
        out
    }

    /// The other stations of route `r`, each placed by its distance from
    /// `reference`, in traversal order; empty where the route does not have
    /// the reference station.
    pub fn relative_stations(&self, dir: &Directory, r: i64, reference: i64) -> (res: Vec<RelativeStation>)
        requires
            self.wf(),
            dir.wf(),
        ensures
            self.spec_distance(r, reference) is None ==> res@.len() == 0,
            self.spec_distance(r, reference) matches Some(dref) ==> res@ == relative_chain(
                dir,
                self.chain(r),
                reference,
                dref,
            ),
    {
        let mut out: Vec<RelativeStation> = Vec::new();
        let dref = match self.distance(r, reference) {
            None => return out,
            Some(x) => x,
        };
        let (c, _) = self.collect_chain(r);
        proof {
            self.lemma_distance_non_negative(r, reference);
            let idx = lemma_chain_indices(self.stops_view(), r);
            assert forall|k: int| #![trigger c@[k]] 0 <= k < c@.len() implies 0 <= c@[k].distance by {
                assert(self.stops_view()[idx[k]] == c@[k]);
            }
        }
        let mut i: usize = 0;
        while i < c.len()
            invariant
                i <= c@.len(),
                c@ == self.chain(r),
                self.wf(),
                dir.wf(),
                0 <= dref,
                forall|k: int| #![trigger c@[k]] 0 <= k < c@.len() ==> 0 <= c@[k].distance,
                out@ == relative_chain(dir, c@.take(i as int), reference, dref),
            decreases c@.len() - i,
        {
            let e = c[i];
            proof {
                let t = c@.take(i as int + 1);
                assert(t.drop_last() =~= c@.take(i as int));
                assert(t.last() == e);
            }
            if e.station_id != reference {
                let name = dir.station_name(e.station_id);
                out.push(
                    RelativeStation {
                        station_id: e.station_id,
                        station_name: name,
                        distance_from_given_station: e.distance - dref,
                    },
                );
            }
            i += 1;
        }
        assert(c@.take(c@.len() as int) =~= c@);
        out
    }
}
} // verus!
