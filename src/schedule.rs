use vstd::prelude::*;
use crate::directory::Directory;
use crate::error::EngineError;
use crate::model::CreateJourney;
use crate::route::RouteDirectory;
use crate::time::{datetime_seconds, parse_datetime, valid_timestamp};

verus! {

/// The most stops a journey can hold.
pub const MAX_STOPS: usize = 2147483647;

/// One stop of a journey. Its stop number is its position in the journey.
#[derive(Debug, Clone, Copy, PartialEq, Eq, Structural)]
pub struct Stop {
    pub sched_id: i64,
    pub station_id: i64,
    /// Arrival, in seconds since the Unix epoch.
    pub sched_toa: i64,
    /// Departure, in seconds since the Unix epoch.
    pub sched_tod: i64,
    /// The route whose distance map measures this stop, if any.
    pub route_id: Option<i64>,
}

/// A request to place a stop in a journey at a given stop number; the stops
/// from that number on move one place down.
#[derive(Debug, Clone, Copy)]
pub struct CreateSchedule {
    pub station_id: i64,
    pub sched_toa: i64,
    pub sched_tod: i64,
    pub journey_id: i64,
    pub stop_number: i32,
    pub route_id: Option<i64>,
}

/// A stop of a journey as listed, with the distance from it to the next stop.
#[derive(Debug, Clone, PartialEq, Eq)]
pub struct ScheduleJourney {
    pub sched_id: i64,
    pub station_id: i64,
    pub station_name: Option<String>,
    pub sched_toa: i64,
    pub sched_tod: i64,
    pub journey_id: i64,
    pub stop_number: usize,
    pub route_id: Option<i64>,
    pub distance: Option<i64>,
}

/// One scheduled run of a train, owning its stops in order.
pub struct Journey {
    pub journey_id: i64,
    pub train_id: i64,
    pub start_station_id: i64,
    pub end_station_id: i64,
    pub start_time: i64,
    pub end_time: i64,
    /// The stops in order; the stop number of each is its index.
    pub stops: Vec<Stop>,
}

impl Journey {
    /// All but the stops agree.
    pub open spec fn same_header(&self, o: &Journey) -> bool {
        &&& self.journey_id == o.journey_id
        &&& self.train_id == o.train_id
        &&& self.start_station_id == o.start_station_id
        &&& self.end_station_id == o.end_station_id
        &&& self.start_time == o.start_time
        &&& self.end_time == o.end_time
    }
}

/// The distance from stop `k` to stop `k + 1`, measured on the route of stop
/// `k`: 0 for the first stop, and none where there is no next stop, stop `k`
/// has no route, or the route's distance map lacks either station.
pub open spec fn derived_distance(routes: &RouteDirectory, s: Seq<Stop>, k: int) -> Option<i64> {
    if k == 0 {
        Some(0)
    } else if k + 1 < s.len() && s[k].route_id is Some {
        let r = s[k].route_id->Some_0;
        match (routes.spec_distance(r, s[k + 1].station_id), routes.spec_distance(r, s[k].station_id)) {
            (Some(b), Some(a)) => Some((b - a) as i64),
            _ => None,
        }
    } else {
        None
    }
}

/// Row `k` of the listing of journey `j`.
pub open spec fn schedule_row(routes: &RouteDirectory, dir: &Directory, j: &Journey, k: int) -> ScheduleJourney {
    let s = j.stops@[k];
    ScheduleJourney {
        sched_id: s.sched_id,
        station_id: s.station_id,
        station_name: dir.spec_station_name(s.station_id),
        sched_toa: s.sched_toa,
        sched_tod: s.sched_tod,
        journey_id: j.journey_id,
        stop_number: k as usize,
        route_id: s.route_id,
        distance: derived_distance(routes, j.stops@, k),
    }
}

/// In the listing of a journey, stop numbers start at 0 and each stop's
/// number is one more than the one before.
pub proof fn lemma_stop_numbers_contiguous(routes: &RouteDirectory, dir: &Directory, tt: &Timetable, journey_id: i64)
    requires
        tt.wf(),
        tt.has_journey(journey_id),
    ensures
        ({
            let j = tt.journeys_view()[tt.journey_index(journey_id)];
            &&& forall|k: int| 0 <= k < j.stops@.len() ==> #[trigger] schedule_row(routes, dir, &j, k).stop_number == k
            &&& forall|k: int|
                0 <= k < j.stops@.len() - 1 ==> #[trigger] schedule_row(routes, dir, &j, k + 1).stop_number
                    == schedule_row(routes, dir, &j, k).stop_number + 1
        }),
{
    let jx = tt.journey_index(journey_id);
    assert(tt.journeys_view()[jx].stops@.len() <= MAX_STOPS);
}

/// The journeys and their stops.
pub struct Timetable {
    journeys: Vec<Journey>,
    next_journey_id: i64,
    next_sched_id: i64,
}

impl Timetable {
    pub closed spec fn journeys_view(&self) -> Seq<Journey> {
        self.journeys@
    }

    pub closed spec fn next_journey_id_view(&self) -> i64 {
        self.next_journey_id
    }

    pub closed spec fn next_sched_id_view(&self) -> i64 {
        self.next_sched_id
    }

    pub fn journeys(&self) -> (r: &Vec<Journey>)
        ensures
            r@ == self.journeys_view(),
    {
        &self.journeys
    }

    /// Journey ids are positive, distinct and below the next id to hand out;
    /// every time lies in the timetable's range; stop ids are positive and
    /// below the next id to hand out; no journey has more than `MAX_STOPS` stops.
    pub open spec fn wf(&self) -> bool {
        let js = self.journeys_view();
        &&& 1 <= self.next_journey_id_view()
        &&& 1 <= self.next_sched_id_view()
        &&& forall|i: int| #![trigger js[i]] 0 <= i < js.len() ==> 1 <= js[i].journey_id < self.next_journey_id_view()
            && valid_timestamp(js[i].start_time) && valid_timestamp(js[i].end_time) && js[i].stops@.len()
            <= MAX_STOPS
        &&& forall|i: int, j: int| 0 <= i < j < js.len() ==> js[i].journey_id != js[j].journey_id
        &&& forall|i: int, k: int|
            #![trigger js[i].stops@[k]]
            0 <= i < js.len() && 0 <= k < js[i].stops@.len() ==> valid_timestamp(
                js[i].stops@[k].sched_toa,
            ) && valid_timestamp(js[i].stops@[k].sched_tod) && 1 <= js[i].stops@[k].sched_id
                < self.next_sched_id_view()
    }

    pub open spec fn has_journey(&self, id: i64) -> bool {
        exists|i: int| 0 <= i < self.journeys_view().len() && #[trigger] self.journeys_view()[i].journey_id == id
    }

    /// The position of journey `id` among the journeys.
    pub open spec fn journey_index(&self, id: i64) -> int {
        choose|i: int| 0 <= i < self.journeys_view().len() && #[trigger] self.journeys_view()[i].journey_id == id
    }

    pub fn new() -> (r: Timetable)
        ensures
            r.wf(),
            r.journeys_view().len() == 0,
            r.next_journey_id_view() == 1,
            r.next_sched_id_view() == 1,
    {
        Timetable { journeys: Vec::new(), next_journey_id: 1, next_sched_id: 1 }
    }

    /// Schedules a run of a train under a fresh id, with no stops yet.
    pub fn add_journey(
        &mut self,
        train_id: i64,
        start_station_id: i64,
        end_station_id: i64,
        start_time: i64,
        end_time: i64,
    ) -> (r: Result<i64, EngineError>)
        requires
            old(self).wf(),
        ensures
            final(self).wf(),
            r == Err::<i64, EngineError>(EngineError::InvalidArgument) <==> (train_id == 0 || start_station_id == 0
                || end_station_id == 0 || !valid_timestamp(start_time) || !valid_timestamp(end_time)),
            r == Err::<i64, EngineError>(EngineError::StorageFailure) <==> (train_id != 0 && start_station_id != 0
                && end_station_id != 0 && valid_timestamp(start_time) && valid_timestamp(end_time)
                && old(self).next_journey_id_view() == i64::MAX),
            r is Ok <==> (train_id != 0 && start_station_id != 0 && end_station_id != 0 && valid_timestamp(start_time)
                && valid_timestamp(end_time) && old(self).next_journey_id_view() < i64::MAX),
            r is Err ==> *final(self) == *old(self),
            r is Ok ==> {
                let js = final(self).journeys_view();
                let n = old(self).journeys_view().len();
                &&& !old(self).has_journey(r->Ok_0)
                &&& final(self).has_journey(r->Ok_0)
                &&& final(self).next_sched_id_view() == old(self).next_sched_id_view()
                &&& js.len() == n + 1
                &&& forall|i: int| 0 <= i < n ==> #[trigger] js[i] == old(self).journeys_view()[i]
                &&& js[n as int].journey_id == r->Ok_0
                &&& js[n as int].train_id == train_id
                &&& js[n as int].start_station_id == start_station_id
                &&& js[n as int].end_station_id == end_station_id
                &&& js[n as int].start_time == start_time
                &&& js[n as int].end_time == end_time
                &&& js[n as int].stops@.len() == 0
            },
    {
        if train_id == 0 || start_station_id == 0 || end_station_id == 0 || start_time
            < crate::time::MIN_TIMESTAMP || start_time > crate::time::MAX_TIMESTAMP || end_time
            < crate::time::MIN_TIMESTAMP || end_time > crate::time::MAX_TIMESTAMP {
            return Err(EngineError::InvalidArgument);
        }
        if self.next_journey_id == i64::MAX {
            return Err(EngineError::StorageFailure);
        }
        let id = self.next_journey_id;
        self.journeys.push(
            Journey { journey_id: id, train_id, start_station_id, end_station_id, start_time, end_time, stops: Vec::new() },
        );
        self.next_journey_id = id + 1;
        proof {
            let js = self.journeys_view();
            let o = old(self).journeys_view();
            assert(js[o.len() as int].journey_id == id);
            assert(forall|i: int| 0 <= i < o.len() ==> js[i] == o[i]);
            assert forall|i: int, j: int| 0 <= i < j < js.len() implies js[i].journey_id != js[j].journey_id by {
                if j == o.len() {
                    assert(o[i].journey_id < id);
                }
            }
            assert forall|i: int| #![trigger o[i]] 0 <= i < o.len() implies o[i].journey_id != id by {
                assert(o[i].journey_id < id);
            }
        }
        Ok(id)
    }

    /// Records a journey that already has an id, as read back from storage,
    /// with no stops yet.
    pub fn insert_journey(
        &mut self,
        journey_id: i64,
        train_id: i64,
        start_station_id: i64,
        end_station_id: i64,
        start_time: i64,
        end_time: i64,
    ) -> (r: Result<(), EngineError>)
        requires
            old(self).wf(),
        ensures
            final(self).wf(),
            r == Err::<(), EngineError>(EngineError::InvalidArgument) <==> (journey_id < 1 || journey_id == i64::MAX
                || !valid_timestamp(start_time) || !valid_timestamp(end_time)),
            r == Err::<(), EngineError>(EngineError::Conflict) <==> (1 <= journey_id < i64::MAX && valid_timestamp(
                start_time,
            ) && valid_timestamp(end_time) && old(self).has_journey(journey_id)),
            r is Ok <==> (1 <= journey_id < i64::MAX && valid_timestamp(start_time) && valid_timestamp(end_time)
                && !old(self).has_journey(journey_id)),
            r is Err ==> *final(self) == *old(self),
            r is Ok ==> {
                let js = final(self).journeys_view();
                let n = old(self).journeys_view().len();
                &&& js.len() == n + 1
                &&& forall|i: int| 0 <= i < n ==> #[trigger] js[i] == old(self).journeys_view()[i]
                &&& js[n as int].journey_id == journey_id
                &&& js[n as int].train_id == train_id
                &&& js[n as int].start_station_id == start_station_id
                &&& js[n as int].end_station_id == end_station_id
                &&& js[n as int].start_time == start_time
                &&& js[n as int].end_time == end_time
                &&& js[n as int].stops@.len() == 0
                &&& final(self).next_sched_id_view() == old(self).next_sched_id_view()
                &&& final(self).has_journey(journey_id)
            },
    {
        if journey_id < 1 || journey_id == i64::MAX || start_time < crate::time::MIN_TIMESTAMP || start_time
            > crate::time::MAX_TIMESTAMP || end_time < crate::time::MIN_TIMESTAMP || end_time
            > crate::time::MAX_TIMESTAMP {
            return Err(EngineError::InvalidArgument);
        }
        if self.find_journey(journey_id).is_some() {
            return Err(EngineError::Conflict);
        }
        self.journeys.push(
            Journey { journey_id, train_id, start_station_id, end_station_id, start_time, end_time, stops: Vec::new() },
        );
        if self.next_journey_id <= journey_id {
            self.next_journey_id = journey_id + 1;
        }
        proof {
            let js = self.journeys_view();
            let o = old(self).journeys_view();
            assert(js[o.len() as int].journey_id == journey_id);
            assert(forall|i: int| 0 <= i < o.len() ==> js[i] == o[i]);
            assert forall|i: int| #![trigger js[i]] 0 <= i < js.len() implies 1 <= js[i].journey_id
                < self.next_journey_id_view() && valid_timestamp(js[i].start_time) && valid_timestamp(js[i].end_time)
                && js[i].stops@.len() <= MAX_STOPS by {
                if i < o.len() {
                    assert(o[i].journey_id < old(self).next_journey_id_view());
                }
            }
            assert forall|i: int, j: int| 0 <= i < j < js.len() implies js[i].journey_id != js[j].journey_id by {
                if j == o.len() {
                    assert(o[i].journey_id != journey_id);
                }
            }
            assert forall|i: int, k: int|
                #![trigger js[i].stops@[k]]
                0 <= i < js.len() && 0 <= k < js[i].stops@.len() implies valid_timestamp(js[i].stops@[k].sched_toa)
                && valid_timestamp(js[i].stops@[k].sched_tod) && 1 <= js[i].stops@[k].sched_id
                < self.next_sched_id_view() by {
                assert(js[i] == o[i]);
                assert(o[i].stops@[k] == js[i].stops@[k]);
            }
        }
        Ok(())
    }

    /// Adds a stop that already has an id at the end of a journey, as read
    /// back from storage in stop-number order.
    pub fn append_stop(&mut self, journey_id: i64, stop: Stop) -> (r: Result<(), EngineError>)
        requires
            old(self).wf(),
        ensures
            final(self).wf(),
            r == Err::<(), EngineError>(EngineError::InvalidArgument) <==> (stop.sched_id < 1 || stop.sched_id
                == i64::MAX || !valid_timestamp(stop.sched_toa) || !valid_timestamp(stop.sched_tod)),
            r == Err::<(), EngineError>(EngineError::NotFound) <==> (1 <= stop.sched_id < i64::MAX && valid_timestamp(
                stop.sched_toa,
            ) && valid_timestamp(stop.sched_tod) && !old(self).has_journey(journey_id)),
            r == Err::<(), EngineError>(EngineError::StorageFailure) <==> (1 <= stop.sched_id < i64::MAX
                && valid_timestamp(stop.sched_toa) && valid_timestamp(stop.sched_tod) && old(self).has_journey(
                journey_id,
            ) && old(self).journeys_view()[old(self).journey_index(journey_id)].stops@.len() == MAX_STOPS),
            r is Err ==> *final(self) == *old(self),
            r is Ok ==> {
                let jx = old(self).journey_index(journey_id);
                final(self).changed_only(old(self), jx, old(self).journeys_view()[jx].stops@.push(stop))
            },
    {
        if stop.sched_id < 1 || stop.sched_id == i64::MAX || stop.sched_toa < crate::time::MIN_TIMESTAMP
            || stop.sched_toa > crate::time::MAX_TIMESTAMP || stop.sched_tod < crate::time::MIN_TIMESTAMP
            || stop.sched_tod > crate::time::MAX_TIMESTAMP {
            return Err(EngineError::InvalidArgument);
        }
        let jx = match self.find_journey(journey_id) {
            None => return Err(EngineError::NotFound),
            Some(i) => i,
        };
        if self.journeys[jx].stops.len() == MAX_STOPS {
            return Err(EngineError::StorageFailure);
        }
        let ghost old_stops = self.journeys@[jx as int].stops@;
        let mut jr = self.journeys.remove(jx);
        jr.stops.push(stop);
        self.journeys.insert(jx, jr);
        if self.next_sched_id <= stop.sched_id {
            self.next_sched_id = stop.sched_id + 1;
        }
        proof {
            let js = self.journeys_view();
            let os = old(self).journeys_view();
            assert(js =~= os.update(jx as int, js[jx as int]));
            let ns = js[jx as int].stops@;
            assert(ns == old_stops.push(stop));
            assert forall|i: int, k: int|
                #![trigger js[i].stops@[k]]
                0 <= i < js.len() && 0 <= k < js[i].stops@.len() implies valid_timestamp(js[i].stops@[k].sched_toa)
                && valid_timestamp(js[i].stops@[k].sched_tod) && 1 <= js[i].stops@[k].sched_id
                < self.next_sched_id_view() by {
                if i == jx as int {
                    if k < old_stops.len() {
                        assert(ns[k] == old_stops[k]);
                        assert(os[i].stops@[k] == old_stops[k]);
                    }
                } else {
                    assert(js[i] == os[i]);
                    assert(os[i].stops@[k] == js[i].stops@[k]);
                }
            }
            assert forall|i: int| #![trigger js[i]] 0 <= i < js.len() implies 1 <= js[i].journey_id
                < self.next_journey_id_view() && valid_timestamp(js[i].start_time) && valid_timestamp(js[i].end_time)
                && js[i].stops@.len() <= MAX_STOPS by {
                assert(os[i].journey_id == js[i].journey_id);
            }
            assert forall|i: int, j: int| 0 <= i < j < js.len() implies js[i].journey_id != js[j].journey_id by {
                assert(os[i].journey_id == js[i].journey_id);
                assert(os[j].journey_id == js[j].journey_id);
            }
        }
        Ok(())
    }

    /// Schedules a run of a train from a request whose times are text of the
    /// form `YYYY-MM-DD HH:MM:SS` (UTC).
    pub fn create_journey(&mut self, req: &CreateJourney) -> (r: Result<i64, EngineError>)
        requires
            old(self).wf(),
        ensures
            final(self).wf(),
            (datetime_seconds(req.start_time@) is None || datetime_seconds(req.end_time@) is None) ==> r
                == Err::<i64, EngineError>(EngineError::InvalidArgument) && *final(self) == *old(self),
            datetime_seconds(req.start_time@) is Some && datetime_seconds(req.end_time@) is Some ==> (r is Ok <==> (
            req.train_id != 0 && req.start_station_id != 0 && req.end_station_id != 0 && valid_timestamp(
                datetime_seconds(req.start_time@)->Some_0,
            ) && valid_timestamp(datetime_seconds(req.end_time@)->Some_0) && old(self).next_journey_id_view()
                < i64::MAX)),
            datetime_seconds(req.start_time@) is Some && datetime_seconds(req.end_time@) is Some && r is Err ==> (r
                == Err::<i64, EngineError>(EngineError::StorageFailure) <==> (req.train_id != 0 && req.start_station_id
                != 0 && req.end_station_id != 0 && valid_timestamp(datetime_seconds(req.start_time@)->Some_0)
                && valid_timestamp(datetime_seconds(req.end_time@)->Some_0))),
            r is Ok ==> {
                let js = final(self).journeys_view();
                let n = old(self).journeys_view().len();
                &&& datetime_seconds(req.start_time@) == Some(js[n as int].start_time)
                &&& datetime_seconds(req.end_time@) == Some(js[n as int].end_time)
                &&& !old(self).has_journey(r->Ok_0)
                &&& js.len() == n + 1
                &&& forall|i: int| 0 <= i < n ==> #[trigger] js[i] == old(self).journeys_view()[i]
                &&& js[n as int].journey_id == r->Ok_0
                &&& js[n as int].train_id == req.train_id
                &&& js[n as int].start_station_id == req.start_station_id
                &&& js[n as int].end_station_id == req.end_station_id
                &&& js[n as int].stops@.len() == 0
            },
            r is Err ==> *final(self) == *old(self),
    {
        let start = parse_datetime(req.start_time.as_str());
        let end = parse_datetime(req.end_time.as_str());
        match (start, end) {
            (Some(s), Some(e)) => self.add_journey(req.train_id, req.start_station_id, req.end_station_id, s, e),
            _ => Err(EngineError::InvalidArgument),
        }
    }

    /// The arguments of a stop request that are malformed by themselves.
    pub open spec fn bad_stop_request(req: CreateSchedule) -> bool {
        req.station_id == 0 || req.stop_number < 0 || !valid_timestamp(req.sched_toa) || !valid_timestamp(
            req.sched_tod,
        )
    }

    /// Journey `jx` has become `j`; every other journey is as it was.
    pub open spec fn changed_only(&self, o: &Timetable, jx: int, stops: Seq<Stop>) -> bool {
        let js = self.journeys_view();
        let os = o.journeys_view();
        &&& js.len() == os.len()
        &&& forall|i: int| 0 <= i < js.len() && i != jx ==> #[trigger] js[i] == os[i]
        &&& js[jx].same_header(&os[jx])
        &&& js[jx].stops@ == stops
        &&& self.next_journey_id_view() == o.next_journey_id_view()
    }

    /// Places a stop in a journey at the requested stop number, moving the
    /// stops from that number on one place down; returns the new stop's id.
    pub fn insert_stop(&mut self, req: &CreateSchedule) -> (r: Result<i64, EngineError>)
        requires
            old(self).wf(),
        ensures
            final(self).wf(),
            Self::bad_stop_request(*req) ==> r == Err::<i64, EngineError>(EngineError::InvalidArgument),
            !Self::bad_stop_request(*req) && !old(self).has_journey(req.journey_id) ==> r == Err::<i64, EngineError>(
                EngineError::NotFound,
            ),
            !Self::bad_stop_request(*req) && old(self).has_journey(req.journey_id) ==> {
                let stops = old(self).journeys_view()[old(self).journey_index(req.journey_id)].stops@;
                &&& req.stop_number > stops.len() ==> r == Err::<i64, EngineError>(EngineError::InvalidArgument)
                &&& req.stop_number <= stops.len() && (old(self).next_sched_id_view() == i64::MAX || stops.len()
                    == MAX_STOPS) ==> r == Err::<i64, EngineError>(EngineError::StorageFailure)
                &&& req.stop_number <= stops.len() && old(self).next_sched_id_view() < i64::MAX && stops.len()
                    < MAX_STOPS ==> r is Ok
            },
            r is Err ==> *final(self) == *old(self),
            r is Ok ==> {
                let jx = old(self).journey_index(req.journey_id);
                let stop = Stop {
                    sched_id: r->Ok_0,
                    station_id: req.station_id,
                    sched_toa: req.sched_toa,
                    sched_tod: req.sched_tod,
                    route_id: req.route_id,
                };
                &&& r->Ok_0 == old(self).next_sched_id_view()
                &&& final(self).changed_only(
                    old(self),
                    jx,
                    old(self).journeys_view()[jx].stops@.insert(req.stop_number as int, stop),
                )
            },
    {
        if req.station_id == 0 || req.stop_number < 0 || req.sched_toa < crate::time::MIN_TIMESTAMP || req.sched_toa
            > crate::time::MAX_TIMESTAMP || req.sched_tod < crate::time::MIN_TIMESTAMP || req.sched_tod
            > crate::time::MAX_TIMESTAMP {
            return Err(EngineError::InvalidArgument);
        }
        let jx = match self.find_journey(req.journey_id) {
            None => return Err(EngineError::NotFound),
            Some(i) => i,
        };
        let p = req.stop_number as usize;
        if p > self.journeys[jx].stops.len() {
            return Err(EngineError::InvalidArgument);
        }
        if self.next_sched_id == i64::MAX || self.journeys[jx].stops.len() == MAX_STOPS {
            return Err(EngineError::StorageFailure);
        }
        let id = self.next_sched_id;
        let stop = Stop {
            sched_id: id,
            station_id: req.station_id,
            sched_toa: req.sched_toa,
            sched_tod: req.sched_tod,
            route_id: req.route_id,
        };
        let ghost old_stops = self.journeys@[jx as int].stops@;
        let mut jr = self.journeys.remove(jx);
        jr.stops.insert(p, stop);
        self.journeys.insert(jx, jr);
        self.next_sched_id = id + 1;
        proof {
            let js = self.journeys_view();
            let os = old(self).journeys_view();
            assert(js =~= os.update(jx as int, js[jx as int]));
            let ns = js[jx as int].stops@;
            assert(ns == old_stops.insert(p as int, stop));
            assert forall|i: int, k: int|
                #![trigger js[i].stops@[k]]
                0 <= i < js.len() && 0 <= k < js[i].stops@.len() implies valid_timestamp(js[i].stops@[k].sched_toa)
                && valid_timestamp(js[i].stops@[k].sched_tod) && 1 <= js[i].stops@[k].sched_id
                < self.next_sched_id_view() by {
                if i == jx as int {
                    if k < p {
                        assert(ns[k] == old_stops[k]);
                        assert(os[i].stops@[k] == old_stops[k]);
                    } else if k > p {
                        assert(ns[k] == old_stops[k - 1]);
                        assert(os[i].stops@[k - 1] == old_stops[k - 1]);
                    }
                } else {
                    assert(js[i] == os[i]);
                    assert(os[i].stops@[k] == js[i].stops@[k]);
                }
            }
            assert forall|i: int| #![trigger js[i]] 0 <= i < js.len() implies 1 <= js[i].journey_id
                < self.next_journey_id_view() && valid_timestamp(js[i].start_time) && valid_timestamp(js[i].end_time)
                && js[i].stops@.len() <= MAX_STOPS by {
                assert(os[i].journey_id == js[i].journey_id);
            }
            assert forall|i: int, j: int| 0 <= i < j < js.len() implies js[i].journey_id != js[j].journey_id by {
                assert(os[i].journey_id == js[i].journey_id);
                assert(os[j].journey_id == js[j].journey_id);
            }
        }
        Ok(id)
    }

    /// Takes stop `k` out of journey `journey_id`; the stops after it move one
    /// place up. Returns the stop that was taken out.
    pub fn remove_stop(&mut self, journey_id: i64, k: usize) -> (r: Result<Stop, EngineError>)
        requires
            old(self).wf(),
        ensures
            final(self).wf(),
            r is Err <==> (!old(self).has_journey(journey_id) || k >= old(self).journeys_view()[old(
                self,
            ).journey_index(journey_id)].stops@.len()),
            r is Err ==> r == Err::<Stop, EngineError>(EngineError::NotFound) && *final(self) == *old(self),
            r is Ok ==> {
                let jx = old(self).journey_index(journey_id);
                let stops = old(self).journeys_view()[jx].stops@;
                &&& r->Ok_0 == stops[k as int]
                &&& final(self).changed_only(old(self), jx, stops.remove(k as int))
                &&& final(self).next_sched_id_view() == old(self).next_sched_id_view()
            },
    {
        let jx = match self.find_journey(journey_id) {
            None => return Err(EngineError::NotFound),
            Some(i) => i,
        };
        if k >= self.journeys[jx].stops.len() {
            return Err(EngineError::NotFound);
        }
        let ghost old_stops = self.journeys@[jx as int].stops@;
        let mut jr = self.journeys.remove(jx);
        let stop = jr.stops.remove(k);
        self.journeys.insert(jx, jr);
        proof {
            let js = self.journeys_view();
            let os = old(self).journeys_view();
            assert(js =~= os.update(jx as int, js[jx as int]));
            let ns = js[jx as int].stops@;
            assert(ns == old_stops.remove(k as int));
            assert forall|i: int, q: int|
                #![trigger js[i].stops@[q]]
                0 <= i < js.len() && 0 <= q < js[i].stops@.len() implies valid_timestamp(js[i].stops@[q].sched_toa)
                && valid_timestamp(js[i].stops@[q].sched_tod) && 1 <= js[i].stops@[q].sched_id
                < self.next_sched_id_view() by {
                if i == jx as int {
                    if q < k {
                        assert(os[i].stops@[q] == old_stops[q]);
                    } else {
                        assert(ns[q] == old_stops[q + 1]);
                        assert(os[i].stops@[q + 1] == old_stops[q + 1]);
                    }
                } else {
                    assert(js[i] == os[i]);
                    assert(os[i].stops@[q] == js[i].stops@[q]);
                }
            }
            assert forall|i: int| #![trigger js[i]] 0 <= i < js.len() implies 1 <= js[i].journey_id
                < self.next_journey_id_view() && valid_timestamp(js[i].start_time) && valid_timestamp(js[i].end_time)
                && js[i].stops@.len() <= MAX_STOPS by {
                assert(os[i].journey_id == js[i].journey_id);
            }
            assert forall|i: int, j: int| 0 <= i < j < js.len() implies js[i].journey_id != js[j].journey_id by {
                assert(os[i].journey_id == js[i].journey_id);
                assert(os[j].journey_id == js[j].journey_id);
            }
        }
        Ok(stop)
    }

    /// The journey and stop number of the stop with id `sched_id`, the first
    /// one found where several share it.
    pub fn locate_stop(&self, sched_id: i64) -> (r: Option<(i64, usize)>)
        requires
            self.wf(),
        ensures
            r is None ==> forall|i: int, k: int|
                0 <= i < self.journeys_view().len() && 0 <= k < self.journeys_view()[i].stops@.len()
                    ==> #[trigger] self.journeys_view()[i].stops@[k].sched_id != sched_id,
            r matches Some((jid, k)) ==> {
                &&& self.has_journey(jid)
                &&& k < self.journeys_view()[self.journey_index(jid)].stops@.len()
                &&& self.journeys_view()[self.journey_index(jid)].stops@[k as int].sched_id == sched_id
            },
    {
        let mut i: usize = 0;
        while i < self.journeys.len()
            invariant
                i <= self.journeys@.len(),
                self.wf(),
                forall|a: int, k: int|
                    0 <= a < i && 0 <= k < self.journeys@[a].stops@.len()
                        ==> #[trigger] self.journeys@[a].stops@[k].sched_id != sched_id,
            decreases self.journeys@.len() - i,
        {
            let stops = &self.journeys[i].stops;
            let mut k: usize = 0;
            while k < stops.len()
                invariant
                    k <= stops@.len(),
                    i < self.journeys@.len(),
                    self.wf(),
                    *stops == self.journeys@[i as int].stops,
                    forall|q: int| 0 <= q < k ==> #[trigger] stops@[q].sched_id != sched_id,
                    forall|a: int, q: int|
                        0 <= a < i && 0 <= q < self.journeys@[a].stops@.len()
                            ==> #[trigger] self.journeys@[a].stops@[q].sched_id != sched_id,
                decreases stops@.len() - k,
            {
                if stops[k].sched_id == sched_id {
                    let jid = self.journeys[i].journey_id;
                    proof {
                        assert(self.journeys_view()[i as int].journey_id == jid);
                        let c = self.journey_index(jid);
                        assert(c == i as int);
                    }
                    return Some((jid, k));
                }
                k += 1;
            }
            i += 1;
        }
        None
    }

    /// The stops of journey `journey_id` in order, each with its stop number,
    /// its station's name and the distance to the next stop.
    pub fn schedule_for_journey(&self, routes: &RouteDirectory, dir: &Directory, journey_id: i64) -> (r: Result<
        Vec<ScheduleJourney>,
        EngineError,
    >)
        requires
            self.wf(),
            routes.wf(),
            dir.wf(),
        ensures
            r is Err <==> !self.has_journey(journey_id),
            r is Err ==> r == Err::<Vec<ScheduleJourney>, EngineError>(EngineError::NotFound),
            r is Ok ==> {
                let j = self.journeys_view()[self.journey_index(journey_id)];
                &&& r->Ok_0@.len() == j.stops@.len()
                &&& forall|k: int| 0 <= k < r->Ok_0@.len() ==> #[trigger] r->Ok_0@[k] == schedule_row(routes, dir, &j, k)
                &&& forall|k: int| 0 <= k < r->Ok_0@.len() ==> #[trigger] r->Ok_0@[k].stop_number == k
            },
    {
        let jx = match self.find_journey(journey_id) {
            None => return Err(EngineError::NotFound),
            Some(i) => i,
        };
        let j = &self.journeys[jx];
        let mut out: Vec<ScheduleJourney> = Vec::new();
        let mut k: usize = 0;
        while k < j.stops.len()
            invariant
                k <= j.stops@.len(),
                routes.wf(),
                dir.wf(),
                out@.len() == k,
                forall|q: int| 0 <= q < k ==> #[trigger] out@[q] == schedule_row(routes, dir, j, q),
            decreases j.stops@.len() - k,
        {
            let s = j.stops[k];
            let distance = next_distance(routes, &j.stops, k);
            out.push(
                ScheduleJourney {
                    sched_id: s.sched_id,
                    station_id: s.station_id,
                    station_name: dir.station_name(s.station_id),
                    sched_toa: s.sched_toa,
                    sched_tod: s.sched_tod,
                    journey_id: j.journey_id,
                    stop_number: k,
                    route_id: s.route_id,
                    distance,
                },
            );
            k += 1;
        }
        Ok(out)
    }

    /// The position of journey `id`, where it exists.
    pub fn find_journey(&self, id: i64) -> (r: Option<usize>)
        requires
            self.wf(),
        ensures
            r is None <==> !self.has_journey(id),
            r is Some ==> r->Some_0 == self.journey_index(id) && r->Some_0 < self.journeys_view().len(),
    {
        let mut i: usize = 0;
        while i < self.journeys.len()
            invariant
                i <= self.journeys@.len(),
                self.wf(),
                forall|k: int| 0 <= k < i ==> #[trigger] self.journeys@[k].journey_id != id,
            decreases self.journeys@.len() - i,
        {
            if self.journeys[i].journey_id == id {
                proof {
                    assert(self.journeys_view()[i as int].journey_id == id);
                    let c = self.journey_index(id);
                    assert(c == i as int);
                }
                return Some(i);
            }
            i += 1;
        }
        None
    }
}

/// The distance from stop `k` to the next one.
fn next_distance(routes: &RouteDirectory, stops: &Vec<Stop>, k: usize) -> (d: Option<i64>)
    requires
        routes.wf(),
        k < stops@.len(),
    ensures
        d == derived_distance(routes, stops@, k as int),
{
    if k == 0 {
        return Some(0);
    }
    if k >= stops.len() - 1 {
        return None;
    }
    match stops[k].route_id {
        None => None,
        Some(r) => {
            let next = routes.distance(r, stops[k + 1].station_id);
            let here = routes.distance(r, stops[k].station_id);
            match (next, here) {
                (Some(b), Some(a)) => {
                    proof {
                        routes.lemma_distance_non_negative(r, stops@[k + 1].station_id);
                        routes.lemma_distance_non_negative(r, stops@[k as int].station_id);
                    }
                    Some(b - a)
                },
                _ => None,
            }
        },
    }
}

} // verus!
