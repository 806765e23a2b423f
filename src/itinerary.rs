use vstd::prelude::*;
use crate::directory::Directory;
use crate::error::EngineError;
use crate::schedule::{Journey, Timetable, MAX_STOPS};
use crate::time::{day_of, spec_day_of, valid_timestamp};

verus! {

/// A way to travel between two stations on one journey: board at one stop,
/// leave at a later one.
#[derive(Debug, Clone, PartialEq, Eq)]
pub struct JourneyBetweenStations {
    pub journey_id: i64,
    pub train_id: i64,
    pub train_name: Option<String>,
    pub start_station_id: i64,
    pub start_schedule_id: i64,
    pub start_station: Option<String>,
    pub end_station_id: i64,
    pub end_schedule_id: i64,
    pub end_station: Option<String>,
    /// Arrival at the boarding stop.
    pub start_time: i64,
    /// Arrival at the leaving stop.
    pub end_time: i64,
    pub start_stop_number: usize,
    pub end_stop_number: usize,
    /// Seconds from arrival at the boarding stop to arrival at the leaving stop.
    pub travel_time: i64,
}

/// The leg of journey `j` from stop `a` to stop `b`.
pub open spec fn leg(dir: &Directory, j: &Journey, a: int, b: int) -> JourneyBetweenStations {
    let s = j.stops@;
    JourneyBetweenStations {
        journey_id: j.journey_id,
        train_id: j.train_id,
        train_name: dir.spec_train_name(j.train_id),
        start_station_id: s[a].station_id,
        start_schedule_id: s[a].sched_id,
        start_station: dir.spec_station_name(s[a].station_id),
        end_station_id: s[b].station_id,
        end_schedule_id: s[b].sched_id,
        end_station: dir.spec_station_name(s[b].station_id),
        start_time: s[a].sched_toa,
        end_time: s[b].sched_toa,
        start_stop_number: a as usize,
        end_stop_number: b as usize,
        travel_time: (s[b].sched_toa - s[a].sched_toa) as i64,
    }
}

/// Stop `a` of `j` is at station `src` and the train reaches it on `day`.
pub open spec fn boards_at(j: &Journey, a: int, src: i64, day: i64) -> bool {
    j.stops@[a].station_id == src && spec_day_of(j.stops@[a].sched_toa) == day as int
}

/// The legs of `j` from stop `a` to the stops at `dst` before stop `b_end`.
pub open spec fn legs_from(dir: &Directory, j: &Journey, a: int, dst: i64, b_end: int) -> Seq<JourneyBetweenStations>
    decreases b_end - a,
{
    if b_end <= a + 1 {
        Seq::empty()
    } else {
        let prev = legs_from(dir, j, a, dst, b_end - 1);
        if j.stops@[b_end - 1].station_id == dst {
            prev.push(leg(dir, j, a, b_end - 1))
        } else {
            prev
        }
    }
}

/// The legs of `j` from `src` on `day` to `dst` that board before stop `a_end`.
pub open spec fn legs_of_journey(dir: &Directory, j: &Journey, src: i64, dst: i64, day: i64, a_end: int) -> Seq<
    JourneyBetweenStations,
>
    decreases a_end,
{
    if a_end <= 0 {
        Seq::empty()
    } else {
        let prev = legs_of_journey(dir, j, src, dst, day, a_end - 1);
        if boards_at(j, a_end - 1, src, day) {
            prev + legs_from(dir, j, a_end - 1, dst, j.stops@.len() as int)
        } else {
            prev
        }
    }
}

/// The legs from `src` on `day` to `dst` of the first `n` journeys of `js`.
pub open spec fn legs_upto(dir: &Directory, js: Seq<Journey>, src: i64, dst: i64, day: i64, n: int) -> Seq<
    JourneyBetweenStations,
>
    decreases n,
{
    if n <= 0 {
        Seq::empty()
    } else {
        legs_upto(dir, js, src, dst, day, n - 1) + legs_of_journey(
            dir,
            &js[n - 1],
            src,
            dst,
            day,
            js[n - 1].stops@.len() as int,
        )
    }
}

/// Every way to travel from `src`, boarding on `day`, to `dst`: journeys in
/// timetable order, then boarding stops in order, then leaving stops in order.
pub open spec fn itinerary(tt: &Timetable, dir: &Directory, src: i64, dst: i64, day: i64) -> Seq<
    JourneyBetweenStations,
> {
    legs_upto(dir, tt.journeys_view(), src, dst, day, tt.journeys_view().len() as int)
}

/// A leg that boards at `src` and leaves, later in the journey, at `dst`.
pub open spec fn leg_shape(l: JourneyBetweenStations, src: i64, dst: i64) -> bool {
    l.start_stop_number < l.end_stop_number && l.start_station_id == src && l.end_station_id == dst
}

proof fn lemma_legs_from_shape(dir: &Directory, j: &Journey, a: int, src: i64, dst: i64, b_end: int)
    requires
        0 <= a < j.stops@.len(),
        b_end <= j.stops@.len(),
        j.stops@.len() <= MAX_STOPS,
        j.stops@[a].station_id == src,
    ensures
        forall|k: int| #![trigger legs_from(dir, j, a, dst, b_end)[k]] 0 <= k < legs_from(dir, j, a, dst, b_end).len()
            ==> leg_shape(legs_from(dir, j, a, dst, b_end)[k], src, dst),
    decreases b_end - a,
{
    if b_end > a + 1 {
        lemma_legs_from_shape(dir, j, a, src, dst, b_end - 1);
        let prev = legs_from(dir, j, a, dst, b_end - 1);
        let cur = legs_from(dir, j, a, dst, b_end);
        if j.stops@[b_end - 1].station_id == dst {
            assert forall|k: int| 0 <= k < cur.len() implies leg_shape(#[trigger] cur[k], src, dst) by {
                if k < prev.len() {
                    assert(cur[k] == prev[k]);
                }
            }
        }
    }
}

proof fn lemma_legs_of_journey_shape(dir: &Directory, j: &Journey, src: i64, dst: i64, day: i64, a_end: int)
    requires
        a_end <= j.stops@.len(),
        j.stops@.len() <= MAX_STOPS,
    ensures
        forall|k: int|
            #![trigger legs_of_journey(dir, j, src, dst, day, a_end)[k]]
            0 <= k < legs_of_journey(dir, j, src, dst, day, a_end).len() ==> leg_shape(
                legs_of_journey(dir, j, src, dst, day, a_end)[k],
                src,
                dst,
            ),
    decreases a_end,
{
    if a_end > 0 {
        lemma_legs_of_journey_shape(dir, j, src, dst, day, a_end - 1);
        if boards_at(j, a_end - 1, src, day) {
            lemma_legs_from_shape(dir, j, a_end - 1, src, dst, j.stops@.len() as int);
            let prev = legs_of_journey(dir, j, src, dst, day, a_end - 1);
            let row = legs_from(dir, j, a_end - 1, dst, j.stops@.len() as int);
            let cur = legs_of_journey(dir, j, src, dst, day, a_end);
            assert forall|k: int| 0 <= k < cur.len() implies leg_shape(#[trigger] cur[k], src, dst) by {
                if k < prev.len() {
                    assert(cur[k] == prev[k]);
                } else {
                    assert(cur[k] == row[k - prev.len()]);
                }
            }
        } else {
            assert(legs_of_journey(dir, j, src, dst, day, a_end) == legs_of_journey(dir, j, src, dst, day, a_end - 1));
        }
    }
}

proof fn lemma_legs_upto_shape(dir: &Directory, js: Seq<Journey>, src: i64, dst: i64, day: i64, n: int)
    requires
        n <= js.len(),
        forall|i: int| 0 <= i < js.len() ==> (#[trigger] js[i]).stops@.len() <= MAX_STOPS,
    ensures
        forall|k: int|
            #![trigger legs_upto(dir, js, src, dst, day, n)[k]]
            0 <= k < legs_upto(dir, js, src, dst, day, n).len() ==> leg_shape(
                legs_upto(dir, js, src, dst, day, n)[k],
                src,
                dst,
            ),
    decreases n,
{
    if n > 0 {
        lemma_legs_upto_shape(dir, js, src, dst, day, n - 1);
        lemma_legs_of_journey_shape(dir, &js[n - 1], src, dst, day, js[n - 1].stops@.len() as int);
        let prev = legs_upto(dir, js, src, dst, day, n - 1);
        let row = legs_of_journey(dir, &js[n - 1], src, dst, day, js[n - 1].stops@.len() as int);
        let cur = legs_upto(dir, js, src, dst, day, n);
        assert forall|k: int| 0 <= k < cur.len() implies leg_shape(#[trigger] cur[k], src, dst) by {
            if k < prev.len() {
                assert(cur[k] == prev[k]);
            } else {
                assert(cur[k] == row[k - prev.len()]);
            }
        }
    }
}

/// Every leg found boards at the source station and leaves at the
/// destination station at a later stop of the same journey.
pub proof fn lemma_itinerary_order(tt: &Timetable, dir: &Directory, src: i64, dst: i64, day: i64)
    requires
        tt.wf(),
    ensures
        forall|k: int|
            #![trigger itinerary(tt, dir, src, dst, day)[k]]
            0 <= k < itinerary(tt, dir, src, dst, day).len() ==> leg_shape(itinerary(tt, dir, src, dst, day)[k], src, dst),
{
    lemma_legs_upto_shape(dir, tt.journeys_view(), src, dst, day, tt.journeys_view().len() as int);
}

/// Searching from `a` to `b` and from `b` to `a` on the same day finds no leg
/// in common, for two different stations.
pub proof fn lemma_swapped_search_disjoint(tt: &Timetable, dir: &Directory, a: i64, b: i64, day: i64)
    requires
        tt.wf(),
        a != b,
    ensures
        forall|k1: int, k2: int|
            0 <= k1 < itinerary(tt, dir, a, b, day).len() && 0 <= k2 < itinerary(tt, dir, b, a, day).len()
                ==> #[trigger] itinerary(tt, dir, a, b, day)[k1] != #[trigger] itinerary(tt, dir, b, a, day)[k2],
{
    lemma_itinerary_order(tt, dir, a, b, day);
    lemma_itinerary_order(tt, dir, b, a, day);
}

/// Finds every leg from `source`, boarding on calendar day `day` (days since
/// 1970-01-01, UTC), to `destination` at a later stop of the same journey.
/// A zero station id is rejected before any search.
pub fn find_journeys(tt: &Timetable, dir: &Directory, source: i64, destination: i64, day: i64) -> (r: Result<
    Vec<JourneyBetweenStations>,
    EngineError,
>)
    requires
        tt.wf(),
        dir.wf(),
    ensures
        r is Err <==> (source == 0 || destination == 0),
        r is Err ==> r == Err::<Vec<JourneyBetweenStations>, EngineError>(EngineError::InvalidArgument),
        r is Ok ==> r->Ok_0@ == itinerary(tt, dir, source, destination, day),
        r is Ok ==> forall|k: int| 0 <= k < r->Ok_0@.len() ==> leg_shape(#[trigger] r->Ok_0@[k], source, destination),
{
    if source == 0 || destination == 0 {
        return Err(EngineError::InvalidArgument);
    }
    let js = tt.journeys();
    let mut out: Vec<JourneyBetweenStations> = Vec::new();
    let mut ji: usize = 0;
    while ji < js.len()
        invariant
            ji <= js@.len(),
            js@ == tt.journeys_view(),
            tt.wf(),
            dir.wf(),
            out@ == legs_upto(dir, js@, source, destination, day, ji as int),
        decreases js@.len() - ji,
    {
        let j = &js[ji];
        let n = j.stops.len();
        let train_name = dir.train_name(j.train_id);
        let mut jrow: Vec<JourneyBetweenStations> = Vec::new();
        let mut a: usize = 0;
        while a < n
            invariant
                a <= n,
                n == j.stops@.len(),
                *j == js@[ji as int],
                js@ == tt.journeys_view(),
                ji < js@.len(),
                tt.wf(),
                dir.wf(),
                train_name == dir.spec_train_name(j.train_id),
                jrow@ == legs_of_journey(dir, j, source, destination, day, a as int),
            decreases n - a,
        {
            let sa = j.stops[a];
            assert(valid_timestamp(js@[ji as int].stops@[a as int].sched_toa));
            if sa.station_id == source && day_of(sa.sched_toa) == day {
                let start_station = dir.station_name(sa.station_id);
                let mut row: Vec<JourneyBetweenStations> = Vec::new();
                let mut b: usize = a + 1;
                while b < n
                    invariant
                        a < b <= n,
                        n == j.stops@.len(),
                        *j == js@[ji as int],
                        js@ == tt.journeys_view(),
                        ji < js@.len(),
                        tt.wf(),
                        dir.wf(),
                        sa == j.stops@[a as int],
                        train_name == dir.spec_train_name(j.train_id),
                        start_station == dir.spec_station_name(sa.station_id),
                        row@ == legs_from(dir, j, a as int, destination, b as int),
                    decreases n - b,
                {
                    let sb = j.stops[b];
                    if sb.station_id == destination {
                        assert(valid_timestamp(js@[ji as int].stops@[b as int].sched_toa));
                        assert(valid_timestamp(js@[ji as int].stops@[a as int].sched_toa));
                        row.push(
                            JourneyBetweenStations {
                                journey_id: j.journey_id,
                                train_id: j.train_id,
                                train_name: train_name.clone(),
                                start_station_id: sa.station_id,
                                start_schedule_id: sa.sched_id,
                                start_station: start_station.clone(),
                                end_station_id: sb.station_id,
                                end_schedule_id: sb.sched_id,
                                end_station: dir.station_name(sb.station_id),
                                start_time: sa.sched_toa,
                                end_time: sb.sched_toa,
                                start_stop_number: a,
                                end_stop_number: b,
                                travel_time: sb.sched_toa - sa.sched_toa,
                            },
                        );
                    }
                    b += 1;
                }
                jrow.append(&mut row);
            }
            a += 1;
        }
        out.append(&mut jrow);
        ji += 1;
    }
    proof {
        lemma_itinerary_order(tt, dir, source, destination, day);
        let it = itinerary(tt, dir, source, destination, day);
        assert(out@ == it);
        assert forall|k: int| 0 <= k < out@.len() implies leg_shape(#[trigger] out@[k], source, destination) by {
            assert(out@[k] == it[k]);
        }
    }
    Ok(out)
}

} // verus!
