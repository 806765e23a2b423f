use vstd::prelude::*;
use crate::availability::{category_at, CoachCategory, SeatCount, CATEGORY_COUNT};
use crate::error::EngineError;
use crate::model::{CreateSeat, SeatCategory, SeatType};

verus! {

/// A coach of a train. Fares are in the currency's smallest unit.
#[derive(Debug, Clone)]
pub struct Coach {
    pub coach_id: i64,
    pub coach_name: String,
    pub coach_type: CoachCategory,
    pub fare: i64,
    pub train_id: i64,
}

/// A request to add a coach to a train; the type is a category label.
pub struct CreateCoach {
    pub coach_name: String,
    pub coach_type: String,
    pub fare: i64,
    pub train_id: i64,
}

/// A coach as listed, with how many seats it has.
#[derive(Debug, Clone, PartialEq, Eq)]
pub struct CoachResponse {
    pub coach_id: i64,
    pub coach_name: String,
    pub coach_type: CoachCategory,
    pub fare: i64,
    pub train_id: i64,
    pub total_seats: usize,
}

/// A seat of a coach.
#[derive(Debug, Clone, Copy, PartialEq, Eq, Structural)]
pub struct SeatRecord {
    pub seat_id: i64,
    pub seat_no: i64,
    pub seat_type: SeatType,
    pub coach_id: i64,
    pub seat_category: SeatCategory,
}

/// Coach `id` belongs to train `t` and has category `c`.
pub open spec fn coach_is(cs: Seq<Coach>, id: i64, t: i64, c: CoachCategory) -> bool {
    exists|i: int| 0 <= i < cs.len() && #[trigger] cs[i].coach_id == id && cs[i].train_id == t && cs[i].coach_type == c
}

/// The seat of `s` is in a coach of train `t` of category `c`, and in pool `p`.
pub open spec fn in_pool(cs: Seq<Coach>, s: SeatRecord, t: i64, c: CoachCategory, p: SeatCategory) -> bool {
    s.seat_category == p && coach_is(cs, s.coach_id, t, c)
}

/// How many seats of `ss` are in pool `p` of category `c` on train `t`.
pub open spec fn pool_size(cs: Seq<Coach>, ss: Seq<SeatRecord>, t: i64, c: CoachCategory, p: SeatCategory) -> nat
    decreases ss.len(),
{
    if ss.len() == 0 {
        0
    } else {
        pool_size(cs, ss.drop_last(), t, c, p) + if in_pool(cs, ss.last(), t, c, p) {
            1nat
        } else {
            0nat
        }
    }
}

/// The seats of `ss` that belong to coach `id`, in order.
pub open spec fn seats_of(ss: Seq<SeatRecord>, id: i64) -> Seq<SeatRecord>
    decreases ss.len(),
{
    if ss.len() == 0 {
        Seq::empty()
    } else if ss.last().coach_id == id {
        seats_of(ss.drop_last(), id).push(ss.last())
    } else {
        seats_of(ss.drop_last(), id)
    }
}

/// The listing of the coaches of `cs` that belong to train `t`, in order.
pub open spec fn coach_listing(cs: Seq<Coach>, ss: Seq<SeatRecord>, t: i64) -> Seq<CoachResponse>
    decreases cs.len(),
{
    if cs.len() == 0 {
        Seq::empty()
    } else if cs.last().train_id == t {
        coach_listing(cs.drop_last(), ss, t).push(
            CoachResponse {
                coach_id: cs.last().coach_id,
                coach_name: cs.last().coach_name,
                coach_type: cs.last().coach_type,
                fare: cs.last().fare,
                train_id: t,
                total_seats: seats_of(ss, cs.last().coach_id).len() as usize,
            },
        )
    } else {
        coach_listing(cs.drop_last(), ss, t)
    }
}

proof fn lemma_pool_size_bounded(cs: Seq<Coach>, ss: Seq<SeatRecord>, t: i64, c: CoachCategory, p: SeatCategory)
    ensures
        pool_size(cs, ss, t, c, p) <= ss.len(),
    decreases ss.len(),
{
    if ss.len() > 0 {
        lemma_pool_size_bounded(cs, ss.drop_last(), t, c, p);
    }
}

/// The coaches of all trains and their seats.
pub struct Fleet {
    coaches: Vec<Coach>,
    seats: Vec<SeatRecord>,
    next_coach_id: i64,
    next_seat_id: i64,
}

impl Fleet {
    pub closed spec fn coaches_view(&self) -> Seq<Coach> {
        self.coaches@
    }

    pub closed spec fn seats_view(&self) -> Seq<SeatRecord> {
        self.seats@
    }

    pub closed spec fn next_coach_id_view(&self) -> i64 {
        self.next_coach_id
    }

    pub closed spec fn next_seat_id_view(&self) -> i64 {
        self.next_seat_id
    }

    /// Coach ids are positive, distinct and below the next id to hand out.
    pub open spec fn wf(&self) -> bool {
        let cs = self.coaches_view();
        &&& 1 <= self.next_coach_id_view()
        &&& 1 <= self.next_seat_id_view()
        &&& forall|i: int| #![trigger cs[i]] 0 <= i < cs.len() ==> 1 <= cs[i].coach_id < self.next_coach_id_view()
        &&& forall|i: int, k: int| 0 <= i < k < cs.len() ==> cs[i].coach_id != cs[k].coach_id
    }

    pub open spec fn has_coach(&self, id: i64) -> bool {
        exists|i: int| 0 <= i < self.coaches_view().len() && #[trigger] self.coaches_view()[i].coach_id == id
    }

    /// How many seats of pool `p` the coaches of category `c` of train `t` hold.
    pub open spec fn spec_pool_size(&self, t: i64, c: CoachCategory, p: SeatCategory) -> nat {
        pool_size(self.coaches_view(), self.seats_view(), t, c, p)
    }

    pub fn new() -> (r: Fleet)
        ensures
            r.wf(),
            r.coaches_view().len() == 0,
            r.seats_view().len() == 0,
            r.next_coach_id_view() == 1,
            r.next_seat_id_view() == 1,
    {
        Fleet { coaches: Vec::new(), seats: Vec::new(), next_coach_id: 1, next_seat_id: 1 }
    }

    /// Adds a coach under a fresh id and returns the id.
    pub fn create_coach(&mut self, req: &CreateCoach) -> (r: Result<i64, EngineError>)
        requires
            old(self).wf(),
        ensures
            final(self).wf(),
            r == Err::<i64, EngineError>(EngineError::InvalidArgument) <==> (req.train_id == 0 || req.fare < 0
                || forall|k: int| 0 <= k < 7 ==> req.coach_type@ != #[trigger] category_at(k).spec_label()),
            r == Err::<i64, EngineError>(EngineError::StorageFailure) <==> (!(req.train_id == 0 || req.fare < 0
                || forall|k: int| 0 <= k < 7 ==> req.coach_type@ != #[trigger] category_at(k).spec_label())
                && old(self).next_coach_id_view() == i64::MAX),
            r is Err ==> *final(self) == *old(self),
            r is Ok ==> {
                &&& r->Ok_0 == old(self).next_coach_id_view()
                &&& final(self).has_coach(r->Ok_0)
                &&& final(self).seats_view() == old(self).seats_view()
                &&& final(self).next_seat_id_view() == old(self).next_seat_id_view()
                &&& final(self).coaches_view() == old(self).coaches_view().push(
                    Coach {
                        coach_id: r->Ok_0,
                        coach_name: req.coach_name,
                        coach_type: CoachCategory::from_label_spec(req.coach_type@),
                        fare: req.fare,
                        train_id: req.train_id,
                    },
                )
            },
    {
        let category = CoachCategory::from_label(&req.coach_type);
        if req.train_id == 0 || req.fare < 0 || category.is_none() {
            return Err(EngineError::InvalidArgument);
        }
        if self.next_coach_id == i64::MAX {
            return Err(EngineError::StorageFailure);
        }
        let id = self.next_coach_id;
        self.coaches.push(
            Coach {
                coach_id: id,
                coach_name: req.coach_name.clone(),
                coach_type: category.unwrap(),
                fare: req.fare,
                train_id: req.train_id,
            },
        );
        self.next_coach_id = id + 1;
        proof {
            let cs = self.coaches_view();
            let os = old(self).coaches_view();
            assert(cs[os.len() as int].coach_id == id);
            assert(forall|i: int| 0 <= i < os.len() ==> cs[i] == os[i]);
            assert forall|i: int, k: int| 0 <= i < k < cs.len() implies cs[i].coach_id != cs[k].coach_id by {
                if k == os.len() {
                    assert(os[i].coach_id < id);
                }
            }
        }
        Ok(id)
    }

    /// Records a coach that already has an id, as read back from storage.
    pub fn insert_coach(&mut self, c: Coach) -> (r: Result<(), EngineError>)
        requires
            old(self).wf(),
        ensures
            final(self).wf(),
            r == Err::<(), EngineError>(EngineError::InvalidArgument) <==> (c.coach_id < 1 || c.coach_id == i64::MAX),
            r == Err::<(), EngineError>(EngineError::Conflict) <==> (1 <= c.coach_id < i64::MAX && old(self).has_coach(
                c.coach_id,
            )),
            r is Ok <==> (1 <= c.coach_id < i64::MAX && !old(self).has_coach(c.coach_id)),
            r is Err ==> *final(self) == *old(self),
            r is Ok ==> final(self).coaches_view() == old(self).coaches_view().push(c) && final(self).seats_view()
                == old(self).seats_view() && final(self).has_coach(c.coach_id),
    {
        if c.coach_id < 1 || c.coach_id == i64::MAX {
            return Err(EngineError::InvalidArgument);
        }
        if self.contains_coach(c.coach_id) {
            return Err(EngineError::Conflict);
        }
        let id = c.coach_id;
        self.coaches.push(c);
        if self.next_coach_id <= id {
            self.next_coach_id = id + 1;
        }
        proof {
            let cs = self.coaches_view();
            let os = old(self).coaches_view();
            assert(cs[os.len() as int].coach_id == id);
            assert(forall|k: int| 0 <= k < os.len() ==> cs[k] == os[k]);
            assert forall|k: int| #![trigger cs[k]] 0 <= k < cs.len() implies 1 <= cs[k].coach_id
                < self.next_coach_id_view() by {
                if k < os.len() {
                    assert(os[k].coach_id < old(self).next_coach_id_view());
                }
            }
            assert forall|i: int, k: int| 0 <= i < k < cs.len() implies cs[i].coach_id != cs[k].coach_id by {
                if k == os.len() {
                    assert(os[i].coach_id != id);
                }
            }
        }
        Ok(())
    }

    /// Records a seat that already has an id, as read back from storage.
    pub fn insert_seat(&mut self, s: SeatRecord) -> (r: Result<(), EngineError>)
        requires
            old(self).wf(),
        ensures
            final(self).wf(),
            r is Err <==> (s.seat_id < 1 || s.seat_id == i64::MAX),
            r is Err ==> r == Err::<(), EngineError>(EngineError::InvalidArgument) && *final(self) == *old(self),
            r is Ok ==> final(self).seats_view() == old(self).seats_view().push(s) && final(self).coaches_view()
                == old(self).coaches_view(),
    {
        if s.seat_id < 1 || s.seat_id == i64::MAX {
            return Err(EngineError::InvalidArgument);
        }
        let id = s.seat_id;
        self.seats.push(s);
        if self.next_seat_id <= id {
            self.next_seat_id = id + 1;
        }
        Ok(())
    }

    /// Whether coach `id` exists.
    pub fn contains_coach(&self, id: i64) -> (r: bool)
        ensures
            r == self.has_coach(id),
    {
        let mut i: usize = 0;
        while i < self.coaches.len()
            invariant
                i <= self.coaches@.len(),
                forall|k: int| 0 <= k < i ==> #[trigger] self.coaches@[k].coach_id != id,
            decreases self.coaches@.len() - i,
        {
            if self.coaches[i].coach_id == id {
                assert(self.coaches_view()[i as int].coach_id == id);
                return true;
            }
            i += 1;
        }
        false
    }

    /// Adds a seat to an existing coach under a fresh id and returns the id.
    pub fn create_seat(&mut self, req: &CreateSeat) -> (r: Result<i64, EngineError>)
        requires
            old(self).wf(),
        ensures
            final(self).wf(),
            r == Err::<i64, EngineError>(EngineError::NotFound) <==> !old(self).has_coach(req.coach_id),
            r == Err::<i64, EngineError>(EngineError::StorageFailure) <==> (old(self).has_coach(req.coach_id)
                && old(self).next_seat_id_view() == i64::MAX),
            r is Err ==> *final(self) == *old(self),
            r is Ok ==> {
                &&& r->Ok_0 == old(self).next_seat_id_view()
                &&& final(self).coaches_view() == old(self).coaches_view()
                &&& final(self).next_coach_id_view() == old(self).next_coach_id_view()
                &&& final(self).seats_view() == old(self).seats_view().push(
                    SeatRecord {
                        seat_id: r->Ok_0,
                        seat_no: req.seat_no,
                        seat_type: req.seat_type,
                        coach_id: req.coach_id,
                        seat_category: req.seat_category,
                    },
                )
            },
    {
        if !self.contains_coach(req.coach_id) {
            return Err(EngineError::NotFound);
        }
        if self.next_seat_id == i64::MAX {
            return Err(EngineError::StorageFailure);
        }
        let id = self.next_seat_id;
        self.seats.push(
            SeatRecord {
                seat_id: id,
                seat_no: req.seat_no,
                seat_type: req.seat_type,
                coach_id: req.coach_id,
                seat_category: req.seat_category,
            },
        );
        self.next_seat_id = id + 1;
        Ok(id)
    }

    /// The category of coach `id` where it belongs to train `t`.
    fn category_on_train(&self, id: i64, t: i64) -> (r: Option<CoachCategory>)
        requires
            self.wf(),
        ensures
            r matches Some(c) ==> coach_is(self.coaches_view(), id, t, c),
            forall|c: CoachCategory| #[trigger] coach_is(self.coaches_view(), id, t, c) ==> r == Some(c),
    {
        let mut i: usize = 0;
        while i < self.coaches.len()
            invariant
                i <= self.coaches@.len(),
                self.wf(),
                forall|k: int| 0 <= k < i ==> #[trigger] self.coaches@[k].coach_id != id,
            decreases self.coaches@.len() - i,
        {
            if self.coaches[i].coach_id == id {
                assert(self.coaches_view()[i as int].coach_id == id);
                assert forall|c: CoachCategory| #[trigger] coach_is(self.coaches_view(), id, t, c) implies self.coaches_view()[i as int].train_id == t
                    && self.coaches_view()[i as int].coach_type == c by {
                    let w = choose|w: int| 0 <= w < self.coaches_view().len() && #[trigger] self.coaches_view()[w].coach_id == id
                        && self.coaches_view()[w].train_id == t && self.coaches_view()[w].coach_type == c;
                    assert(w == i as int);
                }
                if self.coaches[i].train_id == t {
                    return Some(self.coaches[i].coach_type);
                }
                return None;
            }
            i += 1;
        }
        None
    }

    /// For train `t` and pool `p`, one row for each of the seven coach
    /// categories in label order, with how many seats of that pool the
    /// train's coaches of that category hold.
    pub fn seat_pool_counts(&self, t: i64, p: SeatCategory) -> (r: Vec<SeatCount>)
        requires
            self.wf(),
        ensures
            r@.len() == CATEGORY_COUNT,
            forall|k: int|
                0 <= k < r@.len() ==> (#[trigger] r@[k]).reservation_category@ == category_at(k).spec_label()
                    && r@[k].seat_count == self.spec_pool_size(t, category_at(k), p),
    {
        let ghost cs = self.coaches_view();
        let ghost ss = self.seats_view();
        let mut counts: Vec<usize> = vec![0, 0, 0, 0, 0, 0, 0];
        let mut i: usize = 0;
        while i < self.seats.len()
            invariant
                i <= ss.len(),
                self.wf(),
                ss == self.seats@,
                cs == self.coaches@,
                counts@.len() == CATEGORY_COUNT,
                forall|k: int| 0 <= k < 7 ==> #[trigger] counts@[k] == pool_size(cs, ss.take(i as int), t, category_at(k), p),
            decreases ss.len() - i,
        {
            let seat = self.seats[i];
            proof {
                let tk = ss.take(i as int + 1);
                assert(tk.drop_last() =~= ss.take(i as int));
                assert(tk.last() == seat);
            }
            if seat.seat_category == p {
                match self.category_on_train(seat.coach_id, t) {
                    Some(c) => {
                        let x = c.index();
                        proof {
                            lemma_pool_size_bounded(cs, ss.take(i as int), t, category_at(x as int), p);
                        }
                        let v = counts[x] + 1;
                        counts.set(x, v);
                    },
                    None => {},
                }
            }
            i += 1;
        }
        proof {
            assert(ss.take(ss.len() as int) =~= ss);
        }
        let mut out: Vec<SeatCount> = Vec::new();
        let mut k: usize = 0;
        while k < CATEGORY_COUNT
            invariant
                k <= CATEGORY_COUNT,
                ss == self.seats@,
                cs == self.coaches@,
                counts@.len() == CATEGORY_COUNT,
                forall|q: int| 0 <= q < 7 ==> #[trigger] counts@[q] == pool_size(cs, ss, t, category_at(q), p),
                out@.len() == k,
                forall|q: int|
                    0 <= q < k ==> (#[trigger] out@[q]).reservation_category@ == category_at(q).spec_label()
                        && out@[q].seat_count == counts@[q],
            decreases CATEGORY_COUNT - k,
        {
            out.push(SeatCount { reservation_category: CoachCategory::at(k).label(), seat_count: counts[k] });
            k += 1;
        }
        out
    }

    /// The seats of coach `id`, in the order they were added.
    pub fn seats_by_coach(&self, id: i64) -> (r: Vec<SeatRecord>)
        ensures
            r@ == seats_of(self.seats_view(), id),
    {
        let mut out: Vec<SeatRecord> = Vec::new();
        let mut i: usize = 0;
        while i < self.seats.len()
            invariant
                i <= self.seats@.len(),
                out@ == seats_of(self.seats@.take(i as int), id),
            decreases self.seats@.len() - i,
        {
            let s = self.seats[i];
            proof {
                let tk = self.seats@.take(i as int + 1);
                assert(tk.drop_last() =~= self.seats@.take(i as int));
                assert(tk.last() == s);
            }
            if s.coach_id == id {
                out.push(s);
            }
            i += 1;
        }
        assert(self.seats@.take(self.seats@.len() as int) =~= self.seats@);
        out
    }

    /// The coaches of train `t` in the order they were added, each with how
    /// many seats it has.
    pub fn coaches_for_train(&self, t: i64) -> (r: Vec<CoachResponse>)
        ensures
            r@ == coach_listing(self.coaches_view(), self.seats_view(), t),
    {
        let mut out: Vec<CoachResponse> = Vec::new();
        let mut i: usize = 0;
        while i < self.coaches.len()
            invariant
                i <= self.coaches@.len(),
                out@ == coach_listing(self.coaches@.take(i as int), self.seats@, t),
            decreases self.coaches@.len() - i,
        {
            let c = &self.coaches[i];
            proof {
                let tk = self.coaches@.take(i as int + 1);
                assert(tk.drop_last() =~= self.coaches@.take(i as int));
                assert(tk.last() == *c);
            }
            if c.train_id == t {
                let seats = self.seats_by_coach(c.coach_id);
                out.push(
                    CoachResponse {
                        coach_id: c.coach_id,
                        coach_name: c.coach_name.clone(),
                        coach_type: c.coach_type,
                        fare: c.fare,
                        train_id: t,
                        total_seats: seats.len(),
                    },
                );
            }
            i += 1;
        }
        assert(self.coaches@.take(self.coaches@.len() as int) =~= self.coaches@);
        out
    }
}

} // verus!
