use vstd::prelude::*;
use crate::availability::{category_at, CoachCategory, SeatCount, Tier, CATEGORY_COUNT};
use crate::error::EngineError;
use crate::model::{BookingStatus, CancellationStatus, CreatePassenger, Passenger, PaymentMode};
use crate::time::now_seconds;

verus! {

/// One passenger's booking on a journey. Amounts are in the currency's
/// smallest unit.
#[derive(Debug, Clone, Copy, PartialEq, Eq, Structural)]
pub struct Booking {
    pub booking_id: i64,
    pub booking_time: i64,
    pub booking_status: BookingStatus,
    pub pnr: i64,
    pub journey_id: i64,
    pub start_station_id: i64,
    pub end_station_id: i64,
    pub price: i64,
    pub txn_id: i64,
}

/// The reservation that a passenger's booking holds: a coach category and a tier.
#[derive(Debug, Clone, Copy, PartialEq, Eq, Structural)]
pub struct Reservation {
    pub pnr: i64,
    pub reservation_category: CoachCategory,
    pub reservation_status: Tier,
}

/// The record of a cancelled booking. Amounts are in the currency's smallest unit.
#[derive(Debug, Clone, Copy, PartialEq, Eq, Structural)]
pub struct Cancellation {
    pub cid: i64,
    pub booking_id: i64,
    pub cancel_time: i64,
    pub refund_amount: i64,
    pub status: CancellationStatus,
    pub txn_id: i64,
}

/// A request to book seats for a group under one payment transaction.
pub struct GroupBookingRequest {
    pub group_size: i32,
    pub passengers: Vec<CreatePassenger>,
    pub journey_id: i64,
    pub train_id: i64,
    pub start_station_id: i64,
    pub end_station_id: i64,
    pub mode: PaymentMode,
    pub txn_id: i64,
    pub email: String,
    pub reservation_category: String,
}

/// Some booking for PNR `pnr` is on journey `j` and confirmed or pending.
pub open spec fn parent_active(bs: Seq<Booking>, pnr: i64, j: i64) -> bool {
    exists|i: int|
        0 <= i < bs.len() && #[trigger] bs[i].pnr == pnr && bs[i].journey_id == j && bs[i].booking_status.spec_is_active()
}

/// The reservation holds tier `t` for a live booking on journey `j`.
pub open spec fn counts_toward(bs: Seq<Booking>, r: Reservation, j: i64, t: Tier) -> bool {
    r.reservation_status == t && parent_active(bs, r.pnr, j)
}

/// How many reservations of `rs` in category `c` hold tier `t` on journey `j`.
pub open spec fn count_in(bs: Seq<Booking>, rs: Seq<Reservation>, j: i64, c: CoachCategory, t: Tier) -> nat
    decreases rs.len(),
{
    if rs.len() == 0 {
        0
    } else {
        count_in(bs, rs.drop_last(), j, c, t) + if counts_toward(bs, rs.last(), j, t) && rs.last().reservation_category
            == c {
            1nat
        } else {
            0nat
        }
    }
}

/// How many reservations of `rs` hold tier `t` on journey `j`, in any category.
pub open spec fn count_all(bs: Seq<Booking>, rs: Seq<Reservation>, j: i64, t: Tier) -> nat
    decreases rs.len(),
{
    if rs.len() == 0 {
        0
    } else {
        count_all(bs, rs.drop_last(), j, t) + if counts_toward(bs, rs.last(), j, t) {
            1nat
        } else {
            0nat
        }
    }
}

/// The counts of all seven categories added up.
pub open spec fn sum_over_categories(bs: Seq<Booking>, rs: Seq<Reservation>, j: i64, t: Tier) -> nat {
    count_in(bs, rs, j, category_at(0), t) + count_in(bs, rs, j, category_at(1), t) + count_in(bs, rs, j, category_at(2), t)
        + count_in(bs, rs, j, category_at(3), t) + count_in(bs, rs, j, category_at(4), t) + count_in(
        bs,
        rs,
        j,
        category_at(5),
        t,
    ) + count_in(bs, rs, j, category_at(6), t)
}

/// The per-category counts of a journey and tier add up to the count of all
/// its reservations of that tier: no reservation is counted twice or missed.
pub proof fn lemma_category_counts_sum(bs: Seq<Booking>, rs: Seq<Reservation>, j: i64, t: Tier)
    ensures
        sum_over_categories(bs, rs, j, t) == count_all(bs, rs, j, t),
    decreases rs.len(),
{
    if rs.len() > 0 {
        lemma_category_counts_sum(bs, rs.drop_last(), j, t);
    }
}

proof fn lemma_count_bounded(bs: Seq<Booking>, rs: Seq<Reservation>, j: i64, c: CoachCategory, t: Tier)
    ensures
        count_in(bs, rs, j, c, t) <= rs.len(),
    decreases rs.len(),
{
    if rs.len() > 0 {
        lemma_count_bounded(bs, rs.drop_last(), j, c, t);
    }
}

/// Bookings, their passengers and reservations, and the cancellations made.
pub struct Ledger {
    passengers: Vec<Passenger>,
    bookings: Vec<Booking>,
    reservations: Vec<Reservation>,
    cancellations: Vec<Cancellation>,
    next_pnr: i64,
    next_booking_id: i64,
    next_cid: i64,
}

impl Ledger {
    pub closed spec fn passengers_view(&self) -> Seq<Passenger> {
        self.passengers@
    }

    pub closed spec fn bookings_view(&self) -> Seq<Booking> {
        self.bookings@
    }

    pub closed spec fn reservations_view(&self) -> Seq<Reservation> {
        self.reservations@
    }

    pub closed spec fn cancellations_view(&self) -> Seq<Cancellation> {
        self.cancellations@
    }

    pub closed spec fn next_pnr_view(&self) -> i64 {
        self.next_pnr
    }

    pub closed spec fn next_booking_id_view(&self) -> i64 {
        self.next_booking_id
    }

    pub closed spec fn next_cid_view(&self) -> i64 {
        self.next_cid
    }

    /// Booking ids are positive, distinct and below the next id to hand
    /// out; so are the bookings' PNRs.
    pub open spec fn wf(&self) -> bool {
        let bs = self.bookings_view();
        &&& 1 <= self.next_pnr_view()
        &&& 1 <= self.next_booking_id_view()
        &&& 1 <= self.next_cid_view()
        &&& forall|i: int|
            #![trigger bs[i]]
            0 <= i < bs.len() ==> 1 <= bs[i].booking_id < self.next_booking_id_view() && 1 <= bs[i].pnr
                < self.next_pnr_view()
        &&& forall|i: int, k: int| 0 <= i < k < bs.len() ==> bs[i].booking_id != bs[k].booking_id && bs[i].pnr != bs[k].pnr
    }

    pub open spec fn has_booking(&self, id: i64) -> bool {
        exists|i: int| 0 <= i < self.bookings_view().len() && #[trigger] self.bookings_view()[i].booking_id == id
    }

    /// The position of booking `id` among the bookings.
    pub open spec fn booking_index(&self, id: i64) -> int {
        choose|i: int| 0 <= i < self.bookings_view().len() && #[trigger] self.bookings_view()[i].booking_id == id
    }

    /// How many reservations of category `c` hold tier `t` on journey `j`.
    pub open spec fn spec_seat_count(&self, j: i64, c: CoachCategory, t: Tier) -> nat {
        count_in(self.bookings_view(), self.reservations_view(), j, c, t)
    }

    pub fn new() -> (r: Ledger)
        ensures
            r.wf(),
            r.bookings_view().len() == 0,
            r.reservations_view().len() == 0,
            r.cancellations_view().len() == 0,
            r.passengers_view().len() == 0,
            r.next_pnr_view() == 1,
            r.next_booking_id_view() == 1,
            r.next_cid_view() == 1,
    {
        Ledger {
            passengers: Vec::new(),
            bookings: Vec::new(),
            reservations: Vec::new(),
            cancellations: Vec::new(),
            next_pnr: 1,
            next_booking_id: 1,
            next_cid: 1,
        }
    }

    /// The bookings, in the order they were made.
    pub fn bookings(&self) -> (r: &Vec<Booking>)
        ensures
            r@ == self.bookings_view(),
    {
        &self.bookings
    }

    /// The cancellations, in the order they were made.
    pub fn cancellations(&self) -> (r: &Vec<Cancellation>)
        ensures
            r@ == self.cancellations_view(),
    {
        &self.cancellations
    }

    /// The reservations, in the order they were made.
    pub fn reservations(&self) -> (r: &Vec<Reservation>)
        ensures
            r@ == self.reservations_view(),
    {
        &self.reservations
    }

    /// The passengers, in the order they were booked.
    pub fn passengers(&self) -> (r: &Vec<Passenger>)
        ensures
            r@ == self.passengers_view(),
    {
        &self.passengers
    }

    /// The position of booking `id`, where it exists.
    pub fn find_booking(&self, id: i64) -> (r: Option<usize>)
        requires
            self.wf(),
        ensures
            r is None <==> !self.has_booking(id),
            r is Some ==> r->Some_0 == self.booking_index(id) && r->Some_0 < self.bookings_view().len(),
    {
        let mut i: usize = 0;
        while i < self.bookings.len()
            invariant
                i <= self.bookings@.len(),
                self.wf(),
                forall|k: int| 0 <= k < i ==> #[trigger] self.bookings@[k].booking_id != id,
            decreases self.bookings@.len() - i,
        {
            if self.bookings[i].booking_id == id {
                proof {
                    assert(self.bookings_view()[i as int].booking_id == id);
                    let c = self.booking_index(id);
                    assert(c == i as int);
                }
                return Some(i);
            }
            i += 1;
        }
        None
    }

    pub open spec fn has_pnr(&self, pnr: i64) -> bool {
        exists|i: int| 0 <= i < self.bookings_view().len() && #[trigger] self.bookings_view()[i].pnr == pnr
    }

    /// Records a booking that already has its ids, as read back from storage.
    pub fn insert_booking(&mut self, b: Booking) -> (r: Result<(), EngineError>)
        requires
            old(self).wf(),
        ensures
            final(self).wf(),
            r == Err::<(), EngineError>(EngineError::InvalidArgument) <==> (b.booking_id < 1 || b.booking_id
                == i64::MAX || b.pnr < 1 || b.pnr == i64::MAX),
            r == Err::<(), EngineError>(EngineError::Conflict) <==> (1 <= b.booking_id < i64::MAX && 1 <= b.pnr
                < i64::MAX && (old(self).has_booking(b.booking_id) || old(self).has_pnr(b.pnr))),
            r is Ok <==> (1 <= b.booking_id < i64::MAX && 1 <= b.pnr < i64::MAX && !old(self).has_booking(
                b.booking_id,
            ) && !old(self).has_pnr(b.pnr)),
            r is Err ==> *final(self) == *old(self),
            r is Ok ==> {
                &&& final(self).bookings_view() == old(self).bookings_view().push(b)
                &&& final(self).has_booking(b.booking_id)
                &&& final(self).next_cid_view() == old(self).next_cid_view()
                &&& final(self).reservations_view() == old(self).reservations_view()
                &&& final(self).passengers_view() == old(self).passengers_view()
                &&& final(self).cancellations_view() == old(self).cancellations_view()
            },
    {
        if b.booking_id < 1 || b.booking_id == i64::MAX || b.pnr < 1 || b.pnr == i64::MAX {
            return Err(EngineError::InvalidArgument);
        }
        let mut i: usize = 0;
        while i < self.bookings.len()
            invariant
                i <= self.bookings@.len(),
                *self == *old(self),
                old(self).wf(),
                1 <= b.booking_id < i64::MAX,
                1 <= b.pnr < i64::MAX,
                forall|k: int| 0 <= k < i ==> #[trigger] self.bookings@[k].booking_id != b.booking_id,
                forall|k: int| 0 <= k < i ==> #[trigger] self.bookings@[k].pnr != b.pnr,
            decreases self.bookings@.len() - i,
        {
            if self.bookings[i].booking_id == b.booking_id || self.bookings[i].pnr == b.pnr {
                assert(self.bookings_view()[i as int].booking_id == b.booking_id || self.bookings_view()[i as int].pnr
                    == b.pnr);
                return Err(EngineError::Conflict);
            }
            i += 1;
        }
        self.bookings.push(b);
        if self.next_booking_id <= b.booking_id {
            self.next_booking_id = b.booking_id + 1;
        }
        if self.next_pnr <= b.pnr {
            self.next_pnr = b.pnr + 1;
        }
        proof {
            let bs = self.bookings_view();
            let os = old(self).bookings_view();
            assert(bs[os.len() as int].booking_id == b.booking_id);
            assert(forall|k: int| 0 <= k < os.len() ==> bs[k] == os[k]);
            assert forall|k: int| #![trigger bs[k]] 0 <= k < bs.len() implies 1 <= bs[k].booking_id
                < self.next_booking_id_view() && 1 <= bs[k].pnr < self.next_pnr_view() by {
                if k < os.len() {
                    assert(os[k].booking_id < old(self).next_booking_id_view());
                }
            }
        }
        Ok(())
    }

    /// Records a reservation as read back from storage.
    pub fn insert_reservation(&mut self, res: Reservation)
        requires
            old(self).wf(),
        ensures
            final(self).wf(),
            final(self).reservations_view() == old(self).reservations_view().push(res),
            final(self).bookings_view() == old(self).bookings_view(),
            final(self).passengers_view() == old(self).passengers_view(),
            final(self).cancellations_view() == old(self).cancellations_view(),
            final(self).next_cid_view() == old(self).next_cid_view(),
    {
        self.reservations.push(res);
    }

    /// Whether some booking for `pnr` is on journey `j` and confirmed or pending.
    fn has_active_parent(&self, pnr: i64, j: i64) -> (r: bool)
        ensures
            r == parent_active(self.bookings_view(), pnr, j),
    {
        let mut i: usize = 0;
        while i < self.bookings.len()
            invariant
                i <= self.bookings@.len(),
                forall|k: int|
                    0 <= k < i ==> !(#[trigger] self.bookings@[k].pnr == pnr && self.bookings@[k].journey_id == j
                        && self.bookings@[k].booking_status.spec_is_active()),
            decreases self.bookings@.len() - i,
        {
            let b = &self.bookings[i];
            if b.pnr == pnr && b.journey_id == j && b.booking_status.is_active() {
                assert(self.bookings_view()[i as int].pnr == pnr);
                return true;
            }
            i += 1;
        }
        false
    }

    /// For journey `j` and tier `t`, one row for each of the seven coach
    /// categories in label order, with the number of reservations of that
    /// category and tier whose booking is confirmed or pending.
    pub fn seat_counts(&self, j: i64, t: Tier) -> (r: Vec<SeatCount>)
        ensures
            r@.len() == CATEGORY_COUNT,
            forall|k: int|
                0 <= k < r@.len() ==> (#[trigger] r@[k]).reservation_category@ == category_at(k).spec_label()
                    && r@[k].seat_count == self.spec_seat_count(j, category_at(k), t),
            r@[0].seat_count + r@[1].seat_count + r@[2].seat_count + r@[3].seat_count + r@[4].seat_count
                + r@[5].seat_count + r@[6].seat_count == count_all(self.bookings_view(), self.reservations_view(), j, t),
    {
        let ghost bs = self.bookings_view();
        let ghost rs = self.reservations_view();
        let mut counts: Vec<usize> = vec![0, 0, 0, 0, 0, 0, 0];
        let mut i: usize = 0;
        while i < self.reservations.len()
            invariant
                i <= rs.len(),
                rs == self.reservations@,
                bs == self.bookings@,
                counts@.len() == CATEGORY_COUNT,
                forall|k: int| 0 <= k < 7 ==> #[trigger] counts@[k] == count_in(bs, rs.take(i as int), j, category_at(k), t),
            decreases rs.len() - i,
        {
            let res = self.reservations[i];
            proof {
                let tk = rs.take(i as int + 1);
                assert(tk.drop_last() =~= rs.take(i as int));
                assert(tk.last() == res);
            }
            if res.reservation_status == t && self.has_active_parent(res.pnr, j) {
                let c = res.reservation_category.index();
                proof {
                    lemma_count_bounded(bs, rs.take(i as int), j, category_at(c as int), t);
                }
                let v = counts[c] + 1;
                counts.set(c, v);
            }
            i += 1;
        }
        proof {
            assert(rs.take(rs.len() as int) =~= rs);
            lemma_category_counts_sum(bs, rs, j, t);
        }
        let mut out: Vec<SeatCount> = Vec::new();
        let mut k: usize = 0;
        while k < CATEGORY_COUNT
            invariant
                k <= CATEGORY_COUNT,
                rs == self.reservations@,
                bs == self.bookings@,
                counts@.len() == CATEGORY_COUNT,
                forall|q: int| 0 <= q < 7 ==> #[trigger] counts@[q] == count_in(bs, rs, j, category_at(q), t),
                out@.len() == k,
                forall|q: int|
                    0 <= q < k ==> (#[trigger] out@[q]).reservation_category@ == category_at(q).spec_label()
                        && out@[q].seat_count == counts@[q],
            decreases CATEGORY_COUNT - k,
        {
            out.push(SeatCount { reservation_category: CoachCategory::at(k).label(), seat_count: counts[k] });
            k += 1;
        }
        proof {
            assert(out@[0].seat_count == counts@[0]);
            assert(out@[1].seat_count == counts@[1]);
            assert(out@[2].seat_count == counts@[2]);
            assert(out@[3].seat_count == counts@[3]);
            assert(out@[4].seat_count == counts@[4]);
            assert(out@[5].seat_count == counts@[5]);
            assert(out@[6].seat_count == counts@[6]);
        }
        out
    }

    /// The ledger after booking `bx` is cancelled and `rec` is recorded.
    pub open spec fn cancelled(&self, o: &Ledger, bx: int, rec: Cancellation) -> bool {
        &&& self.bookings_view() == o.bookings_view().update(
            bx,
            Booking { booking_status: BookingStatus::CNC, ..o.bookings_view()[bx] },
        )
        &&& self.cancellations_view() == o.cancellations_view().push(rec)
        &&& self.passengers_view() == o.passengers_view()
        &&& self.reservations_view() == o.reservations_view()
        &&& self.next_pnr_view() == o.next_pnr_view()
        &&& self.next_booking_id_view() == o.next_booking_id_view()
        &&& self.next_cid_view() == o.next_cid_view() + 1
    }

    /// Cancels booking `booking_id` at `cancel_time`: the booking becomes
    /// cancelled and one cancellation record with the refund is added, both
    /// or neither. Returns the new record's id.
    pub fn cancel_booking(&mut self, booking_id: i64, refund_amount: i64, txn_id: i64, cancel_time: i64) -> (r: Result<
        i64,
        EngineError,
    >)
        requires
            old(self).wf(),
        ensures
            final(self).wf(),
            r == Err::<i64, EngineError>(EngineError::NotFound) <==> !old(self).has_booking(booking_id),
            r == Err::<i64, EngineError>(EngineError::InvalidArgument) <==> (old(self).has_booking(booking_id)
                && refund_amount < 0),
            r == Err::<i64, EngineError>(EngineError::StorageFailure) <==> (old(self).has_booking(booking_id)
                && refund_amount >= 0 && old(self).next_cid_view() == i64::MAX),
            r is Ok <==> (old(self).has_booking(booking_id) && refund_amount >= 0 && old(self).next_cid_view()
                < i64::MAX),
            r is Err ==> *final(self) == *old(self),
            r is Ok ==> r->Ok_0 == old(self).next_cid_view() && final(self).cancelled(
                old(self),
                old(self).booking_index(booking_id),
                Cancellation {
                    cid: r->Ok_0,
                    booking_id,
                    cancel_time,
                    refund_amount,
                    status: CancellationStatus::CNC,
                    txn_id,
                },
            ),
    {
        let bx = match self.find_booking(booking_id) {
            None => return Err(EngineError::NotFound),
            Some(i) => i,
        };
        if refund_amount < 0 {
            return Err(EngineError::InvalidArgument);
        }
        if self.next_cid == i64::MAX {
            return Err(EngineError::StorageFailure);
        }
        let cid = self.next_cid;
        let record = Cancellation {
            cid,
            booking_id,
            cancel_time,
            refund_amount,
            status: CancellationStatus::CNC,
            txn_id,
        };
        let b = self.bookings[bx];
        self.bookings.set(bx, Booking { booking_status: BookingStatus::CNC, ..b });
        self.cancellations.push(record);
        self.next_cid = cid + 1;
        proof {
            let bs = self.bookings_view();
            let os = old(self).bookings_view();
            assert forall|i: int| #![trigger bs[i]] 0 <= i < bs.len() implies 1 <= bs[i].booking_id
                < self.next_booking_id_view() && 1 <= bs[i].pnr < self.next_pnr_view() by {
                assert(os[i].booking_id == bs[i].booking_id && os[i].pnr == bs[i].pnr);
            }
            assert forall|i: int, k: int| 0 <= i < k < bs.len() implies bs[i].booking_id != bs[k].booking_id
                && bs[i].pnr != bs[k].pnr by {
                assert(os[i].booking_id == bs[i].booking_id && os[i].pnr == bs[i].pnr);
                assert(os[k].booking_id == bs[k].booking_id && os[k].pnr == bs[k].pnr);
            }
        }
        Ok(cid)
    }

    /// Cancels booking `booking_id` as `cancel_booking` does, stamped with
    /// the current time.
    pub fn cancel_booking_now(&mut self, booking_id: i64, refund_amount: i64, txn_id: i64) -> (r: Result<
        i64,
        EngineError,
    >)
        requires
            old(self).wf(),
        ensures
            final(self).wf(),
            r == Err::<i64, EngineError>(EngineError::NotFound) <==> !old(self).has_booking(booking_id),
            r == Err::<i64, EngineError>(EngineError::InvalidArgument) <==> (old(self).has_booking(booking_id)
                && refund_amount < 0),
            r == Err::<i64, EngineError>(EngineError::StorageFailure) <==> (old(self).has_booking(booking_id)
                && refund_amount >= 0 && old(self).next_cid_view() == i64::MAX),
            r is Ok <==> (old(self).has_booking(booking_id) && refund_amount >= 0 && old(self).next_cid_view()
                < i64::MAX),
            r is Err ==> *final(self) == *old(self),
            r is Ok ==> r->Ok_0 == old(self).next_cid_view() && final(self).cancelled(
                old(self),
                old(self).booking_index(booking_id),
                Cancellation {
                    cid: r->Ok_0,
                    booking_id,
                    cancel_time: final(self).cancellations_view().last().cancel_time,
                    refund_amount,
                    status: CancellationStatus::CNC,
                    txn_id,
                },
            ),
    {
        let now = now_seconds();
        self.cancel_booking(booking_id, refund_amount, txn_id, now)
    }

    /// The arguments of a group booking that are malformed by themselves.
    pub open spec fn bad_group_request(req: &GroupBookingRequest, fare: i64) -> bool {
        ||| req.group_size < 1
        ||| req.group_size as int != req.passengers@.len()
        ||| req.journey_id == 0
        ||| req.start_station_id == 0
        ||| req.end_station_id == 0
        ||| fare < 0
        ||| forall|k: int| 0 <= k < 7 ==> req.reservation_category@ != #[trigger] category_at(k).spec_label()
    }

    /// The passenger record of the `k`-th traveller of a group, under PNR `pnr`.
    pub open spec fn group_passenger(req: &GroupBookingRequest, k: int, pnr: i64) -> Passenger {
        let p = req.passengers@[k];
        Passenger { pnr, name: p.name, age: p.age, sex: p.sex, disability: p.disability }
    }

    /// The pending booking of the `k`-th traveller of a group.
    pub open spec fn group_booking(
        req: &GroupBookingRequest,
        booking_id: i64,
        pnr: i64,
        fare: i64,
        booking_time: i64,
    ) -> Booking {
        Booking {
            booking_id,
            booking_time,
            booking_status: BookingStatus::PND,
            pnr,
            journey_id: req.journey_id,
            start_station_id: req.start_station_id,
            end_station_id: req.end_station_id,
            price: fare,
            txn_id: req.txn_id,
        }
    }

    /// Books every traveller of the group on the journey under one
    /// transaction: each gets a fresh PNR, a pending booking at `fare`, and a
    /// reservation of the requested coach category in tier `tier`. All or
    /// nothing. Returns the PNRs in the order of the travellers.
    pub fn create_group_booking(
        &mut self,
        req: &GroupBookingRequest,
        tier: Tier,
        fare: i64,
        booking_time: i64,
    ) -> (r: Result<Vec<i64>, EngineError>)
        requires
            old(self).wf(),
        ensures
            final(self).wf(),
            r == Err::<Vec<i64>, EngineError>(EngineError::InvalidArgument) <==> Self::bad_group_request(req, fare),
            r == Err::<Vec<i64>, EngineError>(EngineError::StorageFailure) <==> (!Self::bad_group_request(req, fare)
                && (old(self).next_pnr_view() + req.passengers@.len() > i64::MAX || old(self).next_booking_id_view()
                + req.passengers@.len() > i64::MAX)),
            r is Ok <==> (!Self::bad_group_request(req, fare) && old(self).next_pnr_view() + req.passengers@.len()
                <= i64::MAX && old(self).next_booking_id_view() + req.passengers@.len() <= i64::MAX),
            r is Err ==> *final(self) == *old(self),
            r is Ok ==> {
                let n = req.passengers@.len();
                let p0 = old(self).next_pnr_view();
                let b0 = old(self).next_booking_id_view();
                let pnrs = r->Ok_0@;
                let c = CoachCategory::from_label_spec(req.reservation_category@);
                &&& pnrs.len() == n
                &&& forall|k: int| 0 <= k < n ==> #[trigger] pnrs[k] == p0 + k
                &&& final(self).next_pnr_view() == p0 + n
                &&& final(self).next_booking_id_view() == b0 + n
                &&& final(self).next_cid_view() == old(self).next_cid_view()
                &&& final(self).cancellations_view() == old(self).cancellations_view()
                &&& final(self).passengers_view().len() == old(self).passengers_view().len() + n
                &&& final(self).bookings_view().len() == old(self).bookings_view().len() + n
                &&& final(self).reservations_view().len() == old(self).reservations_view().len() + n
                &&& final(self).passengers_view().take(old(self).passengers_view().len() as int)
                    == old(self).passengers_view()
                &&& final(self).bookings_view().take(old(self).bookings_view().len() as int)
                    == old(self).bookings_view()
                &&& final(self).reservations_view().take(old(self).reservations_view().len() as int)
                    == old(self).reservations_view()
                &&& forall|k: int|
                    0 <= k < n ==> #[trigger] final(self).passengers_view()[old(self).passengers_view().len() + k]
                        == Self::group_passenger(req, k, (p0 + k) as i64)
                &&& forall|k: int|
                    0 <= k < n ==> #[trigger] final(self).bookings_view()[old(self).bookings_view().len() + k]
                        == Self::group_booking(req, (b0 + k) as i64, (p0 + k) as i64, fare, booking_time)
                &&& forall|k: int|
                    0 <= k < n ==> #[trigger] final(self).reservations_view()[old(self).reservations_view().len() + k]
                        == (Reservation { pnr: (p0 + k) as i64, reservation_category: c, reservation_status: tier })
            },
    {
        let category = CoachCategory::from_label(&req.reservation_category);
        if req.group_size < 1 || req.group_size as usize != req.passengers.len() || req.journey_id == 0
            || req.start_station_id == 0 || req.end_station_id == 0 || fare < 0 || category.is_none() {
            return Err(EngineError::InvalidArgument);
        }
        let c = category.unwrap();
        let n = req.passengers.len();
        if self.next_pnr > i64::MAX - n as i64 || self.next_booking_id > i64::MAX - n as i64 {
            return Err(EngineError::StorageFailure);
        }
        let ghost o = *self;
        let p0 = self.next_pnr;
        let b0 = self.next_booking_id;
        let mut pnrs: Vec<i64> = Vec::new();
        let mut k: usize = 0;
        while k < n
            invariant
                k <= n,
                n == req.passengers@.len(),
                o.wf(),
                p0 == o.next_pnr_view(),
                b0 == o.next_booking_id_view(),
                p0 + n <= i64::MAX,
                b0 + n <= i64::MAX,
                self.next_pnr == p0 + k,
                self.next_booking_id == b0 + k,
                self.next_cid == o.next_cid_view(),
                self.cancellations@ == o.cancellations_view(),
                pnrs@.len() == k,
                forall|q: int| 0 <= q < k ==> #[trigger] pnrs@[q] == p0 + q,
                self.passengers@.len() == o.passengers_view().len() + k,
                self.bookings@.len() == o.bookings_view().len() + k,
                self.reservations@.len() == o.reservations_view().len() + k,
                self.passengers@.take(o.passengers_view().len() as int) == o.passengers_view(),
                self.bookings@.take(o.bookings_view().len() as int) == o.bookings_view(),
                self.reservations@.take(o.reservations_view().len() as int) == o.reservations_view(),
                forall|q: int|
                    0 <= q < k ==> #[trigger] self.passengers@[o.passengers_view().len() + q] == Self::group_passenger(
                        req,
                        q,
                        (p0 + q) as i64,
                    ),
                forall|q: int|
                    0 <= q < k ==> #[trigger] self.bookings@[o.bookings_view().len() + q] == Self::group_booking(
                        req,
                        (b0 + q) as i64,
                        (p0 + q) as i64,
                        fare,
                        booking_time,
                    ),
                forall|q: int|
                    0 <= q < k ==> #[trigger] self.reservations@[o.reservations_view().len() + q] == (Reservation {
                        pnr: (p0 + q) as i64,
                        reservation_category: c,
                        reservation_status: tier,
                    }),
            decreases n - k,
        {
            let pnr = self.next_pnr;
            let bid = self.next_booking_id;
            let p = &req.passengers[k];
            self.passengers.push(
                Passenger {
                    pnr,
                    name: p.name.clone(),
                    age: p.age,
                    sex: p.sex.clone(),
                    disability: p.disability,
                },
            );
            self.bookings.push(
                Booking {
                    booking_id: bid,
                    booking_time,
                    booking_status: BookingStatus::PND,
                    pnr,
                    journey_id: req.journey_id,
                    start_station_id: req.start_station_id,
                    end_station_id: req.end_station_id,
                    price: fare,
                    txn_id: req.txn_id,
                },
            );
            self.reservations.push(Reservation { pnr, reservation_category: c, reservation_status: tier });
            pnrs.push(pnr);
            self.next_pnr = pnr + 1;
            self.next_booking_id = bid + 1;
            k += 1;
            proof {
                assert(self.passengers@.take(o.passengers_view().len() as int) =~= o.passengers_view());
                assert(self.bookings@.take(o.bookings_view().len() as int) =~= o.bookings_view());
                assert(self.reservations@.take(o.reservations_view().len() as int) =~= o.reservations_view());
            }
        }
        proof {
            let bs = self.bookings_view();
            let os = o.bookings_view();
            let m = os.len();
            assert forall|i: int| #![trigger bs[i]] 0 <= i < bs.len() implies 1 <= bs[i].booking_id
                < self.next_booking_id_view() && 1 <= bs[i].pnr < self.next_pnr_view() by {
                if i < m {
                    assert(bs[i] == bs.take(m as int)[i]);
                } else {
                    assert(bs[m + (i - m)] == Self::group_booking(req, (b0 + (i - m)) as i64, (p0 + (i - m)) as i64, fare, booking_time));
                }
            }
            assert forall|i: int, q: int| 0 <= i < q < bs.len() implies bs[i].booking_id != bs[q].booking_id
                && bs[i].pnr != bs[q].pnr by {
                if q < m {
                    assert(bs[i] == bs.take(m as int)[i]);
                    assert(bs[q] == bs.take(m as int)[q]);
                } else if i < m {
                    assert(bs[i] == bs.take(m as int)[i]);
                    assert(bs[m + (q - m)] == Self::group_booking(req, (b0 + (q - m)) as i64, (p0 + (q - m)) as i64, fare, booking_time));
                } else {
                    assert(bs[m + (i - m)] == Self::group_booking(req, (b0 + (i - m)) as i64, (p0 + (i - m)) as i64, fare, booking_time));
                    assert(bs[m + (q - m)] == Self::group_booking(req, (b0 + (q - m)) as i64, (p0 + (q - m)) as i64, fare, booking_time));
                }
            }
        }
        Ok(pnrs)
    }
}

} // verus!
