use vstd::prelude::*;
use crate::error::EngineError;
use crate::model::{CreateStation, StationResponse, Train};

verus! {

/// The reference data that journeys point at: stations and trains.
pub struct Directory {
    stations: Vec<StationResponse>,
    trains: Vec<Train>,
    next_station_id: i64,
}

/// The station kinds a station may be recorded with: junction, terminus, halt, stop.
pub open spec fn is_station_kind(t: Seq<char>) -> bool {
    t == "JN"@ || t == "TM"@ || t == "HT"@ || t == "ST"@
}

impl Directory {
    pub closed spec fn stations_view(&self) -> Seq<StationResponse> {
        self.stations@
    }

    pub closed spec fn trains_view(&self) -> Seq<Train> {
        self.trains@
    }

    pub closed spec fn next_station_id_view(&self) -> i64 {
        self.next_station_id
    }

    /// Station ids are positive, distinct and below the next id to hand out;
    /// train numbers are distinct.
    pub open spec fn wf(&self) -> bool {
        let s = self.stations_view();
        let t = self.trains_view();
        &&& 1 <= self.next_station_id_view()
        &&& forall|i: int| 0 <= i < s.len() ==> 1 <= #[trigger] s[i].station_id < self.next_station_id_view()
        &&& forall|i: int, j: int| 0 <= i < j < s.len() ==> s[i].station_id != s[j].station_id
        &&& forall|i: int, j: int| 0 <= i < j < t.len() ==> t[i].train_no != t[j].train_no
    }

    pub open spec fn has_station(&self, id: i64) -> bool {
        exists|i: int| 0 <= i < self.stations_view().len() && #[trigger] self.stations_view()[i].station_id == id
    }

    /// The name recorded for a station, if the station is known and named.
    pub open spec fn spec_station_name(&self, id: i64) -> Option<String> {
        if self.has_station(id) {
            let i = choose|i: int| 0 <= i < self.stations_view().len() && #[trigger] self.stations_view()[i].station_id == id;
            self.stations_view()[i].station_name
        } else {
            None
        }
    }

    pub open spec fn has_train(&self, no: i64) -> bool {
        exists|i: int| 0 <= i < self.trains_view().len() && #[trigger] self.trains_view()[i].train_no == no
    }

    /// The name of a train, if the train is known.
    pub open spec fn spec_train_name(&self, no: i64) -> Option<String> {
        if self.has_train(no) {
            let i = choose|i: int| 0 <= i < self.trains_view().len() && #[trigger] self.trains_view()[i].train_no == no;
            Some(self.trains_view()[i].train_name)
        } else {
            None
        }
    }

    pub fn new() -> (r: Directory)
        ensures
            r.wf(),
            r.stations_view().len() == 0,
            r.trains_view().len() == 0,
            r.next_station_id_view() == 1,
    {
        Directory { stations: Vec::new(), trains: Vec::new(), next_station_id: 1 }
    }

    /// Adds a station under a fresh id and returns the id.
    pub fn create_station(&mut self, req: &CreateStation) -> (r: Result<i64, EngineError>)
        requires
            old(self).wf(),
        ensures
            final(self).wf(),
            r == Err::<i64, EngineError>(EngineError::InvalidArgument) <==> !is_station_kind(req.station_type@),
            r == Err::<i64, EngineError>(EngineError::StorageFailure) <==> (is_station_kind(req.station_type@)
                && old(self).next_station_id_view() == i64::MAX),
            r is Ok <==> (is_station_kind(req.station_type@) && old(self).next_station_id_view() < i64::MAX),
            r.is_err() ==> *final(self) == *old(self),
            r.is_ok() ==> {
                &&& !old(self).has_station(r->Ok_0)
                &&& final(self).has_station(r->Ok_0)
                &&& r->Ok_0 >= 1
                &&& final(self).trains_view() == old(self).trains_view()
                &&& final(self).stations_view() == old(self).stations_view().push(StationResponse {
                    station_id: r->Ok_0,
                    station_name: Some(req.station_name),
                    station_type: Some(req.station_type),
                })
            },
    {
        let t = &req.station_type;
        let ok = *t == String::from_str("JN") || *t == String::from_str("TM") || *t
            == String::from_str("HT") || *t == String::from_str("ST");
        if !ok {
            return Err(EngineError::InvalidArgument);
        }
        if self.next_station_id == i64::MAX {
            return Err(EngineError::StorageFailure);
        }
        let id = self.next_station_id;
        self.stations.push(
            StationResponse {
                station_id: id,
                station_name: Some(req.station_name.clone()),
                station_type: Some(req.station_type.clone()),
            },
        );
        self.next_station_id = id + 1;
        assert(self.stations_view()[self.stations_view().len() - 1].station_id == id);
        Ok(id)
    }

    /// Records a station that already has an id, as read back from storage.
    pub fn insert_station(&mut self, rec: StationResponse) -> (r: Result<(), EngineError>)
        requires
            old(self).wf(),
        ensures
            final(self).wf(),
            r == Err::<(), EngineError>(EngineError::InvalidArgument) <==> (rec.station_id < 1 || rec.station_id
                == i64::MAX),
            r == Err::<(), EngineError>(EngineError::Conflict) <==> (1 <= rec.station_id < i64::MAX && old(
                self,
            ).has_station(rec.station_id)),
            r is Ok <==> (1 <= rec.station_id < i64::MAX && !old(self).has_station(rec.station_id)),
            r is Err ==> *final(self) == *old(self),
            r is Ok ==> final(self).stations_view() == old(self).stations_view().push(rec) && final(self).trains_view()
                == old(self).trains_view() && final(self).has_station(rec.station_id),
    {
        if rec.station_id < 1 || rec.station_id == i64::MAX {
            return Err(EngineError::InvalidArgument);
        }
        let mut i: usize = 0;
        while i < self.stations.len()
            invariant
                i <= self.stations@.len(),
                *self == *old(self),
                old(self).wf(),
                1 <= rec.station_id < i64::MAX,
                forall|k: int| 0 <= k < i ==> #[trigger] self.stations@[k].station_id != rec.station_id,
            decreases self.stations@.len() - i,
        {
            if self.stations[i].station_id == rec.station_id {
                assert(self.stations_view()[i as int].station_id == rec.station_id);
                return Err(EngineError::Conflict);
            }
            i += 1;
        }
        let id = rec.station_id;
        self.stations.push(rec);
        if self.next_station_id <= id {
            self.next_station_id = id + 1;
        }
        proof {
            let s = self.stations_view();
            let o = old(self).stations_view();
            assert(s[o.len() as int].station_id == id);
            assert(forall|k: int| 0 <= k < o.len() ==> s[k] == o[k]);
        }
        Ok(())
    }

    /// Records a train under its own number; a number already taken is a conflict.
    pub fn create_train(&mut self, train: Train) -> (r: Result<(), EngineError>)
        requires
            old(self).wf(),
        ensures
            final(self).wf(),
            r == Err::<(), EngineError>(EngineError::Conflict) <==> old(self).has_train(train.train_no),
            r is Ok <==> !old(self).has_train(train.train_no),
            r.is_err() ==> *final(self) == *old(self),
            r.is_ok() ==> final(self).stations_view() == old(self).stations_view()
                && final(self).next_station_id_view() == old(self).next_station_id_view()
                && final(self).trains_view() == old(self).trains_view().push(train),
    {
        let mut i: usize = 0;
        while i < self.trains.len()
            invariant
                i <= self.trains@.len(),
                *self == *old(self),
                old(self).wf(),
                forall|k: int| 0 <= k < i ==> #[trigger] self.trains@[k].train_no != train.train_no,
            decreases self.trains@.len() - i,
        {
            if self.trains[i].train_no == train.train_no {
                return Err(EngineError::Conflict);
            }
            i += 1;
        }
        self.trains.push(train);
        Ok(())
    }

    /// The name recorded for a station.
    pub fn station_name(&self, id: i64) -> (r: Option<String>)
        requires
            self.wf(),
        ensures
            r == self.spec_station_name(id),
    {
        let mut i: usize = 0;
        while i < self.stations.len()
            invariant
                i <= self.stations@.len(),
                self.wf(),
                forall|k: int| 0 <= k < i ==> #[trigger] self.stations@[k].station_id != id,
            decreases self.stations@.len() - i,
        {
            if self.stations[i].station_id == id {
                let ghost c = choose|c: int| 0 <= c < self.stations_view().len() && #[trigger] self.stations_view()[c].station_id == id;
                assert(c == i as int);
                return match &self.stations[i].station_name {
                    Some(n) => Some(n.clone()),
                    None => None,
                };
            }
            i += 1;
        }
        None
    }

    /// The name of a train.
    pub fn train_name(&self, no: i64) -> (r: Option<String>)
        requires
            self.wf(),
        ensures
            r == self.spec_train_name(no),
    {
        let mut i: usize = 0;
        while i < self.trains.len()
            invariant
                i <= self.trains@.len(),
                self.wf(),
                forall|k: int| 0 <= k < i ==> #[trigger] self.trains@[k].train_no != no,
            decreases self.trains@.len() - i,
        {
            if self.trains[i].train_no == no {
                let ghost c = choose|c: int| 0 <= c < self.trains_view().len() && #[trigger] self.trains_view()[c].train_no == no;
                assert(c == i as int);
                return Some(self.trains[i].train_name.clone());
            }
            i += 1;
        }
        None
    }
}

} // verus!
