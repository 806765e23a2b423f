use vstd::prelude::*;

verus! {

/// The coach categories that availability is counted in, in the order of
/// their labels.
#[derive(Debug, Clone, Copy, PartialEq, Eq, Structural)]
pub enum CoachCategory {
    /// Second sitting, labelled `2S`.
    SecondSitting,
    AC1,
    AC2,
    AC3,
    /// Chair car.
    CC,
    /// First class.
    FC,
    /// Sleeper.
    SL,
}

/// A reservation's place in the queue for seats.
#[derive(Debug, Clone, Copy, PartialEq, Eq, Structural)]
pub enum Tier {
    /// Confirmed.
    CNF,
    /// Reservation against cancellation.
    RAC,
    /// Waitlisted.
    WL,
}

/// How many seats or reservations one coach category has.
#[derive(Debug, Clone, PartialEq, Eq)]
pub struct SeatCount {
    pub reservation_category: String,
    pub seat_count: usize,
}

/// How many coach categories there are.
pub const CATEGORY_COUNT: usize = 7;

/// The `k`-th category in label order.
pub open spec fn category_at(k: int) -> CoachCategory {
    if k == 0 {
        CoachCategory::SecondSitting
    } else if k == 1 {
        CoachCategory::AC1
    } else if k == 2 {
        CoachCategory::AC2
    } else if k == 3 {
        CoachCategory::AC3
    } else if k == 4 {
        CoachCategory::CC
    } else if k == 5 {
        CoachCategory::FC
    } else {
        CoachCategory::SL
    }
}

impl CoachCategory {
    pub open spec fn spec_label(self) -> Seq<char> {
        match self {
            CoachCategory::SecondSitting => "2S"@,
            CoachCategory::AC1 => "AC1"@,
            CoachCategory::AC2 => "AC2"@,
            CoachCategory::AC3 => "AC3"@,
            CoachCategory::CC => "CC"@,
            CoachCategory::FC => "FC"@,
            CoachCategory::SL => "SL"@,
        }
    }

    /// The first category, in label order, whose label is `s`; the last
    /// category where none is.
    pub open spec fn from_label_spec(s: Seq<char>) -> CoachCategory {
        if s == category_at(0).spec_label() {
            category_at(0)
        } else if s == category_at(1).spec_label() {
            category_at(1)
        } else if s == category_at(2).spec_label() {
            category_at(2)
        } else if s == category_at(3).spec_label() {
            category_at(3)
        } else if s == category_at(4).spec_label() {
            category_at(4)
        } else if s == category_at(5).spec_label() {
            category_at(5)
        } else {
            category_at(6)
        }
    }

    /// The position of the category in label order.
    pub open spec fn spec_index(self) -> int {
        match self {
            CoachCategory::SecondSitting => 0,
            CoachCategory::AC1 => 1,
            CoachCategory::AC2 => 2,
            CoachCategory::AC3 => 3,
            CoachCategory::CC => 4,
            CoachCategory::FC => 5,
            CoachCategory::SL => 6,
        }
    }

    pub fn index(&self) -> (r: usize)
        ensures
            r == self.spec_index(),
            r < CATEGORY_COUNT,
            category_at(r as int) == *self,
    {
        match self {
            CoachCategory::SecondSitting => 0,
            CoachCategory::AC1 => 1,
            CoachCategory::AC2 => 2,
            CoachCategory::AC3 => 3,
            CoachCategory::CC => 4,
            CoachCategory::FC => 5,
            CoachCategory::SL => 6,
        }
    }

    /// The `k`-th category in label order.
    pub fn at(k: usize) -> (r: CoachCategory)
        requires
            k < CATEGORY_COUNT,
        ensures
            r == category_at(k as int),
    {
        match k {
            0 => CoachCategory::SecondSitting,
            1 => CoachCategory::AC1,
            2 => CoachCategory::AC2,
            3 => CoachCategory::AC3,
            4 => CoachCategory::CC,
            5 => CoachCategory::FC,
            _ => CoachCategory::SL,
        }
    }

    pub fn label(&self) -> (r: String)
        ensures
            r@ == self.spec_label(),
    {
        match self {
            CoachCategory::SecondSitting => String::from_str("2S"),
            CoachCategory::AC1 => String::from_str("AC1"),
            CoachCategory::AC2 => String::from_str("AC2"),
            CoachCategory::AC3 => String::from_str("AC3"),
            CoachCategory::CC => String::from_str("CC"),
            CoachCategory::FC => String::from_str("FC"),
            CoachCategory::SL => String::from_str("SL"),
        }
    }

    /// The category with the given label.
    pub fn from_label(s: &String) -> (r: Option<CoachCategory>)
        ensures
            r is None <==> forall|k: int| 0 <= k < 7 ==> s@ != #[trigger] category_at(k).spec_label(),
            r matches Some(c) ==> s@ == c.spec_label() && c == Self::from_label_spec(s@),
    {
        let mut k: usize = 0;
        while k < CATEGORY_COUNT
            invariant
                k <= CATEGORY_COUNT,
                forall|q: int| 0 <= q < k ==> s@ != #[trigger] category_at(q).spec_label(),
            decreases CATEGORY_COUNT - k,
        {
            let c = CoachCategory::at(k);
            if *s == c.label() {
                assert(s@ != category_at(0).spec_label() ==> k != 0);
                assert(s@ != category_at(1).spec_label() ==> k != 1);
                assert(s@ != category_at(2).spec_label() ==> k != 2);
                assert(s@ != category_at(3).spec_label() ==> k != 3);
                assert(s@ != category_at(4).spec_label() ==> k != 4);
                assert(s@ != category_at(5).spec_label() ==> k != 5);
                return Some(c);
            }
            k += 1;
        }
        None
    }
}

} // verus!
