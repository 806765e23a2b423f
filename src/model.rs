use vstd::prelude::*;

verus! {

/// Where a cancellation stands.
#[derive(Debug, Clone, Copy, PartialEq, Eq, Structural)]
pub enum CancellationStatus {
    CNC,
    PND,
}

impl CancellationStatus {
    /// The word shown to passengers for this status.
    pub open spec fn spec_text(self) -> Seq<char> {
        match self {
            CancellationStatus::CNC => "Cancelled"@,
            CancellationStatus::PND => "Pending"@,
        }
    }

    pub fn to_string(&self) -> (r: String)
        ensures
            r@ == self.spec_text(),
    {
        match self {
            CancellationStatus::CNC => String::from_str("Cancelled"),
            CancellationStatus::PND => String::from_str("Pending"),
        }
    }
}


/// Where a booking stands.
#[derive(Debug, Clone, Copy, PartialEq, Eq, Structural)]
pub enum BookingStatus {
    /// Waiting.
    WAT,
    /// Reservation against cancellation.
    RAC,
    /// Pending.
    PND,
    /// Confirmed.
    CNF,
    /// Cancelled.
    CNC,
}

impl BookingStatus {
    /// Bookings in these states hold their reservations against availability.
    pub open spec fn spec_is_active(self) -> bool {
        self == BookingStatus::CNF || self == BookingStatus::PND
    }

    pub fn is_active(&self) -> (r: bool)
        ensures
            r == self.spec_is_active(),
    {
        match self {
            BookingStatus::CNF | BookingStatus::PND => true,
            _ => false,
        }
    }
}

/// The berth position of a seat.
#[derive(Debug, Clone, Copy, PartialEq, Eq, Structural)]
pub enum SeatType {
    SL,
    SU,
    LL,
    MD,
    UP,
    ST,
    FC,
}

/// The pool that a seat is counted in.
#[derive(Debug, Clone, Copy, PartialEq, Eq, Structural)]
pub enum SeatCategory {
    CNF,
    RAC,
}

/// The kind of service a train runs.
#[derive(Debug, Clone, Copy, PartialEq, Eq, Structural)]
pub enum TrainType {
    /// Express.
    EX,
    /// Mail.
    ML,
    /// Superfast.
    SF,
    /// Vande Bharat.
    VB,
    /// MEMU.
    MM,
    /// Intercity.
    IN,
}

/// How a transaction is paid.
#[derive(Debug, Clone, Copy, PartialEq, Eq, Structural)]
pub enum PaymentMode {
    /// Cash.
    CSH,
    /// Credit card.
    CCD,
    /// Debit card.
    DCD,
    /// Net banking.
    NBK,
    /// Unified Payments Interface.
    UPI,
}

/// Where the server listens and which database it uses.
pub struct Config {
    pub database_url: String,
    pub host: String,
    pub port: u16,
}

impl Config {
    /// Builds the settings, with host `127.0.0.1` and port 8080 where none is given.
    pub fn with_defaults(database_url: String, host: Option<String>, port: Option<u16>) -> (r: Config)
        ensures
            r.database_url == database_url,
            host is Some ==> r.host == host->Some_0,
            host is None ==> r.host@ == "127.0.0.1"@,
            port is Some ==> r.port == port->Some_0,
            port is None ==> r.port == 8080,
    {
        let host = match host {
            Some(h) => h,
            None => String::from_str("127.0.0.1"),
        };
        let port = match port {
            Some(p) => p,
            None => 8080,
        };
        Config { database_url, host, port }
    }
}

/// A request to schedule a run of a train; times are text as the client sent them.
pub struct CreateJourney {
    pub start_time: String,
    pub end_time: String,
    pub train_id: i64,
    pub start_station_id: i64,
    pub end_station_id: i64,
}

/// One traveller of a booking request.
#[derive(Debug, Clone)]
pub struct CreatePassenger {
    pub name: String,
    pub age: i32,
    pub sex: String,
    pub disability: bool,
}

/// A traveller with the PNR the booking gave them.
#[derive(Debug, Clone)]
pub struct Passenger {
    pub pnr: i64,
    pub name: String,
    pub age: i32,
    pub sex: String,
    pub disability: bool,
}

/// What a PNR enquiry shows.
pub struct PnrStatusResponse {
    pub train_name: Option<String>,
    pub start_station: Option<String>,
    pub end_station: Option<String>,
    pub coach_name: Option<String>,
    pub seat_no: Option<i64>,
    pub seat_type: Option<String>,
    pub booking_status: Option<String>,
    pub start_time: Option<String>,
    pub end_time: Option<String>,
}

/// A request to open a route from a source station.
pub struct CreateRoute {
    pub route_name: String,
    pub source_station_id: i64,
}

/// A seat as stored.
pub struct Seat {
    pub seat_id: i64,
    pub seat_no: Option<i64>,
    pub seat_type: Option<String>,
    pub coach_id: Option<i64>,
    pub seat_category: Option<String>,
}

/// A request to add a seat to a coach.
pub struct CreateSeat {
    pub seat_no: i64,
    pub seat_type: SeatType,
    pub coach_id: i64,
    pub seat_category: SeatCategory,
}

/// A station as stored.
#[derive(Debug, Clone)]
pub struct StationResponse {
    pub station_id: i64,
    pub station_name: Option<String>,
    pub station_type: Option<String>,
}

/// A request to add a station.
pub struct CreateStation {
    pub station_name: String,
    pub station_type: String,
}

/// A train with its number, name and kind.
#[derive(Debug, Clone)]
pub struct Train {
    pub train_no: i64,
    pub train_name: String,
    pub train_type: TrainType,
}

/// A train as listed.
pub struct TrainResponse {
    pub train_no: i64,
    pub train_name: Option<String>,
    pub train_type: Option<String>,
}

/// A train with the sizes of what it owns.
pub struct TrainDetailedResponse {
    pub train_no: i64,
    pub train_name: String,
    pub train_type: String,
    pub coaches: i64,
    pub seats: i64,
    pub journeys: i64,
    pub upcoming_journeys: i64,
}

/// A request to move a payment transaction to a new status.
pub struct UpdateTransactionStatus {
    pub txn_id: i64,
    pub txn_status: Option<String>,
}

/// A user as stored.
pub struct User {
    pub name: String,
    pub email: String,
    pub role: String,
}

/// A user as listed.
pub struct UserResponse {
    pub email: String,
    pub name: Option<String>,
    pub role: Option<String>,
}

/// A request to register a user.
pub struct CreateUser {
    pub name: String,
    pub email: String,
    pub password: String,
    pub role: String,
}

/// A sign-in request.
pub struct LoginUser {
    pub email: String,
    pub password: String,
}

/// A request to change a user's name and role.
pub struct UpdateUser {
    pub name: String,
    pub role: String,
}

} // verus!
