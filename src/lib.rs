//! A train reservation engine: route distances, journey timetables,
//! itinerary search between stations, seat availability per coach
//! category, and the booking and cancellation ledger.

pub mod availability;
pub mod booking;
pub mod coach;
pub mod directory;
pub mod error;
pub mod itinerary;
pub mod model;
pub mod paging;
pub mod query;
pub mod route;
pub mod schedule;
pub mod time;

pub use availability::{CoachCategory, SeatCount, Tier};
pub use booking::{Booking, Cancellation, GroupBookingRequest, Ledger, Reservation};
pub use coach::{Coach, CoachResponse, CreateCoach, Fleet, SeatRecord};
pub use directory::Directory;
pub use error::EngineError;
pub use itinerary::{find_journeys, JourneyBetweenStations};
pub use model::{
    BookingStatus, CancellationStatus, Config, CreateJourney, CreatePassenger, CreateRoute, CreateSeat,
    CreateStation, CreateUser, LoginUser, Passenger, PaymentMode, PnrStatusResponse, Seat, SeatCategory,
    SeatType, StationResponse, Train, TrainDetailedResponse, TrainResponse, TrainType,
    UpdateTransactionStatus, UpdateUser, User, UserResponse,
};
pub use paging::Pagination;
pub use route::{
    RelativeStation, RouteDetailResponse, RouteDirectory, RouteRecord, RouteResponse, RouteStation,
    RoutesBetweenStations,
};
pub use schedule::{CreateSchedule, Journey, ScheduleJourney, Stop, Timetable};
pub use time::day_of;
