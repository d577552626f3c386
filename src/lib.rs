//! Corner-kick statistics for a football league: loading per-fixture
//! records, joining each team's record with its opponent's, folding them
//! into season totals and projecting efficiency ratios.

pub mod error;
pub mod fixture;
pub mod input;
pub mod join;
pub mod loader;
pub mod metrics;
pub mod pipeline;
pub mod season;
pub mod teams;
pub mod text;
pub mod tilt;

pub use error::{Column, JoinError, MyError, ParseError};
pub use fixture::Fixture;
pub use join::CornerKickData;
pub use loader::DataSource;
pub use metrics::{create_dataframe, DataFrame, DerivedMetrics, Ratio};
pub use pipeline::{load_observations, parse_csv, parse_field_tilt};
pub use season::{accumulate, TeamCKData};
pub use teams::Teams;
