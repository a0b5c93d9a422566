//! Nagios threshold ranges: parsing them from text and checking metric
//! values against them.
//!
//! A range is written `[@][start:][end]`. It describes the inclusive
//! interval `start..=end` and, through the optional leading `@`, whether an
//! alert is raised for values inside the interval or for values outside of
//! it. A missing start point stands for `0`, the start point `~` for negative
//! infinity and a missing end point (after the `:`) for positive infinity.
//!
//! Bounds and metric values are 64-bit signed integers. An open end is not a
//! magic number but a state of its own, [`Bound::Unbounded`].
//!
//! Every function of this crate is verified against a mathematical
//! description of the grammar ([`grammar::parse_spec`]) and of the interval
//! ([`RangeView`]); the module [`laws`] states what follows from them.
pub mod error;
pub mod grammar;
pub mod laws;
pub mod numeral;
pub mod types;

pub use self::error::Error;
pub use self::error::NumeralError;
pub use self::types::Bound;
pub use self::types::CheckType;
pub use self::types::NagiosRange;
pub use self::types::RangeView;


