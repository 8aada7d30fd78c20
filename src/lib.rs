//! Verified core of an automated peer-to-peer lending investor: the
//! authenticated session with its rotating anti-forgery token, the state
//! snapshot that one refresh gathers, and the engine that turns a snapshot
//! into investment orders.
//!
//! Money is held in cents and interest rates in hundredths of a percent, so
//! that every rule of the engine is exact integer arithmetic.

pub mod client;
pub mod decimal;
pub mod model;
pub mod refresh;
pub mod selection;
pub mod session;
pub mod submit;
