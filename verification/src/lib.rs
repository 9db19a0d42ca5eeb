//! A frame-by-frame snowfall simulation with a cyclically animated skier.
//!
//! Every quantity is an integer. Lengths and speeds are fixed-point numbers
//! with [`fixed::SCALE`] sub-units to the host's unit, and time is counted in
//! microseconds, so a frame is a pure function of the state, the viewport,
//! the elapsed time and the random draws that were made. A host that works
//! in floating point converts at its edge.
//!
//! A frame runs four stages in a fixed order ([`frame::tick`]):
//!
//! 1. every flake gets a fresh random drift added to its velocity
//!    ([`snow::snow_velocity`]); the sum is not brought back to unit
//!    length, so the snow gathers speed;
//! 2. every flake moves at its velocity, and one that leaves the viewport
//!    comes back at the opposite edge with a fresh drift for its velocity
//!    or, under the other boundary policy, is removed once it is low
//!    enough ([`snow::update_position`]);
//! 3. the field is replenished as its rules have it ([`snow::recycle`]);
//! 4. the skier's animation moves on ([`skier::animation`]).
//!
//! The host owns the window, the generator of random numbers and the
//! clock, and hands the viewport, the generator and the time since the
//! frame before to each call. Nothing here keeps a reference to them.
//!
//! Sums that would leave the representable range
//! ([`fixed::LIMIT`]) are cut to it, so no position or velocity is ever
//! carried on that cannot be represented.
pub mod fixed;
pub mod vec2;
pub mod drift;
pub mod viewport;
pub mod particle;
pub mod rules;
pub mod snow;
pub mod skier;
pub mod clock;
pub mod frame;
