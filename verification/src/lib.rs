//! Gravitational dynamics of point masses in D-dimensional space.
//!
//! The simulation state is a collection of bodies, each with a position, a
//! velocity and a strictly positive mass, all held as exact integers. The
//! gravitational constant and the time step are rational parameters, given as
//! numerator/denominator pairs, so that configurations such as a fractional
//! time step keep an exact meaning. Every division rounds toward zero, and
//! every contract states the resulting value exactly.

pub mod body;
pub mod math;
pub mod sim;
