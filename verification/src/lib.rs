//! Verified core of the pointer-horror demos: the computations, lookups and
//! menu decisions that the interactive programs print and act upon.
pub mod arrays;
pub mod latency;
pub mod launcher;
pub mod menu;
pub mod ownership;
pub mod style;
