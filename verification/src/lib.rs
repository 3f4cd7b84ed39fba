//! The verified core of a simulator for a four-legged robot that an operator steers across a map
//! with obstacles, by hand or through a controller in another process.
//!
//! The modules come in two layers.
//!
//! *Numbers.*  All quantities are IEEE 754 binary32 numbers.  [`scalar`] holds them by their bit
//! patterns; [`rounding`] and [`arithmetic`] compute on them, and prove each result to be the exact
//! one, rounded once; [`order`], [`accuracy`] and [`symmetry`] state the laws that the rest relies
//! on; [`decimal`] writes them out and [`vector`] puts them into vectors.
//!
//! *The simulator.*  [`config`] is the robot's configuration, [`control`] what is asked of the
//! robot and when the controller is asked, [`bridge`] the exchange with the controller, [`motion`]
//! how the robot moves, [`legs`] and [`geometry`] how its legs are drawn, [`obstacle`] what is in
//! its way, [`world`] what the mouse does to the map, [`camera`] from where the map is seen,
//! [`operator`] what keys and buttons do, [`telemetry`] and [`panel`] what the panels show, [`marks`]
//! what is drawn over the map, and [`scene`] and [`paint`] what the world holds at the start and how
//! it looks.
//!
//! Transcendental functions and rotations are left to the caller: a function gives the arguments at
//! which they are needed, and another one takes their values.  Proof functions whose names begin
//! with `law_` state what holds across functions.

pub mod accuracy;
pub mod arithmetic;
pub mod bridge;
pub mod camera;
pub mod config;
pub mod control;
pub mod decimal;
pub mod exchange;
pub mod geometry;
pub mod legs;
pub mod marks;
pub mod motion;
pub mod obstacle;
pub mod operator;
pub mod order;
pub mod paint;
pub mod panel;
pub mod rounding;
pub mod scalar;
pub mod scene;
pub mod symmetry;
pub mod telemetry;
pub mod vector;
pub mod walking;
pub mod world;
