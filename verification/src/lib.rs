//! Kinematic movement of a platforming character: acceleration planning,
//! velocity integration, terrain following and contact correction, all on
//! fixed-point quantities.

pub mod fixed;
pub mod vector;
pub mod components;
pub mod planner;
pub mod integrator;
pub mod follower;
pub mod corrector;
pub mod collisions;
pub mod animation;
pub mod sensors;
pub mod pipeline;
