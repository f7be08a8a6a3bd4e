//! Game-logic core: calendar and economy clocks, vehicle orders and
//! timetables, reliability and breakdowns, town authority, save-blob decoding.

pub mod calendar;
pub mod common;
pub mod timer;
pub mod order;
pub mod timetable;
pub mod engine;
pub mod random;
pub mod vehicle;
pub mod order_execution;
pub mod order_destination;
pub mod train_movement;
pub mod tnbp_decode;
pub mod town;
pub mod town_action;
pub mod town_expand;
pub mod town_growth;
pub mod town_newgrf;
pub mod operational_status;
pub mod train_consist;
pub mod train_pose;
pub mod train_controller;
pub mod train_collision;
