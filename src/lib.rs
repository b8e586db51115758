//! The logic of a terminal dashboard of system metrics: a scheduler that decides, on an
//! exact rational clock, which widgets refresh on each tick; the process table with its
//! grouping, stable sorting, selection and scrolling; the main loop's decisions on ticks
//! and keys; and the bookkeeping of the graph, network, disk, temperature and battery
//! widgets. Sampling the system and drawing the screen are left to the caller.
pub mod colorscheme;
pub mod conversions;
pub mod disk;
pub mod events;
pub mod graphs;
pub mod layout;
pub mod net;
pub mod proc_widget;
pub mod process;
pub mod ratio;
pub mod scheduler;
pub mod sensors;
