//! What the library promises of its inputs and results, area by area. Each law
//! is stated in the terms of the user: clocks, percentages, texts and files.

pub mod alerts;
pub mod hook;
pub mod menu;
pub mod numbers;
pub mod picture;
pub mod places;
pub mod running;
pub mod shell;
pub mod usage;
pub mod words;
