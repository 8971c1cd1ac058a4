//! A single countdown timer: how the remaining time evolves tick by tick, when
//! the expiry alert starts and stops blinking, how pause, resume and reset act
//! on the two periodic schedules, and how typed `MM:SS` text is validated.
//!
//! The library decides; it never touches a clock. Every operation on a
//! [`timer_service::TimerState`] returns the list of scheduling effects that
//! the caller has to carry out on the platform.

pub mod config;
pub mod event_logic;
pub mod storage;
pub mod style_utils;
pub mod text;
pub mod time_format;
pub mod timer_logic;
pub mod timer_provider;
pub mod timer_service;
