//! Command lines, decisions, per-key tables, pictures and reports of a piano
//! tuner's measuring tools.
//!
//! Measured numbers enter as [`reading::Reading`], the bit pattern of a double,
//! which is enough to order, select and compare them. Numbers that are only
//! printed enter as text.

pub mod adapt;
pub mod args;
pub mod bench;
pub mod brilliance;
pub mod canvas;
pub mod chain;
pub mod compass;
pub mod fit;
pub mod keys;
pub mod level;
pub mod listen;
pub mod melody;
pub mod mics;
pub mod noise;
pub mod order;
pub mod paths;
pub mod radiation;
pub mod reading;
pub mod residuals;
pub mod stereo;
pub mod text;
pub mod words;
