//! Reproducible network faults for local processes and containers.
//!
//! The crate holds everything Faultline decides: which packets a rule matches,
//! which of them are lost, delayed or duplicated, how an experiment is checked
//! and compiled into rules, how timelines advance, and how workloads are
//! prepared and cleaned up. Sockets, processes, kernel maps and terminals stay
//! with the callers, which hand in plain values and carry out what comes back.
#![allow(unused_imports)]

pub mod admission;
pub mod agent;
pub mod arranging;
pub mod attachment;
pub mod builder;
pub mod choosing;
pub mod classifier;
pub mod common;
pub mod comparison;
pub mod console;
pub mod container;
pub mod control;
pub mod coverage;
pub mod dials;
pub mod drafting;
pub mod draws;
pub mod driver;
pub mod duration;
pub mod editing;
pub mod environment;
pub mod exchanges;
pub mod execution;
pub mod experiment_spec;
pub mod faults;
pub mod hosting;
pub mod invocation;
pub mod json;
pub mod lab;
pub mod launcher;
pub mod launching;
pub mod matching;
pub mod measuring;
pub mod net;
pub mod observed;
pub mod options;
pub mod outcomes;
pub mod pacing;
pub mod packet;
pub mod plan;
pub mod planning;
pub mod playback;
pub mod preparation;
pub mod proceedings;
pub mod protocol;
pub mod publishing;
pub mod reactions;
pub mod readings;
pub mod recorder;
pub mod refusals;
pub mod renderings;
pub mod reporting;
pub mod rerun;
pub mod rule;
pub mod rule_store;
pub mod rule_table;
pub mod sameness;
pub mod scenario;
pub mod screen;
pub mod selection;
pub mod session;
pub mod settings;
pub mod socket;
pub mod spelling;
pub mod stats;
pub mod targeting;
pub mod text;
pub mod traffic;
pub mod words;
pub mod workload_spec;
