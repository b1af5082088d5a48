//! Host telemetry rules and a directory-size scan engine, with every rule
//! stated as a contract and proved.
//!
//! The library decides; it neither reads the host nor draws. A program
//! around it reads the metrics, walks the file system and shows the result.
//!
//! - `snapshot`, `history`, `health`, `telemetry`: one reading of the host
//!   becomes a snapshot, the snapshot feeds the rolling histories, and the
//!   rules of `health` judge both.
//! - `scan`: the state of the directory scan and the decisions of its
//!   worker.
//! - `disks`, `procs`, `quick`: the tables of file systems, processes and
//!   directory entries, in their order.
//! - `ranking`: the stable order that all tables share.
//! - `metrics`, `units`, `text`, `procfs`: shares in fixed point, byte counts
//!   in words, decimal text, and the kernel's counters.
//! - `args`, `ui`: the command line and the keys.
//!
//! Quantities that a host reports as fractions are held as integers: byte
//! counts as they are, percentages in thousandths or tenths of a percent, the
//! load average in thousandths.

pub mod args;
pub mod disks;
pub mod health;
pub mod history;
pub mod metrics;
pub mod procfs;
pub mod procs;
pub mod quick;
pub mod ranking;
pub mod scan;
pub mod snapshot;
pub mod telemetry;
pub mod text;
pub mod ui;
pub mod units;
