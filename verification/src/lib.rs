//! Core of a mod installer: dependency resolution over a metadata source and
//! the bookkeeping of the downloads that follow it.

pub mod local_index;
pub mod record;
pub mod resolver;
pub mod closure;
pub mod schedule;
pub mod catalog;
pub mod download;
pub mod report;
pub mod transfer;
