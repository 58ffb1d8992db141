//! Backing up a folder to an S3 bucket, once or periodically: the rules that decide what is
//! uploaded, under which name, in which pieces and when.

pub mod aws;
pub mod backup;
pub mod cli;
pub mod config;
pub mod cron_schedule;
pub mod prelude;
pub mod schedule;
