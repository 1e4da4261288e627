//! What the kernel and the system services report.

pub mod control;
pub mod cpu;
pub mod cpu_packages;
pub mod device_laws;
pub mod device_text;
pub mod devices;
pub mod disk_io;
pub mod hardware;
pub mod journal;
pub mod journal_reader;
pub mod latest_snapshot;
pub mod localtime;
pub mod memory;
pub mod network;
pub mod network_laws;
pub mod network_sampler;
pub mod notice_laws;
pub mod process;
pub mod rate;
pub mod reading_laws;
pub mod record_laws;
pub mod sampler;
pub mod service;
pub mod service_listing;
pub mod signal;
pub mod stat;
pub mod storage;
pub mod system;
pub mod system_sampler;
