//! Duty-cycle scheduling and upload protocol of a battery-powered capture node,
//! together with the persistence rules of its ingestion service.

pub mod bytes;
pub mod capture;
pub mod clock;
pub mod cycle;
pub mod health;
pub mod health_laws;
pub mod ingest;
pub mod ingest_laws;
pub mod multipart;
pub mod multipart_laws;
pub mod schedule;
pub mod sd_time;
pub mod timesync;
pub mod upload;
