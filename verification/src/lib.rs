//! A tarpit for SSH scanners: the bookkeeping and the decisions of a server
//! that answers every connection with an endless, slowly dripping banner.

pub mod banner;
pub mod clock;
pub mod exposition;
pub mod history;
pub mod listeners;
pub mod metrics;
pub mod runtime;
pub mod stats;
pub mod tarpit;
