pub mod aggregate;
pub mod merge;
pub mod outcome;
pub mod registry;
pub mod scheduler;
pub mod sources;
pub mod subdomain_set;
