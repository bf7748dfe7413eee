pub mod digest;
pub mod keys;
pub mod topic;
pub mod header;
pub mod history;
pub mod store;
pub mod protocol;
pub mod vote_info;
pub mod registry;
