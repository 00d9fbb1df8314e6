pub mod buffer;
pub mod layout;
pub mod search;
pub mod viewport;
pub mod pager;
pub mod laws;
pub mod follow;
