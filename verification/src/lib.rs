//! Replays CAN bus recordings: the verified core of the replay tool.
//!
//! The library holds the records as plain values, builds the request
//! addresses, decides when to page, orders the records by their hardware
//! timestamp, renders the text the tool prints and builds the frames that
//! go out on the bus.
pub mod candump;
pub mod frames;
pub mod hexdata;
pub mod menu;
pub mod order;
pub mod paging;
pub mod records;
pub mod replay;
pub mod text;
pub mod timefmt;
pub mod timeline;
pub mod urls;
