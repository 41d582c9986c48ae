//! Tag-driven media downloader: the decisions of the download run, the
//! destination layout and the configuration rules, with machine-checked
//! contracts. Console, disk and network stay with the caller.

pub mod e621;
