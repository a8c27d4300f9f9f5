//! The logic of a graphical ClamAV front end: reading what `clamscan` and
//! `freshclam` print, the command line a scan runs with, the decisions of a
//! running scan and of a signature update, the bounded scan history, the
//! quarantine bookkeeping and the texts the pages show.
pub mod text;
pub mod paths;
pub mod clamav;
pub mod config;
pub mod scanner;
pub mod history;
pub mod utils;
pub mod quarantine;
pub mod update;
pub mod display;
