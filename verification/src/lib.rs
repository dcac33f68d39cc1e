//! tcast: live terminal sharing, as a library of verified decisions.
pub mod audio;
pub mod config;
pub mod dict;
pub mod emulator;
pub mod host;
pub mod link;
pub mod owned;
pub mod protocol;
pub mod relay;
pub mod seqs;
pub mod text;
pub mod watch;
