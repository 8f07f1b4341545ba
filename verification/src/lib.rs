//! A library for creating temporary on-call schedule overrides.
//!
//! The heart of the crate is [`timeparse`]: a recursive-descent parser with
//! backtracking that resolves a small, human-typed date/time-range grammar
//! ("tomorrow, 10am-10pm", "today 10am - tomorrow 2pm", "2/14, 9:30am-5pm")
//! against a caller-supplied "now" instant into a pair of unambiguous
//! [`instant::Instant`] values. Calendar arithmetic is done on the local
//! (wall-clock) fields of the instant's timezone, so day boundaries fall on
//! local midnight even across daylight-saving transitions.
//!
//! The remaining modules hold the plain data carried between the parser and
//! the surrounding command-line tool: directory entries fetched from the
//! incident-management service ([`client`]), their on-disk cache layout
//! ([`persistence`]), and the yes/no answer reader ([`confirm`]).

pub mod client;
pub mod confirm;
pub mod instant;
pub mod persistence;
pub mod timeparse;
