//! Rotating desktop wallpapers: the decisions, without the input and output.
//!
//! The crate holds the rules of a small daemon that picks a random image from
//! a set of directories and hands it to an external command, again and again:
//!
//! * [`config`]: the settings of one run and how they are merged from their
//!   sources;
//! * [`guard`]: whether another instance is already at work, judged from a
//!   snapshot of the process table;
//! * [`images`]: which files of a directory listing are candidates, and the
//!   choice of one of them;
//! * [`work_loop`]: the rotation loop as a state machine that is told what
//!   happened and answers what to do next;
//! * [`runs`]: whole runs of that machine, and what is proved of all of them;
//! * [`random`]: the random numbers, which the `rand` crate draws.
//!
//! Reading directories and the process table, running the command, sleeping
//! and printing are left to the caller.

pub mod config;
pub mod guard;
pub mod images;
pub mod random;
pub mod runs;
pub mod work_loop;
