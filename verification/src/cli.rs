//! The decisions of the command-line driver: which subcommand was asked
//! for, and when a change seen while watching triggers a rebuild.

use vstd::prelude::*;

use crate::text::str_equal;

verus! {

/// What the driver is asked to do.
#[derive(Debug, Clone, Copy, PartialEq, Eq, Structural)]
pub enum Subcommand {
    /// Remove the built site.
    Clean,
    /// Build, then rebuild on every change while serving the site.
    Watch,
    /// Build the site once.
    Build,
}

/// Why the arguments name no subcommand.
#[derive(Debug, PartialEq, Eq)]
pub enum CliError {
    /// No subcommand was given.
    NoSubcommand,
    /// This is not a subcommand.
    InvalidSubcommand(String),
}

/// The subcommand that the first argument names.
pub open spec fn subcommand_of(arg: Seq<char>) -> Option<Subcommand> {
    if arg == "clean"@ {
        Some(Subcommand::Clean)
    } else if arg == "watch"@ {
        Some(Subcommand::Watch)
    } else if arg == "build"@ {
        Some(Subcommand::Build)
    } else {
        None
    }
}

impl Subcommand {
    /// Reads the first argument.
    pub fn parse(arg: Option<&str>) -> (res: Result<Subcommand, CliError>)
        ensures
            match arg {
                None => res matches Err(CliError::NoSubcommand),
                Some(a) => match subcommand_of(a@) {
                    Some(c) => res matches Ok(r) && r == c,
                    None => res matches Err(CliError::InvalidSubcommand(s)) && s@ == a@,
                },
            },
    {
        match arg {
            None => Err(CliError::NoSubcommand),
            Some(a) => {
                if str_equal(a, "clean") {
                    Ok(Subcommand::Clean)
                } else if str_equal(a, "watch") {
                    Ok(Subcommand::Watch)
                } else if str_equal(a, "build") {
                    Ok(Subcommand::Build)
                } else {
                    Err(CliError::InvalidSubcommand(a.to_owned()))
                }
            },
        }
    }
}

/// Changes closer than this many milliseconds to the last rebuild are
/// ignored.
pub const QUIET_MILLIS: u128 = 500;

/// Whole milliseconds from `last` to `now`, both in nanoseconds; zero where
/// `now` is before `last`.
pub open spec fn elapsed_millis(last: u128, now: u128) -> int {
    if now >= last {
        (now - last) / 1_000_000
    } else {
        0
    }
}

/// A change seen less than `QUIET_MILLIS` milliseconds after the last
/// rebuild never triggers one, and a change seen at least that long after
/// always does.
pub proof fn law_quiet_period(last: u128, now: u128)
    ensures
        last <= now < last + QUIET_MILLIS * 1_000_000 ==> elapsed_millis(last, now) < QUIET_MILLIS,
        now >= last + QUIET_MILLIS * 1_000_000 ==> elapsed_millis(last, now) >= QUIET_MILLIS,
{
}

/// When a change seen while watching triggers a rebuild.
pub struct Debouncer {
    last: u128,
}

impl Debouncer {
    /// The time of the last rebuild, in nanoseconds.
    pub closed spec fn last(&self) -> u128 {
        self.last
    }

    /// Starts counting from `now`, in nanoseconds.
    pub fn new(now: u128) -> (res: Debouncer)
        ensures
            res.last() == now,
    {
        Debouncer { last: now }
    }

    /// Whether a change seen at `now` (nanoseconds) triggers a rebuild: it
    /// does once at least `QUIET_MILLIS` whole milliseconds have passed since
    /// the last rebuild, which is then `now`.
    pub fn should_rebuild(&mut self, now: u128) -> (res: bool)
        ensures
            res == (elapsed_millis(old(self).last(), now) >= QUIET_MILLIS),
            res ==> final(self).last() == now,
            !res ==> final(self).last() == old(self).last(),
    {
        let elapsed: u128 = if now >= self.last {
            (now - self.last) / 1_000_000
        } else {
            0
        };
        if elapsed < QUIET_MILLIS {
            false
        } else {
            self.last = now;
            true
        }
    }
}

} // verus!
