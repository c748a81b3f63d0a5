//! Command-line argument rules: the scan of the argument list for the help,
//! version and host flags, and the validation of the host's scheme.  Reading
//! the process arguments, printing and exiting stay outside the library.

use vstd::prelude::*;

use crate::text::spec_starts_with;
use crate::text::strings_view;
use crate::text::str_eq;
use crate::text::str_starts_with;

verus! {

/// The validated process settings: the dashboard host, scheme included.
pub struct Settings {
    pub host: String,
}

/// What the command line asks for.
pub enum ArgsOutcome {
    /// A help flag was seen: print usage and leave successfully.
    Help,
    /// A version flag was seen: print the version and leave successfully.
    Version,
    /// The host flag stood last, with nothing after it to name the host.
    MissingHostValue,
    /// No host was given at all.
    MissingHost,
    /// The host does not start with an insecure or secure HTTP scheme.
    BadScheme,
    /// A well-formed host was given.
    Accepted(Settings),
}

pub enum ArgsOutcomeView {
    Help,
    Version,
    MissingHostValue,
    MissingHost,
    BadScheme,
    Accepted(Seq<char>),
}

impl View for ArgsOutcome {
    type V = ArgsOutcomeView;

    open spec fn view(&self) -> ArgsOutcomeView {
        match self {
            ArgsOutcome::Help => ArgsOutcomeView::Help,
            ArgsOutcome::Version => ArgsOutcomeView::Version,
            ArgsOutcome::MissingHostValue => ArgsOutcomeView::MissingHostValue,
            ArgsOutcome::MissingHost => ArgsOutcomeView::MissingHost,
            ArgsOutcome::BadScheme => ArgsOutcomeView::BadScheme,
            ArgsOutcome::Accepted(s) => ArgsOutcomeView::Accepted(s.host@),
        }
    }
}

/// The host is acceptable: it starts with an HTTP-style scheme.
pub open spec fn spec_valid_host(host: Seq<char>) -> bool {
    spec_starts_with(host, "http://"@) || spec_starts_with(host, "https://"@)
}

/// The scan of the argument list from position `i` on, with `host` the last
/// host value seen so far.  A help or version flag wins as soon as it is
/// seen; the host flag takes the following argument (which is itself still
/// scanned), and a host flag with nothing after it is an error at once.
pub open spec fn spec_parse_from(args: Seq<Seq<char>>, i: int, host: Seq<char>) -> ArgsOutcomeView
    decreases args.len() - i,
    when 0 <= i <= args.len()
{
    if i == args.len() {
        if host.len() == 0 {
            ArgsOutcomeView::MissingHost
        } else if spec_valid_host(host) {
            ArgsOutcomeView::Accepted(host)
        } else {
            ArgsOutcomeView::BadScheme
        }
    } else if args[i] == "--help"@ {
        ArgsOutcomeView::Help
    } else if args[i] == "--version"@ {
        ArgsOutcomeView::Version
    } else if args[i] == "-h"@ {
        if i + 1 < args.len() {
            spec_parse_from(args, i + 1, args[i + 1])
        } else {
            ArgsOutcomeView::MissingHostValue
        }
    } else {
        spec_parse_from(args, i + 1, host)
    }
}

/// The outcome of the whole argument list.
pub open spec fn spec_parse_args(args: Seq<Seq<char>>) -> ArgsOutcomeView {
    spec_parse_from(args, 0, Seq::empty())
}

/// Scans the argument list exactly as the process surface demands: help and
/// version flags win immediately, the last host flag counts, a missing or
/// badly-schemed host is an error.
pub fn parse_args(args: &Vec<String>) -> (r: ArgsOutcome)
    ensures
        r@ == spec_parse_args(strings_view(args@)),
{
    let ghost av = strings_view(args@);
    let mut host: String = String::new();
    let mut i: usize = 0;
    while i < args.len()
        invariant
            i <= args.len(),
            av == strings_view(args@),
            av.len() == args.len(),
            spec_parse_args(av) == spec_parse_from(av, i as int, host@),
        decreases args.len() - i,
    {
        proof {
            assert(av[i as int] == args@[i as int]@);
        }
        if str_eq(args[i].as_str(), "--help") {
            return ArgsOutcome::Help;
        }
        if str_eq(args[i].as_str(), "--version") {
            return ArgsOutcome::Version;
        }
        if str_eq(args[i].as_str(), "-h") {
            if i + 1 < args.len() {
                proof {
                    assert(av[i as int + 1] == args@[i as int + 1]@);
                }
                host = args[i + 1].clone();
            } else {
                return ArgsOutcome::MissingHostValue;
            }
        }
        i += 1;
    }
    if host.as_str().is_empty() {
        return ArgsOutcome::MissingHost;
    }
    if str_starts_with(host.as_str(), "http://") || str_starts_with(host.as_str(), "https://") {
        ArgsOutcome::Accepted(Settings { host })
    } else {
        ArgsOutcome::BadScheme
    }
}

} // verus!
