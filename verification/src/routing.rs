//! The choice of engine from the command line.

use vstd::prelude::*;
use crate::text::{chars_of, same_chars};

verus! {

/// The engine that the command line asks for.
#[derive(Clone, Copy, Debug, PartialEq, Eq, Structural)]
pub enum Route {
    /// `--scraper`: the zero-copy scraping engine.
    Scraper,
    /// `--metrics`: the asynchronous metrics watchdog.
    Metrics,
}

/// Why the command line names no engine.
#[derive(Clone, Copy, Debug, PartialEq, Eq, Structural)]
pub enum RouteError {
    /// No routing argument was given.
    MissingRoute,
    /// The routing argument names no engine.
    InvalidRoute,
}

impl RouteError {
    /// The diagnostic text of the error.
    pub fn message(&self) -> (text: &'static str)
        ensures
            *self == RouteError::MissingRoute ==> text@ == "FAIL: Execution routing parameter missing"@,
            *self == RouteError::InvalidRoute ==> text@
                == "FAIL: Invalid destination routing token specified"@,
    {
        match self {
            RouteError::MissingRoute => "FAIL: Execution routing parameter missing",
            RouteError::InvalidRoute => "FAIL: Invalid destination routing token specified",
        }
    }
}

/// The engine that the arguments `args` (the program's name first) ask for:
/// the second argument decides.
pub fn select_route(args: &Vec<String>) -> (r: Result<Route, RouteError>)
    ensures
        args.len() < 2 ==> r == Err::<Route, RouteError>(RouteError::MissingRoute),
        args.len() >= 2 ==> r == if args[1]@ == "--scraper"@ {
            Ok::<Route, RouteError>(Route::Scraper)
        } else if args[1]@ == "--metrics"@ {
            Ok::<Route, RouteError>(Route::Metrics)
        } else {
            Err::<Route, RouteError>(RouteError::InvalidRoute)
        },
{
    if args.len() < 2 {
        return Err(RouteError::MissingRoute);
    }
    let token = chars_of(args[1].as_str());
    if same_chars(&token, &chars_of("--scraper")) {
        Ok(Route::Scraper)
    } else if same_chars(&token, &chars_of("--metrics")) {
        Ok(Route::Metrics)
    } else {
        Err(RouteError::InvalidRoute)
    }
}

} // verus!
