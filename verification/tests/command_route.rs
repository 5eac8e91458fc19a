use native_high_performance::routing::{select_route, Route, RouteError};

fn args(a: &[&str]) -> Vec<String> {
    a.iter().map(|s| s.to_string()).collect()
}

#[test]
fn known_routes_are_selected() {
    assert_eq!(select_route(&args(&["prog", "--scraper"])), Ok(Route::Scraper));
    assert_eq!(select_route(&args(&["prog", "--metrics", "extra"])), Ok(Route::Metrics));
}

#[test]
fn missing_and_unknown_routes_are_refused() {
    assert_eq!(select_route(&args(&["prog"])), Err(RouteError::MissingRoute));
    assert_eq!(select_route(&args(&[])), Err(RouteError::MissingRoute));
    assert_eq!(select_route(&args(&["prog", "--scrape"])), Err(RouteError::InvalidRoute));
    assert_eq!(select_route(&args(&["prog", ""])), Err(RouteError::InvalidRoute));
    assert_eq!(RouteError::MissingRoute.message(), "FAIL: Execution routing parameter missing");
    assert_eq!(RouteError::InvalidRoute.message(), "FAIL: Invalid destination routing token specified");
}
