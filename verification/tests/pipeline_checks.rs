use arma_pipeline::pipeline::{check_change_forecasts, check_level_forecasts, Shortfall};

#[test]
fn a_run_on_changes_that_lines_up() {
    assert_eq!(check_change_forecasts(3, 2, 1), Ok(()));
    assert_eq!(check_change_forecasts(2521, 2520, 2519), Ok(()));
}

#[test]
fn a_run_on_changes_fails_on_its_first_shortfall() {
    assert_eq!(check_change_forecasts(10, 1, 0), Err(Shortfall::SeriesTooShort));
    assert_eq!(check_change_forecasts(10, 0, 0), Err(Shortfall::SeriesTooShort));
    assert_eq!(check_change_forecasts(1, 1, 5), Err(Shortfall::SeriesTooShort));
    assert_eq!(check_change_forecasts(10, 9, 9), Err(Shortfall::ForecastsMisaligned));
    assert_eq!(check_change_forecasts(10, 9, 7), Err(Shortfall::ForecastsMisaligned));
    assert_eq!(check_change_forecasts(2, 9, 7), Err(Shortfall::ForecastsMisaligned));
    assert_eq!(check_change_forecasts(2, 9, 8), Err(Shortfall::TooFewLevels));
    assert_eq!(check_change_forecasts(0, 2, 1), Err(Shortfall::TooFewLevels));
    assert_eq!(
        check_change_forecasts(5, usize::MAX, usize::MAX),
        Err(Shortfall::ForecastsMisaligned)
    );
}

#[test]
fn a_run_on_levels() {
    assert_eq!(check_level_forecasts(2, 1), Ok(()));
    assert_eq!(check_level_forecasts(2, 9), Ok(()));
    assert_eq!(check_level_forecasts(100, 99), Ok(()));
    assert_eq!(check_level_forecasts(1, 0), Err(Shortfall::SeriesTooShort));
    assert_eq!(check_level_forecasts(0, 5), Err(Shortfall::SeriesTooShort));
    assert_eq!(check_level_forecasts(100, 98), Err(Shortfall::ForecastsMisaligned));
    assert_eq!(check_level_forecasts(2, 0), Err(Shortfall::ForecastsMisaligned));
}
