//! The checks between the stages of a run: whether what one stage has produced
//! is enough, and lines up, for forecasts to be judged against levels.

use vstd::prelude::*;

verus! {

/// Why the forecasts of a run cannot be judged.
#[derive(Clone, Copy, Debug, PartialEq, Eq, Structural)]
pub enum Shortfall {
    /// Fewer than two points in the series that the model is fitted to.
    SeriesTooShort,
    /// There is not one forecast for each step of the fitted series.
    ForecastsMisaligned,
    /// Too few levels to have two of them after the first.
    TooFewLevels,
}

/// What stands in the way of judging forecasts of changes, the first of: fewer
/// than two changes; a number of forecasts other than one less than the number
/// of changes; fewer than three levels.
pub open spec fn change_shortfall(levels: int, changes: int, forecasts: int) -> Option<Shortfall> {
    if changes < 2 {
        Some(Shortfall::SeriesTooShort)
    } else if forecasts + 1 != changes {
        Some(Shortfall::ForecastsMisaligned)
    } else if levels < 3 {
        Some(Shortfall::TooFewLevels)
    } else {
        None
    }
}

/// What stands in the way of judging forecasts of levels, the first of: fewer
/// than two levels; fewer forecasts than steps between the levels.
pub open spec fn level_shortfall(levels: int, forecasts: int) -> Option<Shortfall> {
    if levels < 2 {
        Some(Shortfall::SeriesTooShort)
    } else if forecasts < levels - 1 {
        Some(Shortfall::ForecastsMisaligned)
    } else {
        None
    }
}

/// Checks a run that models the changes of a series: `changes` first
/// differences were modelled, `forecasts` one-step forecasts of the next change
/// were made, and they are to be judged against the `levels` of the series
/// from the second on.
pub fn check_change_forecasts(levels: usize, changes: usize, forecasts: usize) -> (r: Result<
    (),
    Shortfall,
>)
    ensures
        r == match change_shortfall(levels as int, changes as int, forecasts as int) {
            Some(s) => Err::<(), Shortfall>(s),
            None => Ok(()),
        },
{
    if changes < 2 {
        Err(Shortfall::SeriesTooShort)
    } else if forecasts != changes - 1 {
        Err(Shortfall::ForecastsMisaligned)
    } else if levels < 3 {
        Err(Shortfall::TooFewLevels)
    } else {
        Ok(())
    }
}

/// Checks a run that models the levels of a series themselves: `forecasts`
/// one-step forecasts of the next level are to be judged against `levels`
/// levels.
pub fn check_level_forecasts(levels: usize, forecasts: usize) -> (r: Result<(), Shortfall>)
    ensures
        r == match level_shortfall(levels as int, forecasts as int) {
            Some(s) => Err::<(), Shortfall>(s),
            None => Ok(()),
        },
{
    if levels < 2 {
        Err(Shortfall::SeriesTooShort)
    } else if forecasts < levels - 1 {
        Err(Shortfall::ForecastsMisaligned)
    } else {
        Ok(())
    }
}

/// A run on changes that passes its check, on a series with one level more
/// than changes, hands the evaluation what it asks for: at least two levels
/// after the first, and a forecast for each step between them.
pub proof fn lemma_checked_changes_can_be_judged(levels: int, changes: int, forecasts: int)
    requires
        change_shortfall(levels, changes, forecasts) is None,
        levels == changes + 1,
    ensures
        levels - 1 >= 2,
        forecasts >= (levels - 1) - 1,
{
}

/// A run on levels that passes its check hands the evaluation what it asks
/// for: at least two levels, and a forecast for each step between them.
pub proof fn lemma_checked_levels_can_be_judged(levels: int, forecasts: int)
    requires
        level_shortfall(levels, forecasts) is None,
    ensures
        levels >= 2,
        forecasts >= levels - 1,
{
}

} // verus!
