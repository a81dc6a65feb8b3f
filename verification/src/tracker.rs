//! Threshold transition tracking.
//!
//! Once per poll cycle the tracker compares the freshly aggregated
//! effective percentage against the previous cycle's value and against the
//! three configured thresholds, and decides whether the percentage has just
//! dropped into a more severe band. Alerts are edge-triggered: a band fires
//! only on the transition into it, never while the value merely stays
//! there, and at most one action (the most severe crossed edge) fires per
//! cycle.

use vstd::prelude::*;

use crate::reading::effective_percentage;
use crate::reading::effective_spec;
use crate::reading::SourceReading;

verus! {

/// The alert a cycle fires when the effective percentage drops into a more
/// severe band: a low-battery warning, a critically-low notification, or
/// the configured recovery (danger) command.
#[derive(Clone, Copy, PartialEq, Eq, Structural, Debug)]
pub enum Action {
    Warning,
    Critical,
    Danger,
}

/// Why a source failed to deliver a usable reading this cycle. Either kind
/// aborts the whole cycle: skipping a source could mask a drained battery.
#[derive(Clone, Copy, PartialEq, Eq, Structural, Debug)]
pub enum SourceError {
    /// The source's status or level data could not be read at all.
    Unreadable,
    /// The level data was present but not a percentage in 0..=100.
    MalformedLevel,
}

/// Initial previous-percentage value, above every real percentage, so that
/// the very first cycle never fires an action: a deliberate no-alert-on-
/// startup policy.
pub const STARTUP_SENTINEL: u8 = 101;

/// The percentage has just fallen at or below `threshold` when it was
/// strictly above it on the previous cycle.
pub open spec fn crosses(current: int, previous: int, threshold: int) -> bool {
    current <= threshold && previous > threshold
}

/// Which action (if any) a cycle fires, given the new effective percentage,
/// the previous cycle's value, and the three thresholds.
///
/// A previous value above 100 is the startup sentinel: the first cycle
/// never alerts. Otherwise an action fires only while the percentage is
/// strictly decreasing, and only for the most severe threshold edge crossed
/// this cycle, danger before critical before warning.
pub open spec fn action_spec(
    current: int,
    previous: int,
    warning: int,
    critical: int,
    danger: int,
) -> Option<Action> {
    if previous > 100 {
        None
    } else if current >= previous {
        None
    } else if crosses(current, previous, danger) {
        Some(Action::Danger)
    } else if crosses(current, previous, critical) {
        Some(Action::Critical)
    } else if crosses(current, previous, warning) {
        Some(Action::Warning)
    } else {
        None
    }
}

/// The per-process threshold transition tracker: the three thresholds,
/// fixed for the life of the process, and the only mutable state carried
/// from one poll cycle to the next, the previous effective percentage.
pub struct Tracker {
    pub warning: u8,
    pub critical: u8,
    pub danger: u8,
    pub previous_percentage: u8,
}

impl Tracker {
    /// A fresh tracker whose previous percentage holds the startup
    /// sentinel, so its first cycle cannot fire an action.
    pub fn new(warning: u8, critical: u8, danger: u8) -> (t: Tracker)
        ensures
            t.warning == warning,
            t.critical == critical,
            t.danger == danger,
            t.previous_percentage == STARTUP_SENTINEL,
    {
        Tracker { warning, critical, danger, previous_percentage: STARTUP_SENTINEL }
    }

    /// The action this tracker would fire on seeing `current` next.
    pub open spec fn action_for(self, current: int) -> Option<Action> {
        action_spec(
            current,
            self.previous_percentage as int,
            self.warning as int,
            self.critical as int,
            self.danger as int,
        )
    }

    /// Evaluate one cycle's threshold transition: return the action the
    /// drop from the previous percentage to `current` fires (if any), and
    /// commit `current` as the next cycle's previous percentage,
    /// unconditionally, whether or not an action fired.
    pub fn step(&mut self, current: u8) -> (action: Option<Action>)
        requires
            current <= 100,
        ensures
            action == old(self).action_for(current as int),
            final(self).previous_percentage == current,
            final(self).warning == old(self).warning,
            final(self).critical == old(self).critical,
            final(self).danger == old(self).danger,
    {
        let previous = self.previous_percentage;
        self.previous_percentage = current;
        if previous <= 100 && current < previous {
            if current <= self.danger && previous > self.danger {
                Some(Action::Danger)
            } else if current <= self.critical && previous > self.critical {
                Some(Action::Critical)
            } else if current <= self.warning && previous > self.warning {
                Some(Action::Warning)
            } else {
                None
            }
        } else {
            None
        }
    }
}

/// Some source failed to deliver a usable reading this cycle.
pub open spec fn has_source_error(samples: Seq<Result<SourceReading, SourceError>>) -> bool {
    exists|i: int| 0 <= i < samples.len() && samples[i] is Err
}

/// The error of the first failed source, in configuration order.
pub open spec fn first_source_error(
    samples: Seq<Result<SourceReading, SourceError>>,
) -> SourceError
    decreases samples.len(),
{
    if samples.len() == 0 {
        SourceError::Unreadable
    } else if samples[0] is Err {
        samples[0]->Err_0
    } else {
        first_source_error(samples.drop_first())
    }
}

/// The readings of a cycle in which every source was sampled successfully.
pub open spec fn readings_of(
    samples: Seq<Result<SourceReading, SourceError>>,
) -> Seq<SourceReading> {
    samples.map_values(|sample: Result<SourceReading, SourceError>| sample->Ok_0)
}

proof fn lemma_first_source_error_at(
    samples: Seq<Result<SourceReading, SourceError>>,
    i: int,
)
    requires
        0 <= i < samples.len(),
        samples[i] is Err,
        forall|j: int| 0 <= j < i ==> samples[j] is Ok,
    ensures
        has_source_error(samples),
        first_source_error(samples) == samples[i]->Err_0,
    decreases i,
{
    if i > 0 {
        lemma_first_source_error_at(samples.drop_first(), i - 1);
    }
}

impl Tracker {
    /// Run one whole poll cycle on the per-source sample outcomes: abort
    /// with the first source error, leaving the tracker untouched, or
    /// aggregate the readings into the effective percentage, evaluate the
    /// threshold transition, and commit the percentage as the next cycle's
    /// previous value.
    pub fn run_cycle(&mut self, samples: &Vec<Result<SourceReading, SourceError>>) -> (outcome:
        Result<Option<Action>, SourceError>)
        requires
            forall|i: int|
                0 <= i < samples@.len() && samples@[i] is Ok ==> samples@[i]->Ok_0.level
                    <= 100,
        ensures
            has_source_error(samples@) ==> {
                &&& outcome == Err::<Option<Action>, SourceError>(
                    first_source_error(samples@),
                )
                &&& *final(self) == *old(self)
            },
            !has_source_error(samples@) ==> {
                &&& outcome == Ok::<Option<Action>, SourceError>(
                    old(self).action_for(effective_spec(readings_of(samples@))),
                )
                &&& final(self).previous_percentage as int == effective_spec(
                    readings_of(samples@),
                )
                &&& final(self).warning == old(self).warning
                &&& final(self).critical == old(self).critical
                &&& final(self).danger == old(self).danger
            },
    {
        let mut readings: Vec<SourceReading> = Vec::new();
        let mut i: usize = 0;
        while i < samples.len()
            invariant
                i <= samples@.len(),
                forall|j: int|
                    0 <= j < samples@.len() && samples@[j] is Ok ==> samples@[j]->Ok_0.level
                        <= 100,
                forall|j: int| 0 <= j < i ==> samples@[j] is Ok,
                readings@ == readings_of(samples@.take(i as int)),
            decreases samples@.len() - i,
        {
            match samples[i] {
                Ok(reading) => {
                    readings.push(reading);
                    proof {
                        assert(readings@ =~= readings_of(samples@.take(i + 1)));
                    }
                },
                Err(error) => {
                    proof {
                        lemma_first_source_error_at(samples@, i as int);
                    }
                    return Err(error);
                },
            }
            i = i + 1;
        }
        proof {
            assert(samples@.take(samples@.len() as int) =~= samples@);
        }
        let current = effective_percentage(&readings);
        Ok(self.step(current))
    }
}

/// First cycle: with the previous percentage still at the startup
/// sentinel, no action fires, whatever the current percentage in 0..=100
/// and whatever the thresholds.
pub proof fn lemma_first_cycle_fires_nothing(
    current: int,
    warning: int,
    critical: int,
    danger: int,
)
    requires
        0 <= current <= 100,
    ensures
        action_spec(current, STARTUP_SENTINEL as int, warning, critical, danger) is None,
{
}

/// A cycle where the percentage does not change never fires an action,
/// even while the value sits below a threshold.
pub proof fn lemma_no_change_fires_nothing(
    current: int,
    warning: int,
    critical: int,
    danger: int,
)
    ensures
        action_spec(current, current, warning, critical, danger) is None,
{
}

/// A cycle where the percentage increases never fires an action, even
/// while the value stays below a threshold.
pub proof fn lemma_increase_fires_nothing(
    current: int,
    previous: int,
    warning: int,
    critical: int,
    danger: int,
)
    requires
        current > previous,
    ensures
        action_spec(current, previous, warning, critical, danger) is None,
{
}

/// Alerts are edge-triggered and re-armed by recovery: a drop from above
/// the warning threshold to the warning band fires the warning, and after
/// the percentage recovers above the threshold, a second such drop fires
/// it again.
pub proof fn lemma_warning_rearms(
    warning: int,
    critical: int,
    danger: int,
    start: int,
    first_drop: int,
    recovered: int,
    second_drop: int,
)
    requires
        danger <= critical <= warning <= 100,
        warning < start <= 100,
        critical < first_drop <= warning,
        warning < recovered <= 100,
        critical < second_drop <= warning,
    ensures
        action_spec(first_drop, start, warning, critical, danger) == Some(Action::Warning),
        action_spec(second_drop, recovered, warning, critical, danger) == Some(Action::Warning),
{
}

/// Exactly when each band fires, spelled out per action: an edge fires only
/// on a real (non-sentinel) previous value, only while the percentage is
/// decreasing, and only for the most severe threshold crossed this cycle.
pub proof fn lemma_action_characterization(
    current: int,
    previous: int,
    warning: int,
    critical: int,
    danger: int,
)
    ensures
        action_spec(current, previous, warning, critical, danger) == Some(Action::Danger)
            <==> (previous <= 100 && current < previous && crosses(current, previous, danger)),
        action_spec(current, previous, warning, critical, danger) == Some(Action::Critical)
            <==> (previous <= 100 && current < previous && !crosses(current, previous, danger)
                && crosses(current, previous, critical)),
        action_spec(current, previous, warning, critical, danger) == Some(Action::Warning)
            <==> (previous <= 100 && current < previous && !crosses(current, previous, danger)
                && !crosses(current, previous, critical) && crosses(current, previous, warning)),
{
}

} // verus!
