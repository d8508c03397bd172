use vstd::prelude::*;

verus! {

/// How many times the schema migrations are tried before startup fails.
pub const MIGRATION_ATTEMPTS: u8 = 12;

/// How long to wait after a busy database before the next try, in seconds.
pub const MIGRATION_RETRY_SECONDS: u64 = 2;

/// What one try of the schema migrations came to.
#[derive(PartialEq, Eq, Structural, Clone, Copy, Debug)]
pub enum MigrationEvent {
    /// No connection to the database could be opened.
    ConnectFailed,
    /// The migrations ran to the end.
    Migrated,
    /// The migrations failed, most often because another process held the
    /// database lock.
    MigrationFailed,
}

/// What to do after a try of the schema migrations.
#[derive(PartialEq, Eq, Structural, Clone, Copy, Debug)]
pub enum MigrationStep {
    /// The schema is in place.
    Succeed,
    /// Startup fails with the error of this try.
    Fail,
    /// Wait `delay_seconds`, then make try number `next_attempt`.
    Retry { next_attempt: u8, delay_seconds: u64 },
}

/// What follows try number `attempt` (counted from 1) that ended in
/// `event`: success ends the loop, a failed connection fails startup at
/// once, and a failed migration is retried after a pause until the last
/// allowed try, whose failure fails startup.
pub open spec fn next_migration_step(attempt: u8, event: MigrationEvent) -> MigrationStep {
    match event {
        MigrationEvent::Migrated => MigrationStep::Succeed,
        MigrationEvent::ConnectFailed => MigrationStep::Fail,
        MigrationEvent::MigrationFailed => if attempt < MIGRATION_ATTEMPTS {
            MigrationStep::Retry {
                next_attempt: (attempt + 1) as u8,
                delay_seconds: MIGRATION_RETRY_SECONDS,
            }
        } else {
            MigrationStep::Fail
        },
    }
}

/// The number of the first try.
pub fn first_migration_attempt() -> (r: u8)
    ensures
        r == 1,
{
    1
}

/// What follows try number `attempt` that ended in `event` (see
/// `next_migration_step`).
pub fn after_migration_attempt(attempt: u8, event: MigrationEvent) -> (r: MigrationStep)
    requires
        1 <= attempt <= MIGRATION_ATTEMPTS,
    ensures
        r == next_migration_step(attempt, event),
        event == MigrationEvent::Migrated ==> r == MigrationStep::Succeed,
        event == MigrationEvent::ConnectFailed ==> r == MigrationStep::Fail,
        r matches MigrationStep::Retry { next_attempt, .. } ==> attempt < next_attempt
            <= MIGRATION_ATTEMPTS,
{
    match event {
        MigrationEvent::Migrated => MigrationStep::Succeed,
        MigrationEvent::ConnectFailed => MigrationStep::Fail,
        MigrationEvent::MigrationFailed => {
            if attempt < MIGRATION_ATTEMPTS {
                MigrationStep::Retry {
                    next_attempt: attempt + 1,
                    delay_seconds: MIGRATION_RETRY_SECONDS,
                }
            } else {
                MigrationStep::Fail
            }
        },
    }
}

/// The try numbers that a run of the migration loop passes through when
/// every try ends in the events `events`, one per try, starting from try
/// `attempt`; `None` where the run ends before the events do.
pub open spec fn migration_run(attempt: u8, events: Seq<MigrationEvent>) -> Option<
    MigrationStep,
>
    decreases events.len(),
{
    if events.len() == 0 {
        None
    } else {
        match next_migration_step(attempt, events[0]) {
            MigrationStep::Retry { next_attempt, .. } => migration_run(
                next_attempt,
                events.drop_first(),
            ),
            step => Some(step),
        }
    }
}

/// The migration loop always ends: started at try 1, whatever the tries
/// come to, it has succeeded or failed after at most `MIGRATION_ATTEMPTS`
/// tries; a failed connection is never retried.
pub proof fn lemma_migration_terminates(attempt: u8, events: Seq<MigrationEvent>)
    requires
        1 <= attempt <= MIGRATION_ATTEMPTS,
        events.len() >= MIGRATION_ATTEMPTS - attempt + 1,
    ensures
        migration_run(attempt, events) matches Some(step) && !(step is Retry),
        events[0] == MigrationEvent::ConnectFailed ==> migration_run(attempt, events) == Some(
            MigrationStep::Fail,
        ),
    decreases MIGRATION_ATTEMPTS - attempt,
{
    if events[0] == MigrationEvent::MigrationFailed && attempt < MIGRATION_ATTEMPTS {
        lemma_migration_terminates((attempt + 1) as u8, events.drop_first());
    }
}

/// The retry rule try by try: a try whose migrations ran to the end always
/// succeeds, whatever its number; a failed connection always fails startup;
/// a failed migration is retried two seconds later as the next try, up to
/// the twelfth, whose failure fails startup.
pub proof fn lemma_migration_rule(attempt: u8)
    requires
        1 <= attempt <= 12,
    ensures
        next_migration_step(attempt, MigrationEvent::Migrated) == MigrationStep::Succeed,
        next_migration_step(attempt, MigrationEvent::ConnectFailed) == MigrationStep::Fail,
        attempt < 12 ==> next_migration_step(attempt, MigrationEvent::MigrationFailed)
            == (MigrationStep::Retry { next_attempt: (attempt + 1) as u8, delay_seconds: 2 }),
        attempt == 12 ==> next_migration_step(attempt, MigrationEvent::MigrationFailed)
            == MigrationStep::Fail,
{
}

} // verus!
