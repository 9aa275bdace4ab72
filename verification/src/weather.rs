use vstd::prelude::*;

verus! {

/// How old the shared index of available weather frames may grow before a
/// task refreshes it: five minutes.
pub const WEATHER_REFRESH_SECS: u64 = 300;

/// The lifecycle of the shared weather-frame index.
#[derive(Copy, Clone, Debug, PartialEq, Eq, Structural)]
pub enum WeatherDataState {
    /// We have no data yet, and nobody has started getting it yet.
    Uninitialized,
    /// We have no data, but someone has started loading it.
    Initializing,
    /// The data is available.
    Available,
    /// The data is available and new data is being loaded simultaneously.
    AvailableUpdating,
}

/// What a task asking for a weather tile should do next, given the state
/// of the shared frame index.
#[derive(Copy, Clone, Debug, PartialEq, Eq, Structural)]
pub enum WeatherAction {
    /// Claim the initialization: fetch the frame index for everyone.
    StartInit,
    /// Another task is initializing; yield until it finishes.
    WaitForInit,
    /// The index is stale; claim the refresh and fetch a new index.
    StartRefresh,
    /// Render a tile from the newest frame of the current index.
    RenderFrame,
}

/// What happened to the task that owned the index, reported back to the
/// state machine.
#[derive(Copy, Clone, Debug, PartialEq, Eq, Structural)]
pub enum WeatherEvent {
    /// A task won the race to initialize and now owns the fetch.
    InitStarted,
    /// The owning task stored a fresh index.
    InitSucceeded,
    /// The owning task failed; the index is still missing.
    InitFailed,
    /// A task won the race to refresh a stale index.
    RefreshStarted,
    /// The refreshing task finished (with new data or not).
    RefreshFinished,
}

/// Decides what a tile-requesting task does next: initialization is
/// claimed when nobody has the index, waited for while someone fetches
/// it, and an index older than `WEATHER_REFRESH_SECS` is refreshed; in
/// every other case the current index is good enough to render from.
pub fn next_weather_action(state: WeatherDataState, index_age_secs: u64) -> (a: WeatherAction)
    ensures
        a == (match state {
            WeatherDataState::Uninitialized => WeatherAction::StartInit,
            WeatherDataState::Initializing => WeatherAction::WaitForInit,
            WeatherDataState::Available => if index_age_secs > WEATHER_REFRESH_SECS {
                WeatherAction::StartRefresh
            } else {
                WeatherAction::RenderFrame
            },
            WeatherDataState::AvailableUpdating => WeatherAction::RenderFrame,
        }),
{
    match state {
        WeatherDataState::Uninitialized => WeatherAction::StartInit,
        WeatherDataState::Initializing => WeatherAction::WaitForInit,
        WeatherDataState::Available => {
            if index_age_secs > WEATHER_REFRESH_SECS {
                WeatherAction::StartRefresh
            } else {
                WeatherAction::RenderFrame
            }
        },
        WeatherDataState::AvailableUpdating => WeatherAction::RenderFrame,
    }
}

/// The transition table of the shared index's lifecycle. An event that
/// lost its race (applied in any other state) changes nothing.
pub open spec fn weather_next(state: WeatherDataState, event: WeatherEvent) -> WeatherDataState {
    match (state, event) {
        (WeatherDataState::Uninitialized, WeatherEvent::InitStarted) => WeatherDataState::Initializing,
        (WeatherDataState::Initializing, WeatherEvent::InitSucceeded) => WeatherDataState::Available,
        (WeatherDataState::Initializing, WeatherEvent::InitFailed) => WeatherDataState::Uninitialized,
        (WeatherDataState::Available, WeatherEvent::RefreshStarted) => WeatherDataState::AvailableUpdating,
        (WeatherDataState::AvailableUpdating, WeatherEvent::RefreshFinished) => WeatherDataState::Available,
        _ => state,
    }
}

/// The shared state after an event: claiming initialization moves
/// `Uninitialized` to `Initializing`, whose outcome settles to
/// `Available` or falls back to `Uninitialized`; a claimed refresh keeps
/// the old index readable in `AvailableUpdating` until it finishes. An
/// event that lost its race (applied in any other state) changes nothing.
pub fn weather_transition(state: WeatherDataState, event: WeatherEvent) -> (next:
    WeatherDataState)
    ensures
        next == weather_next(state, event),
{
    match (state, event) {
        (WeatherDataState::Uninitialized, WeatherEvent::InitStarted) => WeatherDataState::Initializing,
        (WeatherDataState::Initializing, WeatherEvent::InitSucceeded) => WeatherDataState::Available,
        (WeatherDataState::Initializing, WeatherEvent::InitFailed) => WeatherDataState::Uninitialized,
        (WeatherDataState::Available, WeatherEvent::RefreshStarted) => WeatherDataState::AvailableUpdating,
        (WeatherDataState::AvailableUpdating, WeatherEvent::RefreshFinished) => WeatherDataState::Available,
        _ => state,
    }
}

/// Law: the index, once fetched, never becomes unreadable — from a state
/// that has data, no event leads back to a state without it.
pub proof fn lemma_weather_data_stays(state: WeatherDataState, event: WeatherEvent)
    requires
        state == WeatherDataState::Available || state == WeatherDataState::AvailableUpdating,
    ensures
        weather_next(state, event) == WeatherDataState::Available || weather_next(state, event)
            == WeatherDataState::AvailableUpdating,
{
}

} // verus!
