//! Satellite lifecycle events. None of them carries data or a payload.
use vstd::prelude::*;

use crate::event::{is_wrong_type, str_is, wrong_type, ConversionError, Event, Eventable};
use crate::json::JsonValue;

verus! {

/// Server informs the satellite that the voice pipeline is ready.
#[derive(Debug, Clone, Copy, PartialEq, Eq, Structural)]
pub struct RunSatellite;

impl Eventable for RunSatellite {
    const EVENT_TYPE: &'static str = "run-satellite";

    fn into_event(self) -> (r: Event)
        ensures
            r.event_type@ == "run-satellite"@,
            r.data@ == Map::<Seq<char>, JsonValue>::empty(),
            r.payload is None,
    {
        Event::new(Self::EVENT_TYPE)
    }

    fn from_event(event: Event) -> (r: Result<RunSatellite, ConversionError>)
        ensures
            event.event_type@ == "run-satellite"@ ==> r == Ok::<RunSatellite, ConversionError>(RunSatellite),
            event.event_type@ != "run-satellite"@ ==> (r matches Err(e) && is_wrong_type(e, "run-satellite"@, event.event_type)),
    {
        if !str_is(&event.event_type, Self::EVENT_TYPE) {
            return Err(wrong_type(Self::EVENT_TYPE, event.event_type));
        }
        Ok(RunSatellite)
    }
}

/// Server informs the satellite that the voice pipeline is not ready.
#[derive(Debug, Clone, Copy, PartialEq, Eq, Structural)]
pub struct PauseSatellite;

impl Eventable for PauseSatellite {
    const EVENT_TYPE: &'static str = "pause-satellite";

    fn into_event(self) -> (r: Event)
        ensures
            r.event_type@ == "pause-satellite"@,
            r.data@ == Map::<Seq<char>, JsonValue>::empty(),
            r.payload is None,
    {
        Event::new(Self::EVENT_TYPE)
    }

    fn from_event(event: Event) -> (r: Result<PauseSatellite, ConversionError>)
        ensures
            event.event_type@ == "pause-satellite"@ ==> r == Ok::<PauseSatellite, ConversionError>(PauseSatellite),
            event.event_type@ != "pause-satellite"@ ==> (r matches Err(e) && is_wrong_type(e, "pause-satellite"@, event.event_type)),
    {
        if !str_is(&event.event_type, Self::EVENT_TYPE) {
            return Err(wrong_type(Self::EVENT_TYPE, event.event_type));
        }
        Ok(PauseSatellite)
    }
}

/// Satellite has started streaming audio to the server.
#[derive(Debug, Clone, Copy, PartialEq, Eq, Structural)]
pub struct StreamingStarted;

impl Eventable for StreamingStarted {
    const EVENT_TYPE: &'static str = "streaming-started";

    fn into_event(self) -> (r: Event)
        ensures
            r.event_type@ == "streaming-started"@,
            r.data@ == Map::<Seq<char>, JsonValue>::empty(),
            r.payload is None,
    {
        Event::new(Self::EVENT_TYPE)
    }

    fn from_event(event: Event) -> (r: Result<StreamingStarted, ConversionError>)
        ensures
            event.event_type@ == "streaming-started"@ ==> r == Ok::<StreamingStarted, ConversionError>(StreamingStarted),
            event.event_type@ != "streaming-started"@ ==> (r matches Err(e) && is_wrong_type(e, "streaming-started"@, event.event_type)),
    {
        if !str_is(&event.event_type, Self::EVENT_TYPE) {
            return Err(wrong_type(Self::EVENT_TYPE, event.event_type));
        }
        Ok(StreamingStarted)
    }
}

/// Satellite has stopped streaming audio to the server.
#[derive(Debug, Clone, Copy, PartialEq, Eq, Structural)]
pub struct StreamingStopped;

impl Eventable for StreamingStopped {
    const EVENT_TYPE: &'static str = "streaming-stopped";

    fn into_event(self) -> (r: Event)
        ensures
            r.event_type@ == "streaming-stopped"@,
            r.data@ == Map::<Seq<char>, JsonValue>::empty(),
            r.payload is None,
    {
        Event::new(Self::EVENT_TYPE)
    }

    fn from_event(event: Event) -> (r: Result<StreamingStopped, ConversionError>)
        ensures
            event.event_type@ == "streaming-stopped"@ ==> r == Ok::<StreamingStopped, ConversionError>(StreamingStopped),
            event.event_type@ != "streaming-stopped"@ ==> (r matches Err(e) && is_wrong_type(e, "streaming-stopped"@, event.event_type)),
    {
        if !str_is(&event.event_type, Self::EVENT_TYPE) {
            return Err(wrong_type(Self::EVENT_TYPE, event.event_type));
        }
        Ok(StreamingStopped)
    }
}

/// Satellite has connected to the server.
#[derive(Debug, Clone, Copy, PartialEq, Eq, Structural)]
pub struct SatelliteConnected;

impl Eventable for SatelliteConnected {
    const EVENT_TYPE: &'static str = "satellite-connected";

    fn into_event(self) -> (r: Event)
        ensures
            r.event_type@ == "satellite-connected"@,
            r.data@ == Map::<Seq<char>, JsonValue>::empty(),
            r.payload is None,
    {
        Event::new(Self::EVENT_TYPE)
    }

    fn from_event(event: Event) -> (r: Result<SatelliteConnected, ConversionError>)
        ensures
            event.event_type@ == "satellite-connected"@ ==> r == Ok::<SatelliteConnected, ConversionError>(SatelliteConnected),
            event.event_type@ != "satellite-connected"@ ==> (r matches Err(e) && is_wrong_type(e, "satellite-connected"@, event.event_type)),
    {
        if !str_is(&event.event_type, Self::EVENT_TYPE) {
            return Err(wrong_type(Self::EVENT_TYPE, event.event_type));
        }
        Ok(SatelliteConnected)
    }
}

/// Satellite has disconnected from the server.
#[derive(Debug, Clone, Copy, PartialEq, Eq, Structural)]
pub struct SatelliteDisconnected;

impl Eventable for SatelliteDisconnected {
    const EVENT_TYPE: &'static str = "satellite-disconnected";

    fn into_event(self) -> (r: Event)
        ensures
            r.event_type@ == "satellite-disconnected"@,
            r.data@ == Map::<Seq<char>, JsonValue>::empty(),
            r.payload is None,
    {
        Event::new(Self::EVENT_TYPE)
    }

    fn from_event(event: Event) -> (r: Result<SatelliteDisconnected, ConversionError>)
        ensures
            event.event_type@ == "satellite-disconnected"@ ==> r == Ok::<SatelliteDisconnected, ConversionError>(SatelliteDisconnected),
            event.event_type@ != "satellite-disconnected"@ ==> (r matches Err(e) && is_wrong_type(e, "satellite-disconnected"@, event.event_type)),
    {
        if !str_is(&event.event_type, Self::EVENT_TYPE) {
            return Err(wrong_type(Self::EVENT_TYPE, event.event_type));
        }
        Ok(SatelliteDisconnected)
    }
}

/// Playback of audio has completed.
#[derive(Debug, Clone, Copy, PartialEq, Eq, Structural)]
pub struct Played;

impl Eventable for Played {
    const EVENT_TYPE: &'static str = "played";

    fn into_event(self) -> (r: Event)
        ensures
            r.event_type@ == "played"@,
            r.data@ == Map::<Seq<char>, JsonValue>::empty(),
            r.payload is None,
    {
        Event::new(Self::EVENT_TYPE)
    }

    fn from_event(event: Event) -> (r: Result<Played, ConversionError>)
        ensures
            event.event_type@ == "played"@ ==> r == Ok::<Played, ConversionError>(Played),
            event.event_type@ != "played"@ ==> (r matches Err(e) && is_wrong_type(e, "played"@, event.event_type)),
    {
        if !str_is(&event.event_type, Self::EVENT_TYPE) {
            return Err(wrong_type(Self::EVENT_TYPE, event.event_type));
        }
        Ok(Played)
    }
}

} // verus!
