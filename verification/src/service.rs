//! The satellite service's decisions: what each action sends, what each tick yields, the
//! pre-roll buffer, and the text it reports to diagnostics clients.
use std::collections::VecDeque;

use vstd::prelude::*;

use crate::audio::{format_data, format_of, read_format, write_format, AudioFormat};
use crate::config::{AudioConfig, SatelliteConfig};
use crate::info::{Attribution, Info, MicProgram, SatelliteInfo, SndProgram};
use crate::connection::{map_server_event, server_input};
use crate::event::{str_is, Event};
use crate::json::{get_u64, map_get, value_string, value_u64, JsonMap, JsonValue};
use crate::state::{Action, FeedbackState, LedState, SatelliteInput, SatelliteState};
use crate::text::{decimal, push_decimal};

verus! {

// ============================================================================
// Base64
// ============================================================================

/// The base64 alphabet character for a six-bit value.
pub open spec fn b64_char(v: int) -> char {
    if v < 26 {
        ((65 + v) as u32) as char
    } else if v < 52 {
        ((97 + v - 26) as u32) as char
    } else if v < 62 {
        ((48 + v - 52) as u32) as char
    } else if v == 62 {
        '+'
    } else {
        '/'
    }
}

/// The four characters for a group of one to three bytes; missing bytes count as zero and
/// their characters are replaced by `=`.
pub open spec fn b64_group(chunk: Seq<u8>) -> Seq<char> {
    let b0 = chunk[0] as int;
    let b1 = if chunk.len() > 1 {
        chunk[1] as int
    } else {
        0
    };
    let b2 = if chunk.len() > 2 {
        chunk[2] as int
    } else {
        0
    };
    seq![
        b64_char(b0 / 4),
        b64_char((b0 % 4) * 16 + b1 / 16),
        if chunk.len() > 1 {
            b64_char((b1 % 16) * 4 + b2 / 64)
        } else {
            '='
        },
        if chunk.len() > 2 {
            b64_char(b2 % 64)
        } else {
            '='
        },
    ]
}

/// The base64 text of some bytes: one group of four characters per three bytes, the last
/// group padded with `=`.
pub open spec fn b64_spec(data: Seq<u8>) -> Seq<char>
    decreases data.len(),
{
    if data.len() == 0 {
        Seq::empty()
    } else if data.len() <= 3 {
        b64_group(data)
    } else {
        b64_group(data.subrange(0, 3)) + b64_spec(data.subrange(3, data.len() as int))
    }
}

/// The base64 text has four characters per started group of three bytes.
pub proof fn lemma_b64_len(data: Seq<u8>)
    ensures
        b64_spec(data).len() == 4 * ((data.len() + 2) / 3),
    decreases data.len(),
{
    if data.len() > 3 {
        lemma_b64_len(data.subrange(3, data.len() as int));
    }
}

/// The base64 text ends in `=` exactly when the byte count is not a multiple of three.
pub proof fn lemma_b64_padding(data: Seq<u8>)
    requires
        data.len() > 0,
    ensures
        (b64_spec(data).last() == '=') == (data.len() % 3 != 0),
    decreases data.len(),
{
    lemma_b64_len(data);
    if data.len() > 3 {
        let rest = data.subrange(3, data.len() as int);
        lemma_b64_padding(rest);
        lemma_b64_len(rest);
        assert(b64_spec(data).last() == b64_spec(rest).last());
    } else {
        let g = b64_group(data);
        if data.len() == 3 {
            let v = (data[2] as int) % 64;
            assert(b64_char(v) != '=');
        }
    }
}

/// A character of the base64 alphabet: an ASCII letter, a digit, `+` or `/`.
pub open spec fn b64_alphabet(c: char) -> bool {
    ('A' <= c <= 'Z') || ('a' <= c <= 'z') || ('0' <= c <= '9') || c == '+' || c == '/'
}

/// The six-bit value of a base64 alphabet character.
pub open spec fn b64_value(c: char) -> int {
    if 'A' <= c <= 'Z' {
        c as int - 65
    } else if 'a' <= c <= 'z' {
        c as int - 97 + 26
    } else if '0' <= c <= '9' {
        c as int - 48 + 52
    } else if c == '+' {
        62
    } else {
        63
    }
}

/// The bytes that a group of four base64 characters stands for: three, or fewer where the
/// group ends in `=`.
pub open spec fn b64_decode_group(g: Seq<char>) -> Seq<u8> {
    let v0 = b64_value(g[0]);
    let v1 = b64_value(g[1]);
    let v2 = if g[2] == '=' {
        0
    } else {
        b64_value(g[2])
    };
    let v3 = if g[3] == '=' {
        0
    } else {
        b64_value(g[3])
    };
    let b0 = (v0 * 4 + v1 / 16) as u8;
    let b1 = ((v1 % 16) * 16 + v2 / 4) as u8;
    let b2 = ((v2 % 4) * 64 + v3) as u8;
    if g[2] == '=' {
        seq![b0]
    } else if g[3] == '=' {
        seq![b0, b1]
    } else {
        seq![b0, b1, b2]
    }
}

/// Standard base64 decoding, group of four characters by group of four.
pub open spec fn b64_decode(text: Seq<char>) -> Seq<u8>
    decreases text.len(),
{
    if text.len() < 4 {
        Seq::empty()
    } else {
        b64_decode_group(text.take(4)) + b64_decode(text.skip(4))
    }
}

/// The alphabet character for a six-bit value belongs to the alphabet and stands for that
/// value.
pub proof fn lemma_b64_char(v: int)
    requires
        0 <= v < 64,
    ensures
        b64_alphabet(b64_char(v)),
        b64_char(v) != '=',
        b64_value(b64_char(v)) == v,
{
    if v < 26 {
        assert(((65 + v) as u32) as char as int == 65 + v);
    } else if v < 52 {
        assert(((97 + v - 26) as u32) as char as int == 97 + v - 26);
    } else if v < 62 {
        assert(((48 + v - 52) as u32) as char as int == 48 + v - 52);
    }
}

/// Decoding a group gives back the one to three bytes it was written from.
proof fn lemma_b64_group_decodes(chunk: Seq<u8>)
    requires
        1 <= chunk.len() <= 3,
    ensures
        b64_decode_group(b64_group(chunk)) == chunk,
{
    let b0 = chunk[0] as int;
    let b1 = if chunk.len() > 1 {
        chunk[1] as int
    } else {
        0
    };
    let b2 = if chunk.len() > 2 {
        chunk[2] as int
    } else {
        0
    };
    lemma_b64_char(b0 / 4);
    lemma_b64_char((b0 % 4) * 16 + b1 / 16);
    lemma_b64_char((b1 % 16) * 4 + b2 / 64);
    lemma_b64_char(b2 % 64);
    let g = b64_group(chunk);
    assert(((b0 / 4) * 4 + ((b0 % 4) * 16 + b1 / 16) / 16) == b0);
    assert((((b0 % 4) * 16 + b1 / 16) % 16) * 16 + ((b1 % 16) * 4 + b2 / 64) / 4 == b1);
    assert((((b1 % 16) * 4 + b2 / 64) % 4) * 64 + b2 % 64 == b2);
    if chunk.len() == 1 {
        assert(b64_decode_group(g) =~= chunk);
    } else if chunk.len() == 2 {
        assert(b64_decode_group(g) =~= chunk);
    } else {
        assert(b64_decode_group(g) =~= chunk);
    }
}

/// Standard base64 decoding of the text gives the bytes back.
pub proof fn lemma_b64_decodes(data: Seq<u8>)
    ensures
        b64_decode(b64_spec(data)) == data,
    decreases data.len(),
{
    if data.len() == 0 {
    } else if data.len() <= 3 {
        let g = b64_group(data);
        lemma_b64_group_decodes(data);
        assert(g.len() == 4);
        assert(g.take(4) =~= g);
        assert(g.skip(4).len() == 0);
        assert(b64_decode(g.skip(4)) == Seq::<u8>::empty());
        assert(b64_decode(g) =~= data);
    } else {
        let first = data.subrange(0, 3);
        let rest = data.subrange(3, data.len() as int);
        let g = b64_group(first);
        let t = b64_spec(rest);
        lemma_b64_group_decodes(first);
        lemma_b64_decodes(rest);
        assert((g + t).take(4) =~= g);
        assert((g + t).skip(4) =~= t);
        assert(b64_decode(g + t) == b64_decode_group(g) + b64_decode(t));
        assert(first + rest =~= data);
    }
}

/// The base64 text ends in as many `=` as the last group lacks bytes, `(3 - n % 3) % 3` for
/// `n` bytes; every other character is from the alphabet.
pub proof fn lemma_b64_characters(data: Seq<u8>)
    ensures
        forall|i: int|
            0 <= i < b64_spec(data).len() ==> (if i >= b64_spec(data).len() - (3 - data.len() % 3) % 3 {
                #[trigger] b64_spec(data)[i] == '='
            } else {
                b64_alphabet(b64_spec(data)[i])
            }),
    decreases data.len(),
{
    lemma_b64_len(data);
    if data.len() == 0 {
    } else if data.len() <= 3 {
        let b0 = data[0] as int;
        let b1 = if data.len() > 1 {
            data[1] as int
        } else {
            0
        };
        let b2 = if data.len() > 2 {
            data[2] as int
        } else {
            0
        };
        lemma_b64_char(b0 / 4);
        lemma_b64_char((b0 % 4) * 16 + b1 / 16);
        lemma_b64_char((b1 % 16) * 4 + b2 / 64);
        lemma_b64_char(b2 % 64);
    } else {
        let first = data.subrange(0, 3);
        let rest = data.subrange(3, data.len() as int);
        lemma_b64_characters(first);
        lemma_b64_characters(rest);
        lemma_b64_len(first);
        lemma_b64_len(rest);
        let g = b64_spec(first);
        let t = b64_spec(rest);
        assert(b64_spec(data) == g + t);
        assert(rest.len() % 3 == data.len() % 3);
        assert forall|i: int| 0 <= i < b64_spec(data).len() implies (if i >= b64_spec(data).len() - (3
            - data.len() % 3) % 3 {
            #[trigger] b64_spec(data)[i] == '='
        } else {
            b64_alphabet(b64_spec(data)[i])
        }) by {
            if i < 4 {
                assert(b64_spec(data)[i] == g[i]);
            } else {
                assert(b64_spec(data)[i] == t[i - 4]);
            }
        }
    }
}

/// The alphabet character for a six-bit value.
fn b64_char_of(v: u32) -> (c: char)
    requires
        v < 64,
    ensures
        c == b64_char(v as int),
{
    let b = v as u8;
    if b < 26 {
        (65 + b) as char
    } else if b < 52 {
        (97 + b - 26) as char
    } else if b < 62 {
        (48 + b - 52) as char
    } else if b == 62 {
        '+'
    } else {
        '/'
    }
}

/// Append the base64 text of `data` to `out`.
pub fn base64_encode(data: &[u8], out: &mut String)
    ensures
        final(out)@ == old(out)@ + b64_spec(data@),
{
    let ghost start = out@;
    let mut i: usize = 0;
    assert(data@.subrange(0, data@.len() as int) =~= data@);
    while i < data.len()
        invariant
            i <= data@.len(),
            i < data@.len() ==> i % 3 == 0,
            out@ + b64_spec(data@.subrange(i as int, data@.len() as int)) == start + b64_spec(data@),
        decreases data@.len() - i,
    {
        let ghost rest = data@.subrange(i as int, data@.len() as int);
        let len = data.len() - i;
        let b0 = data[i] as u32;
        let b1: u32 = if len > 1 {
            data[i + 1] as u32
        } else {
            0
        };
        let b2: u32 = if len > 2 {
            data[i + 2] as u32
        } else {
            0
        };
        let n = (b0 << 16u32) | (b1 << 8u32) | b2;
        proof {
            assert(((((b0 << 16u32) | (b1 << 8u32) | b2) >> 18u32) & 63) == b0 / 4) by (bit_vector)
                requires
                    b0 < 256 && b1 < 256 && b2 < 256,
            ;
            assert(((((b0 << 16u32) | (b1 << 8u32) | b2) >> 12u32) & 63) == (b0 % 4) * 16 + b1 / 16) by (bit_vector)
                requires
                    b0 < 256 && b1 < 256 && b2 < 256,
            ;
            assert(((((b0 << 16u32) | (b1 << 8u32) | b2) >> 6u32) & 63) == (b1 % 16) * 4 + b2 / 64) by (bit_vector)
                requires
                    b0 < 256 && b1 < 256 && b2 < 256,
            ;
            assert((((b0 << 16u32) | (b1 << 8u32) | b2) & 63) == b2 % 64) by (bit_vector)
                requires
                    b0 < 256 && b1 < 256 && b2 < 256,
            ;
        }
        let c0 = b64_char_of((n >> 18u32) & 63);
        let c1 = b64_char_of((n >> 12u32) & 63);
        let c2 = if len > 1 {
            b64_char_of((n >> 6u32) & 63)
        } else {
            '='
        };
        let c3 = if len > 2 {
            b64_char_of(n & 63)
        } else {
            '='
        };
        let ghost before = out@;
        out.push(c0);
        out.push(c1);
        out.push(c2);
        out.push(c3);
        proof {
            let chunk = if rest.len() <= 3 {
                rest
            } else {
                rest.subrange(0, 3)
            };
            assert(chunk[0] == data@[i as int]);
            assert(chunk.len() > 1 ==> chunk[1] == data@[i + 1]);
            assert(chunk.len() > 2 ==> chunk[2] == data@[i + 2]);
            assert(b64_group(chunk) =~= seq![c0, c1, c2, c3]);
            if rest.len() <= 3 {
                assert(data@.subrange(data@.len() as int, data@.len() as int) =~= Seq::<u8>::empty());
                assert(out@ =~= before + b64_spec(rest));
            } else {
                assert(rest.subrange(3, rest.len() as int) =~= data@.subrange(i + 3, data@.len() as int));
                assert(out@ + b64_spec(data@.subrange(i + 3, data@.len() as int)) =~= before + b64_spec(rest));
            }
        }
        if len > 3 {
            i = i + 3;
        } else {
            i = data.len();
        }
    }
    proof {
        assert(data@.subrange(data@.len() as int, data@.len() as int) =~= Seq::<u8>::empty());
        assert(out@ + Seq::<char>::empty() =~= out@);
    }
}

// ============================================================================
// Event summaries and diagnostics text
// ============================================================================

/// The human-readable summary of an incoming event: the detected name, the transcript
/// text, the start stage or the audio rate, and empty otherwise.
pub open spec fn summary_spec(event_type: Seq<char>, data: Map<Seq<char>, JsonValue>) -> Seq<char> {
    if event_type == "detection"@ {
        match value_string(map_get(data, "name"@)) {
            Some(n) => "name="@ + n@,
            None => Seq::empty(),
        }
    } else if event_type == "transcript"@ {
        match value_string(map_get(data, "text"@)) {
            Some(t) => "text="@ + t@,
            None => Seq::empty(),
        }
    } else if event_type == "run-pipeline"@ {
        match value_string(map_get(data, "start_stage"@)) {
            Some(st) => "start_stage="@ + st@,
            None => Seq::empty(),
        }
    } else if event_type == "audio-start"@ {
        match value_u64(map_get(data, "rate"@)) {
            Some(r) => "rate="@ + decimal(r as nat),
            None => Seq::empty(),
        }
    } else {
        Seq::empty()
    }
}

/// `prefix` followed by the string stored under `key`, or the empty text.
fn labelled_text(data: &JsonMap, key: &str, prefix: &str) -> (r: String)
    ensures
        r@ == match value_string(map_get(data@, key@)) {
            Some(s) => prefix@ + s@,
            None => Seq::empty(),
        },
{
    let mut out = String::new();
    match data.get(key) {
        Some(JsonValue::Str(s)) => {
            out.push_str(prefix);
            out.push_str(s.as_str());
        },
        _ => {},
    }
    out
}

/// Extract a human-readable summary from an incoming event.
pub fn summarize_event(event: &Event) -> (r: String)
    ensures
        r@ == summary_spec(event.event_type@, event.data@),
{
    let t = &event.event_type;
    if str_is(t, "detection") {
        labelled_text(&event.data, "name", "name=")
    } else if str_is(t, "transcript") {
        labelled_text(&event.data, "text", "text=")
    } else if str_is(t, "run-pipeline") {
        labelled_text(&event.data, "start_stage", "start_stage=")
    } else if str_is(t, "audio-start") {
        let mut out = String::new();
        match get_u64(&event.data, "rate") {
            Some(r) => {
                out.push_str("rate=");
                push_decimal(&mut out, r);
            },
            None => {},
        }
        out
    } else {
        String::new()
    }
}

/// The diagnostics record of a protocol event: its direction, type and summary.
pub open spec fn protocol_json_spec(dir: Seq<char>, event_type: Seq<char>, summary: Seq<char>) -> Seq<char> {
    "{\"dir\":\""@ + dir + "\",\"type\":\""@ + event_type + "\",\"summary\":\""@ + summary + "\"}"@
}

/// Build the diagnostics record of a protocol event, as JSON text. The parts are inserted as
/// they are.
pub fn protocol_json(dir: &str, event_type: &str, summary: &str) -> (r: String)
    ensures
        r@ == protocol_json_spec(dir@, event_type@, summary@),
{
    let mut out = String::new();
    out.push_str("{\"dir\":\"");
    out.push_str(dir);
    out.push_str("\",\"type\":\"");
    out.push_str(event_type);
    out.push_str("\",\"summary\":\"");
    out.push_str(summary);
    out.push_str("\"}");
    out
}

/// A server-sent-events frame: the event line, the data line and a blank line.
pub open spec fn sse_frame_spec(event_type: Seq<char>, json: Seq<char>) -> Seq<char> {
    "event: "@ + event_type + "\ndata: "@ + json + "\n\n"@
}

/// Build a server-sent-events frame.
pub fn sse_frame(event_type: &str, json: &str) -> (r: String)
    ensures
        r@ == sse_frame_spec(event_type@, json@),
{
    let mut out = String::new();
    out.push_str("event: ");
    out.push_str(event_type);
    out.push_str("\ndata: ");
    out.push_str(json);
    out.push_str("\n\n");
    out
}

// ============================================================================
// Actions
// ============================================================================

/// Whether `e` is the event an action sends to the server, for the capture format `format`.
pub open spec fn is_action_event(action: Action, format: AudioFormat, e: Event) -> bool {
    &&& e.payload is None
    &&& match action {
        Action::SendAudioStart => e.event_type@ == "audio-start"@ && e.data@ == format_data(format, None),
        Action::SendAudioStop => e.event_type@ == "audio-stop"@ && e.data@ == Map::<Seq<char>, JsonValue>::empty(),
        Action::SendStreamingStarted => e.event_type@ == "streaming-started"@ && e.data@ == Map::<
            Seq<char>,
            JsonValue,
        >::empty(),
        Action::SendStreamingStopped => e.event_type@ == "streaming-stopped"@ && e.data@ == Map::<
            Seq<char>,
            JsonValue,
        >::empty(),
        Action::SendPlayed => e.event_type@ == "played"@ && e.data@ == Map::<Seq<char>, JsonValue>::empty(),
        _ => false,
    }
}

/// Whether an action sends an event to the server.
pub open spec fn sends_event(action: Action) -> bool {
    action is SendAudioStart || action is SendAudioStop || action is SendStreamingStarted
        || action is SendStreamingStopped || action is SendPlayed
}

/// The event an action sends to the server, if it sends one: audio-start with the capture
/// format and no timestamp, audio-stop, streaming-started, streaming-stopped or played.
pub fn action_event(action: Action, format: AudioFormat) -> (r: Option<Event>)
    ensures
        sends_event(action) ==> (r matches Some(e) && is_action_event(action, format, e)),
        !sends_event(action) ==> r is None,
{
    match action {
        Action::SendAudioStart => Some(Event::new("audio-start").with_data(write_format(format, None))),
        Action::SendAudioStop => Some(Event::new("audio-stop")),
        Action::SendStreamingStarted => Some(Event::new("streaming-started")),
        Action::SendStreamingStopped => Some(Event::new("streaming-stopped")),
        Action::SendPlayed => Some(Event::new("played")),
        _ => None,
    }
}

/// The feedback state shown for an LED indication.
pub open spec fn led_feedback_spec(led: LedState) -> FeedbackState {
    match led {
        LedState::Off => FeedbackState::Idle,
        LedState::DimWhite => FeedbackState::Listening,
        LedState::Cyan => FeedbackState::Detected,
        LedState::BluePulse => FeedbackState::Processing,
        LedState::Green => FeedbackState::Speaking,
        LedState::RedBlink => FeedbackState::Error,
    }
}

/// The feedback state shown for an LED indication.
pub fn led_feedback(led: LedState) -> (r: FeedbackState)
    ensures
        r == led_feedback_spec(led),
{
    match led {
        LedState::Off => FeedbackState::Idle,
        LedState::DimWhite => FeedbackState::Listening,
        LedState::Cyan => FeedbackState::Detected,
        LedState::BluePulse => FeedbackState::Processing,
        LedState::Green => FeedbackState::Speaking,
        LedState::RedBlink => FeedbackState::Error,
    }
}

/// The playback format after an incoming event: the format of a well-formed audio-start,
/// the current one otherwise.
pub open spec fn playback_format_spec(event: Event, current: AudioFormat) -> AudioFormat {
    if event.event_type@ == "audio-start"@ {
        match format_of(event.data@) {
            Ok(f) => f,
            Err(_) => current,
        }
    } else {
        current
    }
}

/// Capture the playback format announced by the server's audio-start.
pub fn playback_format_after(event: &Event, current: AudioFormat) -> (r: AudioFormat)
    ensures
        r == playback_format_spec(*event, current),
{
    if str_is(&event.event_type, "audio-start") {
        match read_format(&event.data) {
            Ok(f) => f,
            Err(_) => current,
        }
    } else {
        current
    }
}

// ============================================================================
// Session loop
// ============================================================================

/// The actions to perform for a transition: those before the first `Reconnect`.
pub open spec fn actions_before_reconnect(actions: Seq<Action>) -> Seq<Action>
    decreases actions.len(),
{
    if actions.len() == 0 {
        actions
    } else if actions[0] == Action::Reconnect {
        Seq::empty()
    } else {
        seq![actions[0]] + actions_before_reconnect(actions.drop_first())
    }
}

/// The feedback state after performing some actions: that of the last LED indication among
/// them, or `current` when there is none.
pub open spec fn feedback_after(current: FeedbackState, actions: Seq<Action>) -> FeedbackState
    decreases actions.len(),
{
    if actions.len() == 0 {
        current
    } else {
        let before = feedback_after(current, actions.drop_last());
        match actions.last() {
            Action::SetLed(led) => led_feedback_spec(led),
            _ => before,
        }
    }
}

/// What one step of a session does with an input.
pub struct SessionStep {
    /// The state after the transition.
    pub next_state: SatelliteState,
    /// The actions to perform, in order.
    pub actions: Vec<Action>,
    /// Whether the session ends (a `Reconnect` was requested) after those actions.
    pub end_session: bool,
    /// Whether an interaction completed: the satellite returned to idle from processing or
    /// responding.
    pub interaction_completed: bool,
    /// The feedback state after the actions.
    pub feedback: FeedbackState,
}

/// One session step: run the transition, keep the actions up to a `Reconnect`, and report
/// whether the session ends and whether an interaction completed.
pub fn session_step(state: SatelliteState, input: SatelliteInput, feedback: FeedbackState) -> (r: SessionStep)
    ensures
        r.next_state == crate::state::transition_spec(state, input).0,
        r.actions@ == actions_before_reconnect(crate::state::transition_spec(state, input).1),
        r.end_session == crate::state::transition_spec(state, input).1.contains(Action::Reconnect),
        r.interaction_completed == (r.next_state == SatelliteState::Idle && (state == SatelliteState::Processing
            || state == SatelliteState::Responding)),
        r.feedback == feedback_after(feedback, r.actions@),
{
    let (next_state, all) = crate::state::transition(&state, &input);
    let mut actions: Vec<Action> = Vec::new();
    let mut fb = feedback;
    let mut end_session = false;
    let mut i: usize = 0;
    proof {
        assert(all@.subrange(0, all@.len() as int) =~= all@);
        assert(actions@ + actions_before_reconnect(all@) =~= actions_before_reconnect(all@));
        assert(all@.subrange(0, 0) =~= Seq::<Action>::empty());
    }
    while i < all.len() && !end_session
        invariant
            i <= all@.len(),
            !end_session ==> actions@ + actions_before_reconnect(all@.subrange(i as int, all@.len() as int))
                == actions_before_reconnect(all@),
            !end_session ==> !all@.subrange(0, i as int).contains(Action::Reconnect),
            end_session ==> actions@ == actions_before_reconnect(all@) && all@.contains(Action::Reconnect),
            fb == feedback_after(feedback, actions@),
        decreases all@.len() - i,
    {
        let a = all[i];
        let ghost rest = all@.subrange(i as int, all@.len() as int);
        assert(rest[0] == a);
        assert(rest.drop_first() =~= all@.subrange(i + 1, all@.len() as int));
        if a == Action::Reconnect {
            end_session = true;
            assert(all@[i as int] == Action::Reconnect);
            assert(actions@ + Seq::<Action>::empty() =~= actions@);
        } else {
            let ghost prev = actions@;
            actions.push(a);
            match a {
                Action::SetLed(led) => {
                    fb = led_feedback(led);
                },
                _ => {},
            }
            proof {
                assert(actions@.drop_last() =~= prev);
                assert(prev + (seq![a] + actions_before_reconnect(rest.drop_first())) =~= actions@
                    + actions_before_reconnect(rest.drop_first()));
                assert(all@.subrange(0, i + 1) =~= all@.subrange(0, i as int).push(a));
            }
        }
        i = i + 1;
    }
    proof {
        if !end_session {
            assert(all@.subrange(i as int, all@.len() as int) =~= Seq::<Action>::empty());
            assert(actions@ + Seq::<Action>::empty() =~= actions@);
            assert(all@.subrange(0, i as int) =~= all@);
        }
    }
    let interaction_completed = next_state == SatelliteState::Idle && (state == SatelliteState::Processing || state
        == SatelliteState::Responding);
    SessionStep { next_state, actions, end_session, interaction_completed, feedback: fb }
}

// ============================================================================
// Pre-roll buffer
// ============================================================================

/// The frames kept after pushing `frame` onto `frames` with room for `max` frames: nothing
/// is kept when there is no room at all; otherwise the oldest frame makes way when full.
pub open spec fn preroll_push_spec(frames: Seq<Seq<u8>>, frame: Seq<u8>, max: nat) -> Seq<Seq<u8>> {
    if max == 0 {
        frames
    } else if frames.len() >= max {
        frames.drop_first().push(frame)
    } else {
        frames.push(frame)
    }
}

/// Ring buffer of the most recent audio frames captured while idle, up to a fixed count.
/// The frames can be taken out in order; the satellite's actions never send them.
pub struct PrerollBuffer {
    frames: VecDeque<Vec<u8>>,
    max_frames: usize,
}

impl View for PrerollBuffer {
    type V = Seq<Seq<u8>>;

    closed spec fn view(&self) -> Seq<Seq<u8>> {
        self.frames@.map_values(|f: Vec<u8>| f@)
    }
}

impl PrerollBuffer {
    #[verifier::type_invariant]
    spec fn inv(self) -> bool {
        self.frames@.len() <= self.max_frames
    }

    /// The most frames the buffer holds.
    pub closed spec fn capacity(&self) -> nat {
        self.max_frames as nat
    }

    /// An empty buffer with room for `max_frames` frames (none: the buffer stays empty).
    pub fn new(max_frames: usize) -> (r: PrerollBuffer)
        ensures
            r@ == Seq::<Seq<u8>>::empty(),
            r.capacity() == max_frames,
    {
        let r = PrerollBuffer { frames: VecDeque::new(), max_frames };
        assert(r@ =~= Seq::<Seq<u8>>::empty());
        r
    }

    /// Record a frame, dropping the oldest when the buffer is full.
    pub fn push(&mut self, frame: Vec<u8>)
        ensures
            final(self)@ == preroll_push_spec(old(self)@, frame@, old(self).capacity()),
            final(self).capacity() == old(self).capacity(),
            final(self)@.len() <= final(self).capacity(),
    {
        proof {
            use_type_invariant(&*self);
        }
        if self.max_frames == 0 {
            return;
        }
        let ghost before = self.frames@;
        let mut frames = VecDeque::new();
        std::mem::swap(&mut frames, &mut self.frames);
        if frames.len() >= self.max_frames {
            frames.pop_front();
        }
        frames.push_back(frame);
        self.frames = frames;
        proof {
            if before.len() >= self.max_frames {
                assert(self@ =~= before.map_values(|f: Vec<u8>| f@).drop_first().push(frame@));
            } else {
                assert(self@ =~= before.map_values(|f: Vec<u8>| f@).push(frame@));
            }
        }
    }

    /// Number of frames held.
    pub fn len(&self) -> (r: usize)
        ensures
            r == self@.len(),
    {
        self.frames.len()
    }

    /// Forget all frames.
    pub fn clear(&mut self)
        ensures
            final(self)@ == Seq::<Seq<u8>>::empty(),
            final(self).capacity() == old(self).capacity(),
    {
        let mut frames = VecDeque::new();
        std::mem::swap(&mut frames, &mut self.frames);
        frames.clear();
        self.frames = frames;
        assert(self@ =~= Seq::<Seq<u8>>::empty());
    }

    /// Take all frames out, oldest first, leaving the buffer empty.
    pub fn take_frames(&mut self) -> (r: Vec<Vec<u8>>)
        ensures
            r@.map_values(|f: Vec<u8>| f@) == old(self)@,
            final(self)@ == Seq::<Seq<u8>>::empty(),
            final(self).capacity() == old(self).capacity(),
    {
        let mut frames = VecDeque::new();
        std::mem::swap(&mut frames, &mut self.frames);
        let ghost all = frames@;
        let mut out: Vec<Vec<u8>> = Vec::new();
        while frames.len() > 0
            invariant
                out@ + frames@ == all,
            decreases frames@.len(),
        {
            let ghost before = frames@;
            match frames.pop_front() {
                Some(f) => {
                    out.push(f);
                    assert(out@ + frames@ =~= all);
                },
                None => {},
            }
        }
        assert(out@ =~= all);
        assert(self@ =~= Seq::<Seq<u8>>::empty());
        out
    }
}

/// Frames pushed one after another onto a pre-roll buffer.
pub open spec fn preroll_after(frames: Seq<Seq<u8>>, pushed: Seq<Seq<u8>>, max: nat) -> Seq<Seq<u8>>
    decreases pushed.len(),
{
    if pushed.len() == 0 {
        frames
    } else {
        preroll_push_spec(preroll_after(frames, pushed.drop_last(), max), pushed.last(), max)
    }
}

/// After any sequence of pushes onto an empty buffer with room for `max` frames, the buffer
/// holds exactly the last `max` frames pushed (all of them when fewer), oldest first.
pub proof fn lemma_preroll_keeps_latest(pushed: Seq<Seq<u8>>, max: nat)
    requires
        max > 0,
    ensures
        preroll_after(Seq::empty(), pushed, max) == pushed.subrange(
            if pushed.len() > max {
                pushed.len() - max
            } else {
                0
            },
            pushed.len() as int,
        ),
    decreases pushed.len(),
{
    if pushed.len() > 0 {
        let prev = pushed.drop_last();
        lemma_preroll_keeps_latest(prev, max);
        let start = if prev.len() > max {
            prev.len() - max
        } else {
            0
        };
        let kept = prev.subrange(start, prev.len() as int);
        if kept.len() >= max {
            assert(kept.drop_first().push(pushed.last()) =~= pushed.subrange(pushed.len() - max, pushed.len() as int));
        } else {
            assert(kept.push(pushed.last()) =~= pushed.subrange(0, pushed.len() as int));
        }
    }
}

// ============================================================================
// One tick of the main loop
// ============================================================================

/// What the source running dry means for a state: idle and streaming end the stream with a
/// silence timeout; the other states wait for the server instead.
pub open spec fn end_of_stream_spec(state: SatelliteState) -> Option<SatelliteInput> {
    match state {
        SatelliteState::Idle | SatelliteState::Streaming => Some(SatelliteInput::SilenceTimeout),
        _ => None,
    }
}

/// The input for a source that has run out of audio, or `None` to wait for the server.
pub fn end_of_stream_input(state: SatelliteState) -> (r: Option<SatelliteInput>)
    ensures
        r == end_of_stream_spec(state),
{
    match state {
        SatelliteState::Idle | SatelliteState::Streaming => Some(SatelliteInput::SilenceTimeout),
        _ => None,
    }
}

/// The verdict on one captured frame while streaming.
#[derive(Debug, Clone, Copy, PartialEq, Eq, Structural)]
pub struct StreamTick {
    /// Restart the silence clock: the frame holds voice.
    pub voice_seen: bool,
    /// End the stream with this input; otherwise send the frame and poll the server.
    pub input: Option<SatelliteInput>,
}

/// One streaming frame: without voice for longer than the silence timeout the stream ends;
/// streaming for longer than the maximum stream length (when there is one, that is when it
/// is not zero) ends it too. Times are in nanoseconds.
pub open spec fn stream_tick_spec(
    vad_active: bool,
    since_voice: u128,
    silence_timeout: u128,
    since_stream_start: u128,
    max_stream: u128,
) -> StreamTick {
    if !vad_active && since_voice > silence_timeout {
        StreamTick { voice_seen: false, input: Some(SatelliteInput::SilenceTimeout) }
    } else if max_stream > 0 && since_stream_start > max_stream {
        StreamTick { voice_seen: vad_active, input: Some(SatelliteInput::SilenceTimeout) }
    } else {
        StreamTick { voice_seen: vad_active, input: None }
    }
}

/// Judge one streaming frame.
pub fn stream_tick(
    vad_active: bool,
    since_voice: u128,
    silence_timeout: u128,
    since_stream_start: u128,
    max_stream: u128,
) -> (r: StreamTick)
    ensures
        r == stream_tick_spec(vad_active, since_voice, silence_timeout, since_stream_start, max_stream),
{
    if !vad_active && since_voice > silence_timeout {
        return StreamTick { voice_seen: false, input: Some(SatelliteInput::SilenceTimeout) };
    }
    if max_stream > 0 && since_stream_start > max_stream {
        return StreamTick { voice_seen: vad_active, input: Some(SatelliteInput::SilenceTimeout) };
    }
    StreamTick { voice_seen: vad_active, input: None }
}

/// A stream that has run longer than a nonzero maximum always ends, voice or not; and a
/// frame with voice never ends a stream that is within its maximum.
pub proof fn lemma_stream_watchdog(
    vad_active: bool,
    since_voice: u128,
    silence_timeout: u128,
    since_stream_start: u128,
    max_stream: u128,
)
    ensures
        max_stream > 0 && since_stream_start > max_stream ==> stream_tick_spec(
            vad_active,
            since_voice,
            silence_timeout,
            since_stream_start,
            max_stream,
        ).input == Some(SatelliteInput::SilenceTimeout),
        vad_active && (max_stream == 0 || since_stream_start <= max_stream) ==> stream_tick_spec(
            vad_active,
            since_voice,
            silence_timeout,
            since_stream_start,
            max_stream,
        ).input is None,
{
}

/// Silence longer than the timeout ends the stream, whatever the maximum stream length, and
/// reports no voice; a frame within both the silence timeout and the maximum length ends
/// nothing; and a frame restarts the silence clock exactly when it holds voice.
pub proof fn lemma_stream_silence(
    vad_active: bool,
    since_voice: u128,
    silence_timeout: u128,
    since_stream_start: u128,
    max_stream: u128,
)
    ensures
        !vad_active && since_voice > silence_timeout ==> stream_tick_spec(
            vad_active,
            since_voice,
            silence_timeout,
            since_stream_start,
            max_stream,
        ) == (StreamTick { voice_seen: false, input: Some(SatelliteInput::SilenceTimeout) }),
        (vad_active || since_voice <= silence_timeout) && (max_stream == 0 || since_stream_start
            <= max_stream) ==> stream_tick_spec(
            vad_active,
            since_voice,
            silence_timeout,
            since_stream_start,
            max_stream,
        ).input is None,
        stream_tick_spec(vad_active, since_voice, silence_timeout, since_stream_start, max_stream).voice_seen
            == vad_active,
{
}

/// The outcome of reading from the server.
pub enum ServerRead {
    /// An application event arrived.
    Received(Event),
    /// Nothing to handle (no data yet, or a transport event was answered).
    Nothing,
    /// The server closed the connection.
    Closed,
    /// Reading failed.
    Failed,
}

/// The state machine input for a read from the server: the mapped event, nothing, or a
/// disconnection when the connection closed or failed.
pub fn server_read_input(read: &ServerRead) -> (r: Option<SatelliteInput>)
    ensures
        r == match read {
            ServerRead::Received(e) => server_input(e.event_type@),
            ServerRead::Nothing => None::<SatelliteInput>,
            ServerRead::Closed | ServerRead::Failed => Some(SatelliteInput::Disconnected),
        },
{
    match read {
        ServerRead::Received(e) => map_server_event(e),
        ServerRead::Nothing => None,
        ServerRead::Closed | ServerRead::Failed => Some(SatelliteInput::Disconnected),
    }
}

/// Whether an event received while responding is audio to play rather than an input.
pub fn is_playback_audio(event: &Event) -> (r: bool)
    ensures
        r == (event.event_type@ == "audio-chunk"@),
{
    str_is(&event.event_type, "audio-chunk")
}

// ============================================================================
// How the satellite describes itself
// ============================================================================

/// An empty attribution.
fn no_attribution() -> (r: Attribution)
    ensures
        r.name@ == Seq::<char>::empty(),
        r.url@ == Seq::<char>::empty(),
{
    Attribution { name: String::new(), url: String::new() }
}

/// Whether the satellite can play audio: it has a playback device, a WAV output, or a
/// capture device (which also plays).
pub open spec fn has_snd_spec(audio: AudioConfig) -> bool {
    audio.playback_device is Some || audio.wav_output is Some || audio.device is Some
}

/// Whether `i` describes the satellite named in `sat`, at version `version`: installed,
/// with voice activity detection, without trigger support, described by its name.
pub open spec fn is_satellite_info(i: SatelliteInfo, sat: SatelliteConfig, version: Seq<char>) -> bool {
    &&& i.name@ == sat.name@
    &&& i.attribution.name@ == Seq::<char>::empty() && i.attribution.url@ == Seq::<char>::empty()
    &&& i.installed
    &&& i.area == sat.area
    &&& i.description matches Some(d) && d@ == sat.name@
    &&& i.version matches Some(v) && v@ == version
    &&& i.has_vad == Some(true)
    &&& i.active_wake_words is None
    &&& i.max_active_wake_words is None
    &&& i.supports_trigger == Some(false)
}

/// The description of this satellite for Home Assistant: its own entry, one microphone in
/// the capture format, and one speaker in the same format when it can play audio.
pub fn describe_satellite(
    sat: &SatelliteConfig,
    audio: &AudioConfig,
    version: &str,
) -> (r: (SatelliteInfo, Vec<MicProgram>, Vec<SndProgram>))
    ensures
        is_satellite_info(r.0, *sat, version@),
        r.1@.len() == 1,
        r.1@[0].name@ == sat.name@ && r.1@[0].installed && r.1@[0].description is None,
        r.1@[0].version matches Some(v) && v@ == version@,
        r.1@[0].attribution.name@ == Seq::<char>::empty() && r.1@[0].attribution.url@ == Seq::<char>::empty(),
        r.1@[0].mic_format == (AudioFormat { rate: audio.rate, width: audio.width, channels: audio.channels }),
        has_snd_spec(*audio) ==> {
            &&& r.2@.len() == 1
            &&& r.2@[0].name@ == sat.name@ && r.2@[0].installed && r.2@[0].description is None
            &&& r.2@[0].version matches Some(v) && v@ == version@
            &&& r.2@[0].attribution.name@ == Seq::<char>::empty() && r.2@[0].attribution.url@ == Seq::<char>::empty()
            &&& r.2@[0].snd_format == (AudioFormat { rate: audio.rate, width: audio.width, channels: audio.channels })
        },
        !has_snd_spec(*audio) ==> r.2@.len() == 0,
{
    let info = SatelliteInfo {
        name: sat.name.clone(),
        attribution: no_attribution(),
        installed: true,
        area: sat.area.clone(),
        description: Some(sat.name.clone()),
        version: Some(version.to_owned()),
        has_vad: Some(true),
        active_wake_words: None,
        max_active_wake_words: None,
        supports_trigger: Some(false),
    };
    let format = audio.audio_format();
    let mut mic: Vec<MicProgram> = Vec::new();
    mic.push(
        MicProgram {
            name: sat.name.clone(),
            attribution: no_attribution(),
            installed: true,
            description: None,
            version: Some(version.to_owned()),
            mic_format: format,
        },
    );
    let has_snd = audio.playback_device.is_some() || audio.wav_output.is_some() || audio.device.is_some();
    let mut snd: Vec<SndProgram> = Vec::new();
    if has_snd {
        snd.push(
            SndProgram {
                name: sat.name.clone(),
                attribution: no_attribution(),
                installed: true,
                description: None,
                version: Some(version.to_owned()),
                snd_format: format,
            },
        );
    }
    (info, mic, snd)
}

/// The info answer to a describe request: the satellite entry and the microphone and
/// speaker programs, no other services.
pub fn info_reply(sat: SatelliteInfo, mic: Vec<MicProgram>, snd: Vec<SndProgram>) -> (r: Info)
    ensures
        r.satellite == Some(sat),
        r.asr@.len() == 0 && r.tts@.len() == 0 && r.handle@.len() == 0 && r.intent@.len() == 0 && r.wake@.len() == 0,
        r.mic == mic,
        r.snd == snd,
{
    Info {
        satellite: Some(sat),
        asr: Vec::new(),
        tts: Vec::new(),
        handle: Vec::new(),
        intent: Vec::new(),
        wake: Vec::new(),
        mic,
        snd,
    }
}

} // verus!
