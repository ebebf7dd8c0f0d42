use wyoming::diagnostics::{
    audio_device_label, audio_format_label, health_response, is_healthy_reply, json_response, not_found_response,
    parse_request_head, parse_request_line, parse_usize, ratio_error_response, ratio_label, reset_response, route,
    server_address_label, session_change, sse_admits, sse_keeps_client, sse_rejected_response, sse_snapshot_json,
    RatioKind, RollupCounters, Route, SendOutcome, SessionChange, SessionOutcome, SessionTracker,
};
use wyoming::state::SatelliteState;
use wyoming::text::trim_text;

#[test]
fn health_disconnected_is_503() {
    let r = health_response(false);
    assert!(r.starts_with("HTTP/1.1 503"));
    assert!(r.contains("disconnected"));
    assert_eq!(
        r,
        "HTTP/1.1 503 Service Unavailable\r\nContent-Type: text/plain\r\nContent-Length: 12\r\nConnection: close\r\n\r\ndisconnected"
    );
}

#[test]
fn health_connected_is_200() {
    let r = health_response(true);
    assert!(r.starts_with("HTTP/1.1 200 OK"));
    assert!(r.contains("healthy"));
    assert!(r.contains("Content-Length: 7\r\n"));
}

#[test]
fn unknown_path_routes_to_404() {
    let (method, path) = parse_request_line("GET /foo HTTP/1.1\r\n");
    assert_eq!(route(&method, &path), Route::NotFound);
    assert!(not_found_response().starts_with("HTTP/1.1 404"));
}

#[test]
fn routes_of_known_requests() {
    assert_eq!(route("GET", "/health"), Route::Health);
    assert_eq!(route("GET", "/"), Route::Snapshot);
    assert_eq!(route("GET", "/rollups"), Route::Rollups);
    assert_eq!(route("GET", "/sessions"), Route::Sessions);
    assert_eq!(route("GET", "/stream"), Route::Stream);
    assert_eq!(route("POST", "/vad/attack_ratio"), Route::SetRatio(RatioKind::Attack));
    assert_eq!(route("POST", "/vad/sustain_ratio"), Route::SetRatio(RatioKind::Sustain));
    assert_eq!(route("POST", "/pipeline/reset"), Route::ResetPipeline);
    assert_eq!(route("POST", "/health"), Route::NotFound);
    assert_eq!(route("GET", "/pipeline/reset"), Route::NotFound);
}

#[test]
fn request_line_words_and_defaults() {
    let (m, p) = parse_request_line("POST /vad/threshold HTTP/1.1\r\n");
    assert_eq!(m, "POST");
    assert_eq!(p, "/vad/threshold");
    let (m, p) = parse_request_line("   GET\t/x  ");
    assert_eq!(m, "GET");
    assert_eq!(p, "/x");
    let (m, p) = parse_request_line("");
    assert_eq!(m, "GET");
    assert_eq!(p, "/");
    let (m, p) = parse_request_line("DELETE");
    assert_eq!(m, "DELETE");
    assert_eq!(p, "/");
}

#[test]
fn content_length_headers() {
    let headers = vec![
        "Host: localhost\r\n".to_string(),
        "Content-Length: 12\r\n".to_string(),
        "Accept: */*\r\n".to_string(),
    ];
    let head = parse_request_head("POST /vad/attack_ratio HTTP/1.1\r\n", &headers);
    assert_eq!(head.method, "POST");
    assert_eq!(head.path, "/vad/attack_ratio");
    assert_eq!(head.content_length, 12);

    let headers = vec!["content-length:   +7  \r\n".to_string()];
    assert_eq!(parse_request_head("POST / HTTP/1.1", &headers).content_length, 7);

    // A value that does not parse sets the length to zero; the last header wins.
    let headers = vec!["Content-Length: 5\r\n".to_string(), "Content-Length: five\r\n".to_string()];
    assert_eq!(parse_request_head("POST / HTTP/1.1", &headers).content_length, 0);
    let headers = vec!["Content-Length: 5\r\n".to_string(), "CONTENT-LENGTH: 9\r\n".to_string()];
    assert_eq!(parse_request_head("POST / HTTP/1.1", &headers).content_length, 5);
    assert_eq!(parse_request_head("GET / HTTP/1.1", &Vec::new()).content_length, 0);
}

#[test]
fn usize_parsing_follows_std() {
    for s in ["0", "42", "+42", "007", "18446744073709551615", "", "+", "-1", "4 2", "1a", "18446744073709551616"] {
        assert_eq!(parse_usize(s), s.parse::<usize>().ok(), "input {:?}", s);
    }
}

#[test]
fn trim_follows_std() {
    for s in ["  a b  ", "\r\n", "", "x", "\u{a0}y\u{3000}", " \t12\r\n"] {
        assert_eq!(trim_text(s), s.trim(), "input {:?}", s);
    }
}

#[test]
fn responses_carry_byte_length() {
    let r = json_response("{\"é\":1}", true);
    assert_eq!(
        r,
        "HTTP/1.1 200 OK\r\nContent-Type: application/json\r\nAccess-Control-Allow-Origin: *\r\nContent-Length: 8\r\nConnection: close\r\n\r\n{\"é\":1}"
    );
    assert!(reset_response().ends_with("\r\n\r\n{\"reset\":\"queued\"}"));
    assert!(sse_rejected_response().ends_with("Too many SSE clients"));
}

#[test]
fn ratio_errors() {
    assert_eq!(ratio_label(RatioKind::Attack), "attack_ratio");
    assert_eq!(ratio_label(RatioKind::Sustain), "sustain_ratio");
    let r = ratio_error_response(RatioKind::Sustain);
    assert!(r.starts_with("HTTP/1.1 400 Bad Request\r\n"));
    assert!(r.ends_with("{\"error\":\"sustain_ratio must be a positive number\"}"));
}

#[test]
fn sse_client_limit() {
    assert!(sse_admits(0));
    assert!(sse_admits(2));
    assert!(!sse_admits(3));
}

#[test]
fn snapshot_labels() {
    assert_eq!(server_address_label("10.0.0.1", 10700), "10.0.0.1:10700");
    assert_eq!(audio_format_label(16000, 2, 1), "16000Hz 16bit 1ch");
    assert_eq!(audio_device_label(&None, &Some("test.wav".to_string())), "test.wav");
    assert_eq!(audio_device_label(&Some("hw:0,0".to_string()), &Some("test.wav".to_string())), "hw:0,0");
    assert_eq!(audio_device_label(&None, &None), "unknown");
}

#[test]
fn sse_snapshot_text() {
    let stages = vec!["highpass".to_string(), "auto_energy".to_string()];
    let json = sse_snapshot_json("test-sat", &Some("Office".to_string()), "test.wav", "16000Hz 16bit 1ch", "10.0.0.1:10700", &stages);
    assert_eq!(
        json,
        r#"{"satellite_name":"test-sat","area":"Office","audio_device":"test.wav","audio_format":"16000Hz 16bit 1ch","server_address":"10.0.0.1:10700","stages":["highpass","auto_energy"]}"#
    );
    let json = sse_snapshot_json("s", &None, "d", "f", "a", &Vec::new());
    assert_eq!(json, r#"{"satellite_name":"s","area":null,"audio_device":"d","audio_format":"f","server_address":"a","stages":[]}"#);
}

#[test]
fn session_changes() {
    assert_eq!(session_change(SatelliteState::Idle, SatelliteState::Streaming, None), SessionChange::Start);
    assert_eq!(session_change(SatelliteState::Streaming, SatelliteState::Idle, Some(SatelliteState::Streaming)), SessionChange::End(SessionOutcome::SilenceTimeout));
    assert_eq!(session_change(SatelliteState::Responding, SatelliteState::Idle, Some(SatelliteState::Responding)), SessionChange::End(SessionOutcome::Completed));
    assert_eq!(session_change(SatelliteState::Processing, SatelliteState::Idle, Some(SatelliteState::Processing)), SessionChange::End(SessionOutcome::Completed));
    assert_eq!(session_change(SatelliteState::Triggered, SatelliteState::Idle, Some(SatelliteState::Triggered)), SessionChange::End(SessionOutcome::SilenceTimeout));
    assert_eq!(session_change(SatelliteState::Streaming, SatelliteState::Idle, None), SessionChange::Update);
    assert_eq!(session_change(SatelliteState::Streaming, SatelliteState::Processing, Some(SatelliteState::Streaming)), SessionChange::Update);
}

#[test]
fn session_tracker_records_and_bounds() {
    let mut t: SessionTracker<u32> = SessionTracker::new(2);
    assert!(!t.has_active());
    t.end_session(5, SessionOutcome::Completed, 0);
    assert_eq!(t.sessions().len(), 0);

    t.start_session(1000);
    t.update_peak_state(SatelliteState::Processing);
    t.update_peak_state(SatelliteState::Triggered);
    assert_eq!(t.active_peak_state(), Some(SatelliteState::Processing));
    t.end_session(3500, SessionOutcome::Completed, 7);
    assert!(!t.has_active());
    let rec = t.sessions().back().unwrap();
    assert_eq!(rec.onset_uptime_ms, 1000);
    assert_eq!(rec.duration_ms, 2500);
    assert_eq!(rec.peak_state, SatelliteState::Processing);
    assert_eq!(rec.stats, 7);

    t.start_session(4000);
    t.end_session(3000, SessionOutcome::Disconnected, 8);
    assert_eq!(t.sessions().back().unwrap().duration_ms, 0);
    t.start_session(5000);
    t.end_session(5001, SessionOutcome::SilenceTimeout, 9);
    assert_eq!(t.sessions().len(), 2);
    assert_eq!(t.sessions()[0].stats, 8);
    assert_eq!(t.sessions()[1].stats, 9);
}

#[test]
fn rollup_counts_onsets_and_sessions() {
    let mut c = RollupCounters::new();
    assert_eq!(c.finish(), None);
    for &t in &[false, true, true, false, true, false] {
        c.feed(t);
    }
    c.record_session(1500, SessionOutcome::SilenceTimeout);
    c.record_session(500, SessionOutcome::Completed);
    c.record_session(u64::from(u32::MAX) + 10, SessionOutcome::Completed);
    let counts = c.finish().unwrap();
    assert_eq!(counts.total_frames, 6);
    assert_eq!(counts.triggered_frames, 3);
    assert_eq!(counts.trigger_count, 2);
    assert_eq!(counts.session_count, 3);
    assert_eq!(counts.false_session_count, 1);
    assert_eq!(counts.session_dur_max_ms, u32::MAX);
    assert_eq!(counts.session_dur_mean_ms, ((1500 + 500 + u64::from(u32::MAX) + 10) / 3) as u32);
    assert_eq!(c.total_frames, 0);
    assert_eq!(c.session_count, 0);
    assert!(!c.was_triggered);
    // Detection carries over a minute boundary: a frame still on is no new onset.
    c.feed(true);
    c.feed(true);
    let mut d = RollupCounters::new();
    d.feed(true);
    let _ = d.finish();
    d.feed(true);
    assert_eq!(d.trigger_count, 0);
    assert_eq!(c.trigger_count, 1);
}

#[test]
fn health_check_reply_status() {
    assert!(is_healthy_reply(b"HTTP/1.1 200 OK\r\n"));
    assert!(is_healthy_reply(b"HTTP/1.0 200 OK"));
    assert!(!is_healthy_reply(b"HTTP/1.1 503 Service Unavailable"));
    assert!(is_healthy_reply(b"HTTP/1.1 200"));
    assert!(!is_healthy_reply(b"HTTP/1.1 20"));
    assert!(!is_healthy_reply(b"HTTP/2.0 200 OK"));
    assert!(is_healthy_reply(health_response(true).as_bytes()));
    assert!(!is_healthy_reply(health_response(false).as_bytes()));
}

#[test]
fn session_peak_is_furthest_state() {
    let mut t: SessionTracker<()> = SessionTracker::new(10);
    t.start_session(0);
    for s in [SatelliteState::Triggered, SatelliteState::Responding, SatelliteState::Processing, SatelliteState::Idle] {
        t.update_peak_state(s);
    }
    assert_eq!(t.active_peak_state(), Some(SatelliteState::Responding));
    assert_eq!(
        session_change(SatelliteState::Responding, SatelliteState::Idle, t.active_peak_state()),
        SessionChange::End(SessionOutcome::Completed)
    );
}

#[test]
fn session_log_keeps_latest() {
    let mut t: SessionTracker<u32> = SessionTracker::new(3);
    for i in 0..7u32 {
        t.start_session(u64::from(i));
        t.end_session(u64::from(i) + 1, SessionOutcome::SilenceTimeout, i);
    }
    let kept: Vec<u32> = t.sessions().iter().map(|r| r.stats).collect();
    assert_eq!(kept, vec![4, 5, 6]);
    let mut z: SessionTracker<u32> = SessionTracker::new(0);
    for i in 0..3u32 {
        z.start_session(0);
        z.end_session(1, SessionOutcome::Completed, i);
    }
    assert_eq!(z.sessions().len(), 1);
    assert_eq!(z.sessions()[0].stats, 2);
}

#[test]
fn sse_keeps_slow_clients_and_drops_gone_ones() {
    assert!(sse_keeps_client(SendOutcome::Sent));
    assert!(sse_keeps_client(SendOutcome::Full));
    assert!(!sse_keeps_client(SendOutcome::Disconnected));
}

#[test]
fn rollup_second_finish_reports_nothing() {
    let mut c = RollupCounters::new();
    c.feed(true);
    c.feed(false);
    c.feed(true);
    let counts = c.finish().unwrap();
    assert_eq!(counts.total_frames, 3);
    assert_eq!(counts.triggered_frames, 2);
    assert_eq!(counts.trigger_count, 2);
    assert_eq!(c.finish(), None);
}
