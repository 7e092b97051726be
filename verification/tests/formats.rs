use ai_chatbox::audio_processing::{LogLevel, State, TransitionLog};
use ai_chatbox::capture::{
    capture_next, feed_buffer_len, sample_count, CaptureAction, CaptureEvent, CaptureFailure,
};
use ai_chatbox::http_client::{
    create_multipart_body, file_name_of, multipart_request, read_response, BOUNDARY,
};
use ai_chatbox::text::{push_decimal, same_text};
use ai_chatbox::wifi::{
    client_credentials, connect_failure, AuthMethod, ConnectPolicy, CredentialError, Credentials,
    Phase, WifiAction, WifiEvent,
};

#[test]
fn state_descriptions() {
    assert_eq!(State::WakeWordDetecting.description(), "Waiting for wake word");
    assert_eq!(State::CommandConfirming.description(), "Confirming command");
    assert_eq!(State::Recording.description(), "Recording audio");
    for state in [State::WakeWordDetecting, State::CommandConfirming, State::Recording] {
        assert_eq!(state.name(), format!("{:?}", state));
    }
}

#[test]
fn transition_log_lines() {
    assert_eq!(
        State::log_transition(State::Recording, State::WakeWordDetecting, "Exit command detected"),
        TransitionLog {
            level: LogLevel::Info,
            message: "State transition: Recording -> WakeWordDetecting (Recording audio → Waiting for wake word): Exit command detected".to_string(),
        }
    );
    assert_eq!(
        State::log_transition(State::Recording, State::Recording, "still talking"),
        TransitionLog {
            level: LogLevel::Debug,
            message: "State remains at Recording (Recording audio): still talking".to_string(),
        }
    );
    for from in [State::WakeWordDetecting, State::CommandConfirming, State::Recording] {
        for to in [State::WakeWordDetecting, State::CommandConfirming, State::Recording] {
            let log = State::log_transition(from, to, "why");
            if from == to {
                assert_eq!(log.level, LogLevel::Debug);
                assert_eq!(
                    log.message,
                    format!("State remains at {:?} ({}): {}", to, to.description(), "why")
                );
            } else {
                assert_eq!(log.level, LogLevel::Info);
                assert_eq!(
                    log.message,
                    format!(
                        "State transition: {:?} -> {:?} ({} → {}): {}",
                        from,
                        to,
                        from.description(),
                        to.description(),
                        "why"
                    )
                );
            }
        }
    }
}

#[test]
fn decimal_numerals() {
    for n in [0u64, 1, 9, 10, 11, 99, 100, 101, 12345, 4294967295, 4294967296, u64::MAX] {
        let mut out = String::from("n=");
        push_decimal(&mut out, n);
        assert_eq!(out, format!("n={}", n));
    }
    for n in 0..2000u64 {
        let mut out = String::new();
        push_decimal(&mut out, n);
        assert_eq!(out, n.to_string());
    }
}

#[test]
fn texts_are_compared_by_content() {
    assert!(same_text("", ""));
    assert!(same_text("system", "system"));
    assert!(same_text("再见", "再见"));
    assert!(!same_text("system", "System"));
    assert!(!same_text("system", "systems"));
    assert!(!same_text("再见", "再会"));
    assert!(!same_text("a", ""));
}

#[test]
fn last_component_of_a_path() {
    assert_eq!(file_name_of("/vfat/audio0.wav"), "audio0.wav");
    assert_eq!(file_name_of("audio0.wav"), "audio0.wav");
    assert_eq!(file_name_of("/vfat/"), "");
    assert_eq!(file_name_of(""), "");
    assert_eq!(file_name_of("a/b/c/录音.wav"), "录音.wav");
    assert_eq!(file_name_of("//"), "");
    for path in ["/vfat/audio12.wav", "x", "a/b", "a/", "/", "", "a//b", "C:\\dir\\f.wav"] {
        assert_eq!(file_name_of(path), path.split('/').last().unwrap_or("audio.wav"));
    }
}

#[test]
fn multipart_body_frames_the_file() {
    let body = create_multipart_body("XYZ", "/vfat/audio0.wav", &[1, 2, 3, 255, 0]);
    let mut expected = Vec::new();
    expected.extend_from_slice(b"--XYZ\r\n");
    expected.extend_from_slice(
        b"Content-Disposition: form-data; name=\"file\"; filename=\"audio0.wav\"\r\n",
    );
    expected.extend_from_slice(b"Content-Type: audio/wav\r\n\r\n");
    expected.extend_from_slice(&[1, 2, 3, 255, 0]);
    expected.extend_from_slice(b"\r\n--XYZ--\r\n");
    assert_eq!(body, expected);

    let empty = create_multipart_body("b", "f", &[]);
    assert_eq!(
        empty,
        b"--b\r\nContent-Disposition: form-data; name=\"file\"; filename=\"f\"\r\nContent-Type: audio/wav\r\n\r\n\r\n--b--\r\n"
    );
    let wide = create_multipart_body("b", "/sd/录音.wav", &[9]);
    assert!(wide.windows("filename=\"录音.wav\"".len()).any(|w| w == "filename=\"录音.wav\"".as_bytes()));
}

#[test]
fn multipart_request_describes_its_body() {
    let data: Vec<u8> = (0..=255u8).cycle().take(1000).collect();
    let request = multipart_request("/vfat/audio7.wav", &data);
    assert_eq!(BOUNDARY, "------------------------boundary");
    assert_eq!(request.body, create_multipart_body(BOUNDARY, "/vfat/audio7.wav", &data));
    assert_eq!(
        request.content_type,
        "multipart/form-data; boundary=------------------------boundary"
    );
    assert_eq!(request.content_length, request.body.len().to_string());
    assert_eq!(request.content_length, "1171");
}

#[test]
fn response_is_read_by_its_status() {
    assert_eq!(read_response(200, "\"你好\"".to_string()), Ok("\"你好\"".to_string()));
    assert_eq!(read_response(200, String::new()), Ok(String::new()));
    assert_eq!(
        read_response(500, "server busy".to_string()),
        Err("API error (500): server busy".to_string())
    );
    assert_eq!(read_response(404, String::new()), Err("API error (404): ".to_string()));
    assert_eq!(read_response(201, "x".to_string()), Err("API error (201): x".to_string()));
}

#[test]
fn chunk_buffer_holds_two_bytes_a_sample_and_channel() {
    assert_eq!(feed_buffer_len(512, 1), Some(1024));
    assert_eq!(feed_buffer_len(512, 2), Some(2048));
    assert_eq!(feed_buffer_len(0, 2), Some(0));
    assert_eq!(feed_buffer_len(512, 0), Some(0));
    assert_eq!(feed_buffer_len(-1, 1), None);
    assert_eq!(feed_buffer_len(512, -2), None);
    assert_eq!(feed_buffer_len(i32::MIN, i32::MIN), None);
    assert_eq!(feed_buffer_len(1000, 1000), Some(2_000_000));
    let largest = 2u128 * (i32::MAX as u128) * (i32::MAX as u128);
    if largest <= usize::MAX as u128 {
        assert_eq!(feed_buffer_len(i32::MAX, i32::MAX), Some(largest as usize));
    } else {
        assert_eq!(feed_buffer_len(i32::MAX, i32::MAX), None);
    }
}

#[test]
fn bytes_are_counted_in_whole_samples() {
    assert_eq!(sample_count(512), 256);
    assert_eq!(sample_count(513), 256);
    assert_eq!(sample_count(1), 0);
    assert_eq!(sample_count(0), 0);
    assert_eq!(sample_count(-4), 0);
    assert_eq!(sample_count(i32::MAX), 1073741823);
}

#[test]
fn capture_loop_reads_feeds_and_ends_on_failure() {
    assert_eq!(capture_next(CaptureEvent::Started), CaptureAction::Read { timeout_ms: 100 });
    assert_eq!(capture_next(CaptureEvent::Read { ok: true }), CaptureAction::Feed);
    assert_eq!(
        capture_next(CaptureEvent::Fed { ok: true }),
        CaptureAction::Read { timeout_ms: 100 }
    );
    assert_eq!(
        capture_next(CaptureEvent::Read { ok: false }),
        CaptureAction::Stop { failure: CaptureFailure::ReadFailed }
    );
    assert_eq!(
        capture_next(CaptureEvent::Fed { ok: false }),
        CaptureAction::Stop { failure: CaptureFailure::FeedFailed }
    );
}

#[test]
fn credentials_must_fit_the_station_configuration() {
    let name32 = "n".repeat(32);
    let name33 = "n".repeat(33);
    let pass64 = "p".repeat(64);
    let pass65 = "p".repeat(65);
    assert_eq!(
        client_credentials(&name32, &pass64),
        Ok(Credentials {
            ssid: name32.clone(),
            password: pass64.clone(),
            auth_method: AuthMethod::WPA2Personal
        })
    );
    assert_eq!(client_credentials(&name33, &pass64), Err(CredentialError::SsidTooLong));
    assert_eq!(client_credentials(&name32, &pass65), Err(CredentialError::PasswordTooLong));
    assert_eq!(client_credentials(&name33, &pass65), Err(CredentialError::SsidTooLong));
    // The capacity is counted in bytes: ten characters of three bytes fit, eleven do not.
    assert!(client_credentials(&"网".repeat(10), "secret").is_ok());
    assert_eq!(client_credentials(&"网".repeat(11), "secret"), Err(CredentialError::SsidTooLong));
    assert_eq!(
        client_credentials("home", &"密".repeat(22)),
        Err(CredentialError::PasswordTooLong)
    );
    assert!(client_credentials("home", &"密".repeat(21)).is_ok());
    assert!(client_credentials("", "").is_ok());
}

#[test]
fn open_network_needs_no_authentication() {
    assert_eq!(client_credentials("cafe", "").unwrap().auth_method, AuthMethod::Open);
    assert_eq!(client_credentials("home", "x").unwrap().auth_method, AuthMethod::WPA2Personal);
    assert_eq!(client_credentials("home", " ").unwrap().auth_method, AuthMethod::WPA2Personal);
}

#[test]
fn connect_failure_names_the_network() {
    assert_eq!(connect_failure("home"), "Failed to connect to WiFi 'home' after 3 attempts");
    assert_eq!(connect_failure(""), "Failed to connect to WiFi '' after 3 attempts");
}

#[test]
fn policy_succeeds_when_link_and_address_are_there() {
    let (mut policy, actions) = ConnectPolicy::start();
    assert_eq!(actions, vec![WifiAction::Connect]);
    assert_eq!(policy.step(WifiEvent::ConnectOutcome { accepted: true }), vec![WifiAction::Poll]);
    assert_eq!(policy.phase, Phase::Waiting);
    assert_eq!(
        policy.step(WifiEvent::LinkStatus { link_up: false, address: None }),
        vec![WifiAction::Poll]
    );
    // Up, but the address is still 0.0.0.0.
    assert_eq!(
        policy.step(WifiEvent::LinkStatus { link_up: true, address: Some(0) }),
        vec![WifiAction::Poll]
    );
    assert_eq!(
        policy.step(WifiEvent::LinkStatus { link_up: true, address: None }),
        vec![WifiAction::Poll]
    );
    assert_eq!(
        policy.step(WifiEvent::LinkStatus { link_up: true, address: Some(0xC0A80117) }),
        vec![WifiAction::Succeed]
    );
    assert_eq!(policy.phase, Phase::Done);
    assert!(policy.connected);
    assert_eq!(policy.attempt, 1);
    assert_eq!(policy.step(WifiEvent::ConnectOutcome { accepted: true }), vec![]);
    assert_eq!(policy.step(WifiEvent::LinkStatus { link_up: true, address: Some(1) }), vec![]);
}

#[test]
fn policy_gives_up_after_three_refused_attempts() {
    let (mut policy, _) = ConnectPolicy::start();
    assert_eq!(
        policy.step(WifiEvent::ConnectOutcome { accepted: false }),
        vec![WifiAction::Sleep { seconds: 2 }, WifiAction::Connect]
    );
    assert_eq!(policy.attempt, 2);
    assert_eq!(
        policy.step(WifiEvent::ConnectOutcome { accepted: false }),
        vec![WifiAction::Sleep { seconds: 2 }, WifiAction::Connect]
    );
    assert_eq!(policy.attempt, 3);
    assert_eq!(
        policy.step(WifiEvent::ConnectOutcome { accepted: false }),
        vec![WifiAction::Sleep { seconds: 2 }, WifiAction::Fail]
    );
    assert_eq!(policy.phase, Phase::Done);
    assert!(!policy.connected);
}

#[test]
fn policy_polls_fifteen_times_an_attempt() {
    let (mut policy, _) = ConnectPolicy::start();
    let mut connects = 1;
    let mut polls = 0;
    let mut actions = policy.step(WifiEvent::ConnectOutcome { accepted: true });
    loop {
        match actions.last().copied() {
            Some(WifiAction::Poll) => {
                polls += 1;
                actions = policy.step(WifiEvent::LinkStatus { link_up: false, address: None });
            }
            Some(WifiAction::Connect) => {
                assert_eq!(actions, vec![WifiAction::Connect]);
                connects += 1;
                actions = policy.step(WifiEvent::ConnectOutcome { accepted: true });
            }
            other => {
                assert_eq!(other, Some(WifiAction::Fail));
                assert_eq!(actions, vec![WifiAction::Fail]);
                break;
            }
        }
    }
    assert_eq!(connects, 3);
    assert_eq!(polls, 45);
    assert_eq!(policy.phase, Phase::Done);
}

#[test]
fn policy_disconnects_a_link_without_address_before_trying_again() {
    let (mut policy, _) = ConnectPolicy::start();
    policy.step(WifiEvent::ConnectOutcome { accepted: true });
    for _ in 0..14 {
        assert_eq!(
            policy.step(WifiEvent::LinkStatus { link_up: true, address: Some(0) }),
            vec![WifiAction::Poll]
        );
    }
    assert_eq!(
        policy.step(WifiEvent::LinkStatus { link_up: true, address: Some(0) }),
        vec![WifiAction::Disconnect, WifiAction::Sleep { seconds: 1 }, WifiAction::Connect]
    );
    assert_eq!(policy.attempt, 2);
    assert!(policy.connected);
    // The link was seen up once: when the attempts are used up, the network counts as joined.
    policy.step(WifiEvent::ConnectOutcome { accepted: false });
    assert_eq!(
        policy.step(WifiEvent::ConnectOutcome { accepted: false }),
        vec![WifiAction::Sleep { seconds: 2 }, WifiAction::Succeed]
    );
}

#[test]
fn policy_ignores_an_event_that_answers_nothing() {
    let (mut policy, _) = ConnectPolicy::start();
    let before = policy;
    assert_eq!(policy.step(WifiEvent::LinkStatus { link_up: true, address: Some(1) }), vec![]);
    assert_eq!(policy, before);
    policy.step(WifiEvent::ConnectOutcome { accepted: true });
    let waiting = policy;
    assert_eq!(policy.step(WifiEvent::ConnectOutcome { accepted: true }), vec![]);
    assert_eq!(policy, waiting);
}
