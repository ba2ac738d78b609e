use action_bridge::bridge::{
    fetch_finish, notify_args_json, notify_finish, notify_start, relay_result, upload_finish,
    FetchOutcome, SendOutcome, UploadEvent,
};
use action_bridge::codec::encode_base64;
use action_bridge::state::UiState;

#[test]
fn notify_scenario_accepts_number() {
    let mut state = UiState::new();
    let parsed = notify_start(&mut state, "42");
    assert_eq!(parsed, Some(42));
    assert_eq!(state.status_msg, "");
    assert_eq!(state.client_data, None);

    let args = notify_args_json(42);
    assert_eq!(args, "{\"message\":42}");

    notify_finish(&mut state, 42, Ok(()));
    assert_eq!(state.status_msg, "Notification sent: 42");
    assert_eq!(state.client_data, None);
    assert_eq!(state.file_encoded, "");
}

#[test]
fn notify_scenario_rejects_text() {
    let mut state = UiState::new();
    let parsed = notify_start(&mut state, "abc");
    assert_eq!(parsed, None);
    assert_eq!(state.status_msg, "Invalid input! Please enter a valid number.");
    assert_eq!(state.client_data, None);
    assert_eq!(state.file_encoded, "");
}

#[test]
fn notify_reports_host_failure() {
    let mut state = UiState::new();
    notify_finish(&mut state, 5, Err(String::from("host rejected the command")));
    assert_eq!(state.status_msg, "Error: host rejected the command");
}

#[test]
fn notify_formats_negative_numbers() {
    let args = notify_args_json(-17);
    assert_eq!(args, "{\"message\":-17}");
    let mut state = UiState::new();
    notify_finish(&mut state, -17, Ok(()));
    assert_eq!(state.status_msg, "Notification sent: -17");
}

#[test]
fn fetch_scenario_success() {
    let mut state = UiState::new();
    fetch_finish(
        &mut state,
        FetchOutcome::Response { status: 200, body: String::from("7") },
    );
    assert_eq!(state.client_data, Some(7));
    assert_eq!(state.status_msg, "Success! Data received");
}

#[test]
fn fetch_scenario_connection_error_keeps_data() {
    let mut state = UiState::new();
    fetch_finish(
        &mut state,
        FetchOutcome::Response { status: 200, body: String::from("3") },
    );
    assert_eq!(state.client_data, Some(3));

    fetch_finish(&mut state, FetchOutcome::ConnectionFailed);
    assert_eq!(state.client_data, Some(3));
    assert_eq!(state.status_msg, "Connection failed");
}

#[test]
fn fetch_server_error_keeps_data_and_reports_code() {
    let mut state = UiState::new();
    fetch_finish(
        &mut state,
        FetchOutcome::Response { status: 200, body: String::from("11") },
    );
    assert_eq!(state.client_data, Some(11));

    fetch_finish(
        &mut state,
        FetchOutcome::Response { status: 500, body: String::from("ignored") },
    );
    assert_eq!(state.client_data, Some(11));
    assert_eq!(state.status_msg, "Server error: 500");

    fetch_finish(
        &mut state,
        FetchOutcome::Response { status: 404, body: String::from("4") },
    );
    assert_eq!(state.client_data, Some(11));
    assert_eq!(state.status_msg, "Server error: 404");
}

#[test]
fn fetch_malformed_body_keeps_data() {
    let mut state = UiState::new();
    fetch_finish(
        &mut state,
        FetchOutcome::Response { status: 200, body: String::from("9") },
    );
    assert_eq!(state.client_data, Some(9));

    fetch_finish(
        &mut state,
        FetchOutcome::Response { status: 204, body: String::from("not a number") },
    );
    assert_eq!(state.client_data, Some(9));
    assert!(state.status_msg.starts_with("Data format error: "));
}

#[test]
fn fetch_rejects_fractional_body() {
    let mut state = UiState::new();
    fetch_finish(
        &mut state,
        FetchOutcome::Response { status: 200, body: String::from("7.5") },
    );
    assert_eq!(state.client_data, None);
    assert!(state.status_msg.starts_with("Data format error: "));
}

#[test]
fn upload_scenario_ten_zero_bytes() {
    let mut state = UiState::new();
    upload_finish(
        &mut state,
        UploadEvent::FileRead { name: String::from("zeros.pdf"), bytes: vec![0u8; 10] },
    );
    assert_eq!(state.file_encoded, "AAAAAAAAAAAAAA==");
    assert_eq!(state.status_msg, "File 'zeros.pdf' converted to Base64!");
    assert_eq!(state.client_data, None);
}

#[test]
fn upload_read_failure_keeps_encoded_file() {
    let mut state = UiState::new();
    upload_finish(
        &mut state,
        UploadEvent::FileRead { name: String::from("a.pdf"), bytes: vec![1, 2, 3] },
    );
    let kept = state.file_encoded.clone();

    upload_finish(&mut state, UploadEvent::ReadFailed { detail: String::from("io error") });
    assert_eq!(state.file_encoded, kept);
    assert_eq!(state.status_msg, "Failed to encode file: io error");
}

#[test]
fn upload_precondition_failures_have_distinct_statuses() {
    let mut state = UiState::new();
    upload_finish(&mut state, UploadEvent::NoFileSelected);
    assert_eq!(state.status_msg, "No file selected");
    assert_eq!(state.file_encoded, "");

    upload_finish(&mut state, UploadEvent::FileListUnavailable);
    assert_eq!(state.status_msg, "No files found in input");

    upload_finish(&mut state, UploadEvent::InputUnavailable);
    assert_eq!(state.status_msg, "Failed to cast input to HtmlInputElement");
    assert_eq!(state.file_encoded, "");
}

#[test]
fn encode_is_deterministic_and_round_trips() {
    let bytes: Vec<u8> = vec![0, 1, 2, 250, 251, 252, 77];
    let first = encode_base64(&bytes);
    let second = encode_base64(&bytes);
    assert_eq!(first, second);

    let decoded = base64::Engine::decode(&base64::engine::general_purpose::STANDARD, &first)
        .expect("standard decoding must accept the encoder's output");
    assert_eq!(decoded, bytes);
}

#[test]
fn encode_empty_is_empty() {
    let empty: Vec<u8> = Vec::new();
    assert_eq!(encode_base64(&empty), "");
}

#[test]
fn encode_known_values() {
    assert_eq!(encode_base64(&vec![1, 2, 3]), "AQID");
    assert_eq!(encode_base64(&vec![b'M']), "TQ==");
    assert_eq!(encode_base64(&vec![b'M', b'a']), "TWE=");
    assert_eq!(encode_base64(&vec![b'M', b'a', b'n']), "TWFu");
}

#[test]
fn relay_succeeds_on_2xx_only() {
    assert_eq!(relay_result(SendOutcome::Delivered { status: 200 }), Ok(()));
    assert_eq!(relay_result(SendOutcome::Delivered { status: 204 }), Ok(()));
    assert_eq!(relay_result(SendOutcome::Delivered { status: 299 }), Ok(()));
    assert_eq!(
        relay_result(SendOutcome::Delivered { status: 404 }),
        Err(String::from("Server error: 404"))
    );
    assert_eq!(
        relay_result(SendOutcome::Delivered { status: 199 }),
        Err(String::from("Server error: 199"))
    );
    assert_eq!(
        relay_result(SendOutcome::TransportFailed { detail: String::from("refused") }),
        Err(String::from("refused"))
    );
}

#[test]
fn initial_state_is_empty() {
    let state = UiState::new();
    assert_eq!(state.status_msg, "");
    assert_eq!(state.client_data, None);
    assert_eq!(state.file_encoded, "");
}
