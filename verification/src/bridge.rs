//! The action bridge: each handler validates its input, and folds the
//! outcome of its one asynchronous transport or pipeline operation back
//! into the shared UI state. The transport calls themselves (host command
//! invocation, HTTP, the file read) happen outside; each handler here is a
//! complete description of what the state becomes for every outcome.

use vstd::prelude::*;
use vstd::string::StringExecFns;
use crate::codec::{b64_encode, encode_base64};
use crate::numeric::{
    i32_to_dec_string, int_dec_seq, nat_dec_seq, parse_i32, parse_i32_spec, u64_to_dec_string,
};
use crate::state::UiState;

verus! {

/// What `serde_json::from_str::<i32>` returns for a given text: `Some` of
/// the integer when the text is a bare JSON `i32`, `None` otherwise.
pub uninterp spec fn json_i32_of(s: Seq<char>) -> Option<i32>;

/// Relies on `serde_json::from_str::<i32>`: its result is a pure function
/// of the input text, named here by `json_i32_of`.
#[verifier::external_body]
fn parse_json_i32(s: &str) -> (r: Result<i32, String>)
    ensures
        r matches Ok(n) ==> json_i32_of(s@) == Some(n),
        r is Err ==> json_i32_of(s@) is None,
{
    match serde_json::from_str::<i32>(s) {
        Ok(n) => Ok(n),
        Err(e) => Err(e.to_string()),
    }
}

pub open spec fn str_has_prefix(s: Seq<char>, p: Seq<char>) -> bool {
    p.len() <= s.len() && s.take(p.len() as int) == p
}

/// Outcome of the fetch-client-data HTTP GET: a transport-level failure,
/// or a response with its status code and body text.
pub enum FetchOutcome {
    ConnectionFailed,
    Response { status: u16, body: String },
}

/// Outcome of the upload action's preconditions and file read, in the
/// order the handler checks them.
pub enum UploadEvent {
    InputUnavailable,
    FileListUnavailable,
    NoFileSelected,
    ReadFailed { detail: String },
    FileRead { name: String, bytes: Vec<u8> },
}

/// Outcome of the host-side relay's HTTP POST to the backend.
pub enum SendOutcome {
    TransportFailed { detail: String },
    Delivered { status: u16 },
}

/// The JSON argument object for the `notify_clients` host command.
pub open spec fn notify_args_spec(n: int) -> Seq<char> {
    "{\"message\":"@ + int_dec_seq(n) + "}"@
}

/// Builds the JSON body `{"message": <n>}` sent with a notify command.
pub fn notify_args_json(message: i32) -> (s: String)
    ensures
        s@ == notify_args_spec(message as int),
{
    let mut s = String::from_str("{\"message\":");
    let digits = i32_to_dec_string(message);
    s.append(digits.as_str());
    s.append("}");
    proof {
        assert(s@ =~= notify_args_spec(message as int));
    }
    s
}

/// Validation half of the notify action: parses the operator's input as a
/// signed integer. On failure the status cell reports invalid input at
/// once and no transport call is owed; on success the state is untouched
/// and the returned integer is what the host command must be invoked with.
pub fn notify_start(state: &mut UiState, input: &str) -> (r: Option<i32>)
    ensures
        r == parse_i32_spec(input@),
        r is Some ==> *final(state) == *old(state),
        r is None ==> final(state).status_msg@ == "Invalid input! Please enter a valid number."@
            && final(state).client_data == old(state).client_data
            && final(state).file_encoded == old(state).file_encoded,
{
    let r = parse_i32(input);
    if r.is_none() {
        state.status_msg = String::from_str("Invalid input! Please enter a valid number.");
    }
    r
}

/// Completion half of the notify action: reports the sent number, or the
/// host's failure detail.
pub fn notify_finish(state: &mut UiState, message: i32, host_result: Result<(), String>)
    ensures
        final(state).client_data == old(state).client_data,
        final(state).file_encoded == old(state).file_encoded,
        match host_result {
            Ok(_) => final(state).status_msg@ == "Notification sent: "@ + int_dec_seq(
                message as int,
            ),
            Err(detail) => final(state).status_msg@ == "Error: "@ + detail@,
        },
{
    match host_result {
        Ok(_) => {
            let mut s = String::from_str("Notification sent: ");
            let digits = i32_to_dec_string(message);
            s.append(digits.as_str());
            state.status_msg = s;
        },
        Err(detail) => {
            let mut s = String::from_str("Error: ");
            s.append(detail.as_str());
            state.status_msg = s;
        },
    }
}

/// Completion of the fetch-client-data action. A transport failure or a
/// non-2xx status leaves the previously fetched datum untouched and
/// reports which layer failed; a 2xx response whose body is a bare JSON
/// integer replaces the datum wholesale.
pub fn fetch_finish(state: &mut UiState, outcome: FetchOutcome)
    ensures
        final(state).file_encoded == old(state).file_encoded,
        match outcome {
            FetchOutcome::ConnectionFailed => final(state).client_data == old(state).client_data
                && final(state).status_msg@ == "Connection failed"@,
            FetchOutcome::Response { status, body } => if 200 <= status && status <= 299 {
                match json_i32_of(body@) {
                    Some(n) => final(state).client_data == Some(n)
                        && final(state).status_msg@ == "Success! Data received"@,
                    None => final(state).client_data == old(state).client_data
                        && str_has_prefix(final(state).status_msg@, "Data format error: "@),
                }
            } else {
                final(state).client_data == old(state).client_data
                    && final(state).status_msg@ == "Server error: "@ + nat_dec_seq(status as int)
            },
        },
{
    match outcome {
        FetchOutcome::ConnectionFailed => {
            state.status_msg = String::from_str("Connection failed");
        },
        FetchOutcome::Response { status, body } => {
            if 200 <= status && status <= 299 {
                match parse_json_i32(body.as_str()) {
                    Ok(n) => {
                        state.client_data = Some(n);
                        state.status_msg = String::from_str("Success! Data received");
                    },
                    Err(detail) => {
                        let mut s = String::from_str("Data format error: ");
                        s.append(detail.as_str());
                        proof {
                            assert(s@.take("Data format error: "@.len() as int)
                                =~= "Data format error: "@);
                        }
                        state.status_msg = s;
                    },
                }
            } else {
                let mut s = String::from_str("Server error: ");
                let digits = u64_to_dec_string(status as u64);
                s.append(digits.as_str());
                state.status_msg = s;
            }
        },
    }
}

/// Completion of the upload action. A fully read file is base64-encoded
/// and replaces the encoded cell wholesale; every earlier failure leaves
/// the cell untouched and reports its own distinct status.
pub fn upload_finish(state: &mut UiState, event: UploadEvent)
    ensures
        final(state).client_data == old(state).client_data,
        match event {
            UploadEvent::FileRead { name, bytes } => final(state).file_encoded@ == b64_encode(
                bytes@,
            ) && final(state).status_msg@ == "File '"@ + name@ + "' converted to Base64!"@,
            UploadEvent::ReadFailed { detail } => final(state).file_encoded == old(
                state,
            ).file_encoded && final(state).status_msg@ == "Failed to encode file: "@ + detail@,
            UploadEvent::NoFileSelected => final(state).file_encoded == old(state).file_encoded
                && final(state).status_msg@ == "No file selected"@,
            UploadEvent::FileListUnavailable => final(state).file_encoded == old(
                state,
            ).file_encoded && final(state).status_msg@ == "No files found in input"@,
            UploadEvent::InputUnavailable => final(state).file_encoded == old(state).file_encoded
                && final(state).status_msg@ == "Failed to cast input to HtmlInputElement"@,
        },
{
    match event {
        UploadEvent::FileRead { name, bytes } => {
            let encoded = encode_base64(&bytes);
            state.file_encoded = encoded;
            let mut s = String::from_str("File '");
            s.append(name.as_str());
            s.append("' converted to Base64!");
            proof {
                assert(s@ =~= "File '"@ + name@ + "' converted to Base64!"@);
            }
            state.status_msg = s;
        },
        UploadEvent::ReadFailed { detail } => {
            let mut s = String::from_str("Failed to encode file: ");
            s.append(detail.as_str());
            state.status_msg = s;
        },
        UploadEvent::NoFileSelected => {
            state.status_msg = String::from_str("No file selected");
        },
        UploadEvent::FileListUnavailable => {
            state.status_msg = String::from_str("No files found in input");
        },
        UploadEvent::InputUnavailable => {
            state.status_msg = String::from_str("Failed to cast input to HtmlInputElement");
        },
    }
}

/// Decision half of the host-side relay commands (`notify_clients` and the
/// unwired `receive`): a transport failure surfaces its own detail, a 2xx
/// delivery succeeds, and any other status is a server error carrying the
/// literal code.
pub fn relay_result(outcome: SendOutcome) -> (r: Result<(), String>)
    ensures
        match outcome {
            SendOutcome::TransportFailed { detail } => r matches Err(e) && e@ == detail@,
            SendOutcome::Delivered { status } => if 200 <= status && status <= 299 {
                r is Ok
            } else {
                r matches Err(e) && e@ == "Server error: "@ + nat_dec_seq(status as int)
            },
        },
{
    match outcome {
        SendOutcome::TransportFailed { detail } => Err(detail),
        SendOutcome::Delivered { status } => {
            if 200 <= status && status <= 299 {
                Ok(())
            } else {
                let mut s = String::from_str("Server error: ");
                let digits = u64_to_dec_string(status as u64);
                s.append(digits.as_str());
                Err(s)
            }
        },
    }
}

} // verus!
