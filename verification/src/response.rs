//! Response presentation: console rendering, file-save conflict resolution,
//! and connection-error classification.
//!
//! A response is raw bytes. Shown on the console, it is decoded as strict
//! UTF-8 unless the force flag asks for a lossy decoding; saved to a file,
//! an existing target resolves to overwrite, append or cancel, by the force
//! flag or by the user's answer to a prompt.

use vstd::prelude::*;
use vstd::string::*;
use vstd::utf8::decode_utf8;
use vstd::utf8::valid_utf8;
use crate::text::to_uppercase_string;
use crate::text::trim_of;
use crate::text::trim_str;
use crate::text::upper_of;

verus! {

/// How a response is shown on the console: as decoded text, or as the fixed
/// warning that it is not valid UTF-8.
pub enum RenderOutcome {
    Text(String),
    NotUtf8,
}

/// Relies on String::from_utf8: it succeeds exactly on valid UTF-8 input,
/// returning its decoding.
#[verifier::external_body]
fn decode_response(bytes: Vec<u8>) -> (r: Option<String>)
    ensures
        r is Some <==> valid_utf8(bytes@),
        r matches Some(s) ==> s@ == decode_utf8(bytes@),
{
    match String::from_utf8(bytes) {
        Ok(s) => Some(s),
        Err(_) => None,
    }
}

/// Relies on String::from_utf8_lossy: valid UTF-8 input decodes unchanged;
/// invalid sequences come back with replacement characters in their place.
#[verifier::external_body]
fn decode_response_lossy(bytes: &Vec<u8>) -> (r: String)
    ensures
        valid_utf8(bytes@) ==> r@ == decode_utf8(bytes@),
{
    String::from_utf8_lossy(bytes).into_owned()
}

/// Decides how a response prints to the console. Under the lossy flag the
/// bytes always render as text, decoded with replacement characters where
/// they are not valid UTF-8; otherwise they render as text exactly when they
/// are valid UTF-8, and to the warning outcome when not.
pub fn render_response(response: Vec<u8>, lossy: bool) -> (r: RenderOutcome)
    ensures
        lossy ==> r is Text,
        r is Text <==> (lossy || valid_utf8(response@)),
        valid_utf8(response@) ==> (r matches RenderOutcome::Text(t) && t@ == decode_utf8(
            response@,
        )),
{
    if lossy {
        return RenderOutcome::Text(decode_response_lossy(&response));
    }
    match decode_response(response) {
        Some(s) => RenderOutcome::Text(s),
        None => RenderOutcome::NotUtf8,
    }
}

/// The warning shown for a response that is not valid UTF-8 when the force
/// flag is not set.
pub fn invalid_utf8_message() -> (r: String)
    ensures
        r@ == "Response is not valid UTF-8. Use --force to print it anyway or save it to a file."@,
{
    "Response is not valid UTF-8. Use --force to print it anyway or save it to a file.".to_owned()
}

/// What the file save does to the target path.
pub enum SaveAction {
    /// Create the file, truncating prior content, and write the response.
    Create,
    /// Open the file in append mode and write the response after what is
    /// there.
    Append,
    /// Touch nothing.
    Cancel,
}

/// A resolved file-save decision: the file operation to perform and the
/// status line to print afterwards.
pub struct SaveOutcome {
    pub action: SaveAction,
    pub message: String,
}

/// Resolves a response save against the target path's current state.
///
/// A path that does not exist, or the force flag, means create outright.
/// Otherwise `answer` is the user's reply to the overwrite prompt: trimmed
/// and uppercased, `O` overwrites, `A` appends, and anything else cancels.
/// When no prompt was needed, `answer` is ignored.
pub fn save_decision(path: &str, file_exists: bool, force: bool, answer: &str) -> (r: SaveOutcome)
    ensures
        !file_exists || force ==> r.action is Create && r.message@
            == "Request content created at "@ + path@,
        file_exists && !force ==> {
            let a = upper_of(trim_of(answer@));
            &&& a == "O"@ ==> r.action is Create && r.message@ == "Request content saved to "@
                + path@
            &&& a == "A"@ ==> r.action is Append && r.message@ == "Request content appended into "@
                + path@
            &&& a != "O"@ && a != "A"@ ==> r.action is Cancel && r.message@ == "Cancelled"@
        },
{
    proof {
        reveal_strlit("O");
        reveal_strlit("A");
        assert("O"@ != "A"@) by {
            assert("O"@[0] == 'O');
            assert("A"@[0] == 'A');
        }
    }
    if !file_exists || force {
        let mut m = "Request content created at ".to_owned();
        m.append(path);
        return SaveOutcome { action: SaveAction::Create, message: m };
    }
    let a = to_uppercase_string(trim_str(answer));
    if a == "O".to_owned() {
        let mut m = "Request content saved to ".to_owned();
        m.append(path);
        SaveOutcome { action: SaveAction::Create, message: m }
    } else if a == "A".to_owned() {
        let mut m = "Request content appended into ".to_owned();
        m.append(path);
        SaveOutcome { action: SaveAction::Append, message: m }
    } else {
        SaveOutcome { action: SaveAction::Cancel, message: "Cancelled".to_owned() }
    }
}

/// The prompt shown when the save target already exists and force is not
/// set.
pub fn save_conflict_prompt() -> (r: String)
    ensures
        r@ == "File already exists! (O)verride/(A)ppend/(C)ancel"@,
{
    "File already exists! (O)verride/(A)ppend/(C)ancel".to_owned()
}

/// Why opening the TCP connection failed, as the tool classifies it.
pub enum ConnectFailure {
    Refused,
    TimedOut,
    /// Any other I/O failure, carrying its rendered description.
    Other(String),
}

/// The diagnostic line for a failed connection attempt: fixed text for the
/// refused and timed-out classes, and the underlying description for the
/// rest.
pub fn connection_error_message(failure: &ConnectFailure) -> (r: String)
    ensures
        failure is Refused ==> r@ == "Error: Connection refused"@,
        failure is TimedOut ==> r@ == "Error: Connection timed out"@,
        failure matches ConnectFailure::Other(m) ==> r@ == "Error: "@ + m@,
{
    match failure {
        ConnectFailure::Refused => "Error: Connection refused".to_owned(),
        ConnectFailure::TimedOut => "Error: Connection timed out".to_owned(),
        ConnectFailure::Other(m) => {
            let mut r = "Error: ".to_owned();
            r.append(m.as_str());
            r
        },
    }
}

} // verus!
