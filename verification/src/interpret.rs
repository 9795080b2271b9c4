use vstd::prelude::*;
use crate::errors::{BlackError, ErrorKind};
use crate::text::{dec_str, u16_decimal};
use vstd::utf8::{decode_utf8, valid_utf8};

verus! {

/// What a daemon response means for the file at hand.
pub enum Interpretation {
    /// The daemon reformatted the source: these bytes replace the file.
    Rewrite(Vec<u8>),
    /// The file was already well formatted; nothing to do.
    Unchanged,
    /// The round failed; the error says how.
    Reject(BlackError),
}

/// The fixed report for a daemon-side internal failure on a path.
pub open spec fn server_fault_message(path: Seq<char>) -> Seq<char> {
    "\""@ + path + "\" caused an internal error in `blackd`"@
}

/// The report for a status code outside the known set.
pub open spec fn unrecognized_status_message(status: int) -> Seq<char> {
    "`blackd` returned an unrecognized status code: "@ + dec_str(status)
}

#[verifier::external_type_specification]
#[verifier::external_body]
pub struct ExFromUtf8Error(std::string::FromUtf8Error);

/// Relies on `String::from_utf8`: it succeeds exactly on valid UTF-8,
/// and then the string holds the decoded characters.
#[verifier::external_body]
pub(crate) fn utf8_string(b: Vec<u8>) -> (r: Result<String, std::string::FromUtf8Error>)
    ensures
        (r matches Ok(s) ==> valid_utf8(b@) && s@ == decode_utf8(b@)),
        (r is Err ==> !valid_utf8(b@)),
{
    String::from_utf8(b)
}

fn server_fault(path: &str) -> (m: String)
    ensures
        m@ == server_fault_message(path@),
{
    let mut m = String::from_str("\"");
    m.append(path);
    m.append("\" caused an internal error in `blackd`");
    proof {
        assert(m@ =~= server_fault_message(path@));
    }
    m
}

fn unrecognized(status: u16) -> (m: String)
    ensures
        m@ == unrecognized_status_message(status as int),
{
    let mut m = String::from_str("`blackd` returned an unrecognized status code: ");
    let digits = u16_decimal(status);
    m.append(digits.as_str());
    proof {
        assert(m@ =~= unrecognized_status_message(status as int));
    }
    m
}

/// The decision core: maps one daemon response onto the action for the
/// file. Writing is left to the caller so that this stays pure.
pub fn interpret_response(status: u16, body: Vec<u8>, filepath: &str) -> (r: Interpretation)
    ensures
        (status == 200 ==> (r matches Interpretation::Rewrite(b) && b@ == body@)),
        (status == 204 ==> r is Unchanged),
        (status == 400 ==> (r matches Interpretation::Reject(e) && e.kind
            == ErrorKind::ProtocolRejection && (valid_utf8(body@) ==> e.what_happened@
            == decode_utf8(body@)))),
        (status == 500 ==> (r matches Interpretation::Reject(e) && e.kind
            == ErrorKind::ServerFault && e.what_happened@ == server_fault_message(filepath@))),
        (!(status == 200 || status == 204 || status == 400 || status == 500) ==> (r
            matches Interpretation::Reject(e) && e.kind == ErrorKind::UnrecognizedResponse
            && e.what_happened@ == unrecognized_status_message(status as int))),
{
    if status == 200 {
        Interpretation::Rewrite(body)
    } else if status == 204 {
        Interpretation::Unchanged
    } else if status == 400 {
        match utf8_string(body) {
            Ok(text) => Interpretation::Reject(
                BlackError { kind: ErrorKind::ProtocolRejection, what_happened: text },
            ),
            Err(e) => Interpretation::Reject(
                BlackError::from_debug(ErrorKind::ProtocolRejection, e),
            ),
        }
    } else if status == 500 {
        Interpretation::Reject(
            BlackError { kind: ErrorKind::ServerFault, what_happened: server_fault(filepath) },
        )
    } else {
        Interpretation::Reject(
            BlackError { kind: ErrorKind::UnrecognizedResponse, what_happened: unrecognized(
                status,
            ) },
        )
    }
}

} // verus!
