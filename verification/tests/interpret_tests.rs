use blackd_client::errors::ErrorKind;
use blackd_client::interpret::{interpret_response, Interpretation};

#[test]
fn ok_status_asks_for_a_rewrite_with_the_body() {
    match interpret_response(200, b"x = 1\n".to_vec(), "a.py") {
        Interpretation::Rewrite(bytes) => assert_eq!(bytes, b"x = 1\n".to_vec()),
        _ => panic!("status 200 must ask for a rewrite"),
    }
}

#[test]
fn no_content_means_unchanged() {
    match interpret_response(204, Vec::new(), "a.py") {
        Interpretation::Unchanged => {}
        _ => panic!("status 204 must mean unchanged"),
    }
}

#[test]
fn bad_request_carries_the_body_text_as_the_reason() {
    match interpret_response(400, b"cannot parse line 3".to_vec(), "a.py") {
        Interpretation::Reject(e) => {
            assert_eq!(e.kind, ErrorKind::ProtocolRejection);
            assert_eq!(e.what_happened, "cannot parse line 3");
        }
        _ => panic!("status 400 must reject"),
    }
}

#[test]
fn bad_request_with_undecodable_body_still_rejects() {
    match interpret_response(400, vec![0xff, 0xfe], "a.py") {
        Interpretation::Reject(e) => assert_eq!(e.kind, ErrorKind::ProtocolRejection),
        _ => panic!("status 400 must reject"),
    }
}

#[test]
fn internal_server_error_names_the_path() {
    match interpret_response(500, Vec::new(), "a.py") {
        Interpretation::Reject(e) => {
            assert_eq!(e.kind, ErrorKind::ServerFault);
            assert_eq!(e.what_happened, "\"a.py\" caused an internal error in `blackd`");
        }
        _ => panic!("status 500 must reject"),
    }
}

#[test]
fn unknown_status_names_the_code() {
    match interpret_response(418, Vec::new(), "a.py") {
        Interpretation::Reject(e) => {
            assert_eq!(e.kind, ErrorKind::UnrecognizedResponse);
            assert_eq!(
                e.what_happened,
                "`blackd` returned an unrecognized status code: 418"
            );
        }
        _ => panic!("unknown statuses must reject"),
    }
}

#[test]
fn redirect_like_status_is_also_unrecognized() {
    match interpret_response(301, b"ignored".to_vec(), "a.py") {
        Interpretation::Reject(e) => {
            assert_eq!(e.kind, ErrorKind::UnrecognizedResponse);
            assert_eq!(
                e.what_happened,
                "`blackd` returned an unrecognized status code: 301"
            );
        }
        _ => panic!("unknown statuses must reject"),
    }
}
