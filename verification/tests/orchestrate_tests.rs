use blackd_client::errors::ErrorKind;
use blackd_client::interpret::{interpret_response, Interpretation};
use blackd_client::metadata::{headers_from_cli_options, FormatConfiguration};
use blackd_client::orchestrate::{format_pyfile, BatchTally};
use blackd_client::transport::{daemon_url_string, execute_request, prepare_request, request_with_source};
use blackd_client::writer::write_pyfile;

fn quiet_config() -> FormatConfiguration {
    FormatConfiguration {
        line_length: 88,
        target_version: String::new(),
        skip_string_normalization: false,
        skip_magic_trailing_comma: false,
        fast: false,
        safe: false,
        diff: false,
    }
}

#[test]
fn the_daemon_endpoint_is_rendered_from_host_and_port() {
    assert_eq!(daemon_url_string("localhost", 45484), "http://localhost:45484/");
    assert_eq!(daemon_url_string("127.0.0.1", 1), "http://127.0.0.1:1/");
}

#[test]
fn an_unreachable_daemon_surfaces_as_one_transport_error() {
    let client = reqwest::blocking::Client::new();
    let headers = headers_from_cli_options(&quiet_config());
    let rb = prepare_request(&client, "127.0.0.1", 1, &headers);
    let rb = request_with_source(rb, b"x=1".to_vec());
    let r = execute_request(rb);
    assert_eq!(r.unwrap_err().kind, ErrorKind::Transport);
}

#[test]
fn hosts_carrying_user_info_are_refused() {
    assert!(blackd_client::transport::plain_host("localhost"));
    assert!(blackd_client::transport::plain_host("192.168.0.7"));
    assert!(!blackd_client::transport::plain_host("user:secret@elsewhere"));
}

#[test]
fn a_missing_file_is_skipped_without_any_request() {
    let client = reqwest::blocking::Client::new();
    let headers = headers_from_cli_options(&quiet_config());
    // Nothing listens on port 1, so any request issued here would fail
    // with a transport error; the skip must come back clean anyway.
    let rb = prepare_request(&client, "127.0.0.1", 1, &headers);
    let r = format_pyfile("no_such_file.py", None, rb);
    assert_eq!(r.unwrap(), false);
    // The same round with actual bytes does reach the network and fails,
    // which shows the skipped round really issued no request.
    let rb = prepare_request(&client, "127.0.0.1", 1, &headers);
    let r = format_pyfile("no_such_file.py", Some(b"x=1".to_vec()), rb);
    assert_eq!(r.unwrap_err().kind, ErrorKind::Transport);
}

#[test]
fn one_failing_file_does_not_stop_the_batch() {
    let client = reqwest::blocking::Client::new();
    let headers = headers_from_cli_options(&quiet_config());
    let files: Vec<(&str, Option<Vec<u8>>)> = vec![
        ("first_missing.py", None),
        ("present.py", Some(b"x=1".to_vec())),
        ("last_missing.py", None),
    ];
    let mut tally = BatchTally::new();
    let mut outcomes = Vec::new();
    for (path, source) in files {
        let rb = prepare_request(&client, "127.0.0.1", 1, &headers);
        let outcome = format_pyfile(path, source, rb);
        if tally.formatted < u32::MAX && tally.skipped < u32::MAX {
            tally.record(&outcome);
        }
        outcomes.push(outcome);
    }
    assert_eq!(outcomes.len(), 3);
    assert_eq!(*outcomes[0].as_ref().unwrap(), false);
    assert_eq!(outcomes[1].as_ref().unwrap_err().kind, ErrorKind::Transport);
    assert_eq!(*outcomes[2].as_ref().unwrap(), false);
    assert_eq!(tally.formatted, 0);
    assert_eq!(tally.skipped, 3);
}

#[test]
fn tallies_count_every_outcome_once() {
    let mut tally = BatchTally::new();
    let outcomes: Vec<Result<bool, blackd_client::errors::BlackError>> = vec![
        Ok(true),
        Ok(false),
        Err(blackd_client::errors::BlackError::from_debug(ErrorKind::Transport, "boom")),
    ];
    for o in &outcomes {
        if tally.formatted < u32::MAX && tally.skipped < u32::MAX {
            tally.record(o);
        }
    }
    assert_eq!(tally.formatted, 1);
    assert_eq!(tally.skipped, 2);
}

#[test]
fn a_formatting_round_trip_rewrites_and_then_rests() {
    let dir = tempfile::tempdir().unwrap();
    let target = dir.path().join("a.py");
    fs_err::write(&target, b"x=1").unwrap();
    let path = target.to_str().unwrap();

    // First round: the daemon answers "OK" with the reformatted body.
    let mut tally = BatchTally::new();
    let outcome = match interpret_response(200, b"x = 1\n".to_vec(), path) {
        Interpretation::Rewrite(bytes) => write_pyfile(path, bytes),
        Interpretation::Unchanged => Ok(false),
        Interpretation::Reject(e) => Err(e),
    };
    tally.record(&outcome);
    assert_eq!(fs_err::read(&target).unwrap(), b"x = 1\n");
    assert_eq!(tally.formatted, 1);
    assert_eq!(tally.skipped, 0);

    // Second round: the daemon answers "No Content"; nothing changes.
    let mut tally = BatchTally::new();
    let outcome = match interpret_response(204, Vec::new(), path) {
        Interpretation::Rewrite(bytes) => write_pyfile(path, bytes),
        Interpretation::Unchanged => Ok(false),
        Interpretation::Reject(e) => Err(e),
    };
    tally.record(&outcome);
    assert_eq!(fs_err::read(&target).unwrap(), b"x = 1\n");
    assert_eq!(tally.formatted, 0);
    assert_eq!(tally.skipped, 1);
}

#[test]
fn decimal_rendering_matches_expected_values() {
    assert_eq!(blackd_client::text::u16_decimal(0), "0");
    assert_eq!(blackd_client::text::u16_decimal(88), "88");
    assert_eq!(blackd_client::text::u16_decimal(255), "255");
    assert_eq!(blackd_client::text::u16_decimal(65535), "65535");
}
