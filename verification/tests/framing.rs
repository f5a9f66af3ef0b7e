use ts3_query::client::{ReadStep, ResponseReader};
use ts3_query::{QueryClient, Ts3Error};

fn lines(v: &[&str]) -> Vec<String> {
    v.iter().map(|s| s.to_string()).collect()
}

#[test]
fn status_ok_alone_gives_no_lines() {
    let client = QueryClient::new();
    let (res, used) = client.read_response(b"error id=0 msg=ok\r");
    assert_eq!(res.unwrap(), Vec::<String>::new());
    assert_eq!(used, 18);
}

#[test]
fn status_with_error_gives_server_error() {
    let client = QueryClient::new();
    let (res, _) = client.read_response(b"error id=512 msg=invalid\\sclientID\r");
    match res {
        Err(Ts3Error::ServerError { response }) => {
            assert_eq!(response.id, 512);
            assert_eq!(response.msg, "invalid clientID");
            assert_eq!(response.error_name(), Some("invalid clientID"));
        }
        other => panic!("unexpected {:?}", other),
    }
}

#[test]
fn data_lines_come_before_the_status_line() {
    let client = QueryClient::new();
    let stream = b"clid=1 cid=2\n\r\n\rversion=3\n\rerror id=0 msg=ok\n\rnext";
    let (res, used) = client.read_response(stream);
    assert_eq!(res.unwrap(), lines(&["clid=1 cid=2", "version=3"]));
    assert_eq!(used, stream.len() - 4);
}

#[test]
fn server_error_discards_data_lines() {
    let client = QueryClient::new();
    let (res, _) = client.read_response(b"a=1\n\rerror id=1024 msg=invalid\\sserverID\n\r");
    let err = res.unwrap_err();
    assert!(err.is_error_response());
    let response = err.error_response().unwrap();
    assert_eq!(response.id, 1024);
    assert_eq!(response.msg, "invalid serverID");
}

#[test]
fn too_many_lines_fail_with_the_lines_read() {
    let mut client = QueryClient::new();
    client.limit_lines(3);
    let (res, used) = client.read_response(b"a\rb\rc\rd\re\r");
    match res {
        Err(Ts3Error::ResponseLimit { response }) => {
            assert_eq!(response, lines(&["a", "b", "c"]));
        }
        other => panic!("unexpected {:?}", other),
    }
    assert_eq!(used, 6);
}

#[test]
fn blank_lines_count_towards_the_line_limit() {
    let mut client = QueryClient::new();
    client.limit_lines(3);
    let (res, _) = client.read_response(b"a\r\n\r\rerror id=0 msg=ok\r");
    match res {
        Err(Ts3Error::ResponseLimit { response }) => assert_eq!(response, lines(&["a"])),
        other => panic!("unexpected {:?}", other),
    }
}

#[test]
fn zero_line_limit_fails_at_once() {
    let mut client = QueryClient::new();
    client.limit_lines(0);
    let (res, used) = client.read_response(b"error id=0 msg=ok\r");
    assert!(matches!(res, Err(Ts3Error::ResponseLimit { response }) if response.is_empty()));
    assert_eq!(used, 0);
}

#[test]
fn oversized_first_line_fails() {
    let mut client = QueryClient::new();
    client.limit_line_bytes(8);
    let (res, used) = client.read_response(b"0123456789abcdef\rerror id=0 msg=ok\r");
    assert!(matches!(res, Err(Ts3Error::OversizedLine { response }) if response.is_empty()));
    assert_eq!(used, 8);
}

#[test]
fn oversized_last_permitted_line_is_the_response_limit() {
    let mut client = QueryClient::new();
    client.limit_line_bytes(8);
    client.limit_lines(2);
    let (res, _) = client.read_response(b"abc\r0123456789abcdef\r");
    match res {
        Err(Ts3Error::ResponseLimit { response }) => assert_eq!(response, lines(&["abc"])),
        other => panic!("unexpected {:?}", other),
    }
}

#[test]
fn line_that_fills_the_budget_with_its_end_is_accepted() {
    let mut client = QueryClient::new();
    client.limit_line_bytes(8);
    let (res, _) = client.read_response(b"0123456\rerror id=0 msg=ok\r");
    // the status line is longer than the budget
    assert!(matches!(res, Err(Ts3Error::OversizedLine { response }) if response == lines(&["0123456"])));
    client.limit_line_bytes(18);
    let (res, _) = client.read_response(b"0123456\rerror id=0 msg=ok\r");
    assert_eq!(res.unwrap(), lines(&["0123456"]));
}

#[test]
fn end_of_stream_is_connection_closed() {
    let client = QueryClient::new();
    let (res, _) = client.read_response(b"");
    assert!(matches!(res, Err(Ts3Error::ConnectionClosed)));
    let (res, _) = client.read_response(b"a=1\r");
    assert!(matches!(res, Err(Ts3Error::ConnectionClosed)));
}

#[test]
fn line_cut_short_is_invalid_response() {
    let client = QueryClient::new();
    let (res, _) = client.read_response(b"a=1\rb=\xff2");
    match res {
        Err(Ts3Error::InvalidResponse { context, data }) => {
            assert_eq!(context, "expected \\r delimiter, got: ");
            assert_eq!(data, "b=\u{fffd}2");
        }
        other => panic!("unexpected {:?}", other),
    }
}

#[test]
fn invalid_utf8_line_is_utf8_error() {
    let client = QueryClient::new();
    let (res, _) = client.read_response(b"a=\xff\n\rerror id=0 msg=ok\r");
    match res {
        Err(Ts3Error::Utf8Error { bytes }) => assert_eq!(bytes, b"a=\xff".to_vec()),
        other => panic!("unexpected {:?}", other),
    }
}

#[test]
fn malformed_status_lines_are_invalid_responses() {
    for line in ["error", "error id=0", "error id=0 msg", "error  id=0 msg=ok", "error foo=0 msg=ok", "notanerror id=0 msg=ok"] {
        match QueryClient::check_ok(line) {
            Err(Ts3Error::InvalidResponse { context, data }) => {
                assert_eq!(context, "expected id and msg, got ");
                assert_eq!(data, line);
            }
            other => panic!("unexpected {:?} for {:?}", other, line),
        }
    }
    match QueryClient::check_ok("error id=abc msg=ok") {
        Err(Ts3Error::InvalidResponse { context, data }) => {
            assert_eq!(context, "expected usize, got ");
            assert_eq!(data, "abc");
        }
        other => panic!("unexpected {:?}", other),
    }
}

#[test]
fn status_line_ignores_trailing_tokens() {
    assert!(QueryClient::check_ok("error id=0 msg=ok extra=1").is_ok());
    match QueryClient::check_ok("error id=2568 msg=insufficient\\sclient\\spermissions failed_permid=4") {
        Err(Ts3Error::ServerError { response }) => {
            assert_eq!(response.id, 2568);
            assert_eq!(response.msg, "insufficient client permissions");
        }
        other => panic!("unexpected {:?}", other),
    }
}

#[test]
fn reader_can_be_fed_line_by_line() {
    let mut step = ResponseReader::start(10, 100);
    let mut fed = 0;
    for chunk in [&b"a=1\n\r"[..], &b"\r"[..], &b"error id=0 msg=ok\n\r"[..]] {
        step = match step {
            ReadStep::More(reader) => {
                assert_eq!(reader.budget(), 100);
                fed += 1;
                reader.feed(chunk.to_vec())
            }
            ReadStep::Done(r) => panic!("done early: {:?}", r),
        };
    }
    assert_eq!(fed, 3);
    match step {
        ReadStep::Done(Ok(l)) => assert_eq!(l, lines(&["a=1"])),
        other => panic!("unexpected {:?}", other),
    }
}

#[test]
fn byte_budget_of_zero_reads_nothing() {
    let mut client = QueryClient::new();
    client.limit_line_bytes(0);
    let (res, used) = client.read_response(b"error id=0 msg=ok\r");
    assert!(matches!(res, Err(Ts3Error::ConnectionClosed)));
    assert_eq!(used, 0);
    let (res, used) = client.read_response(b"");
    assert!(matches!(res, Err(Ts3Error::ConnectionClosed)));
    assert_eq!(used, 0);
    client.limit_lines(1);
    let (res, _) = client.read_response(b"abc\r");
    assert!(matches!(res, Err(Ts3Error::ConnectionClosed)));
    // fed by hand, an empty read is the closed connection under any budget
    for budget in [0, 1, 100] {
        match ResponseReader::start(5, budget) {
            ReadStep::More(reader) => {
                assert!(matches!(reader.feed(Vec::new()), ReadStep::Done(Err(Ts3Error::ConnectionClosed))))
            }
            other => panic!("unexpected {:?}", other),
        }
    }
}

#[test]
fn byte_budget_of_one_takes_a_bare_line_end_only() {
    let mut client = QueryClient::new();
    client.limit_line_bytes(1);
    let (res, used) = client.read_response(b"\r\rab\r");
    assert!(matches!(res, Err(Ts3Error::OversizedLine { response }) if response.is_empty()));
    assert_eq!(used, 3);
}
