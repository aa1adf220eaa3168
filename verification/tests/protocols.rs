use postfix_rest_gateway::backend::{
    lookup_outcome, outcome_from_failure, outcome_from_items, BackendOutcome, HttpReply, Notice,
};
use postfix_rest_gateway::config::{Config, ConfigError, Endpoint, EndpointMode};
use postfix_rest_gateway::plan::{
    append_pair_checked, policy_plan, socketmap_plan, tcp_lookup_plan, Method, Plan, PlanError,
};
use postfix_rest_gateway::policy::{
    policy_answer, policy_answer_to_text, policy_request_body, policy_response,
    policy_response_to_text,
};
use postfix_rest_gateway::socketmap::{
    parse_socketmap_request, socketmap_answer, socketmap_answer_text,
    socketmap_bad_frame_response, socketmap_bad_request_response, socketmap_response,
    socketmap_response_text, SocketmapRequest,
};
use postfix_rest_gateway::tcp_lookup::{
    format_tcp_response, parse_tcp_request, tcp_lookup_answer, tcp_lookup_response,
};
use std::time::Duration;

fn endpoint(mode: EndpointMode, target: &str) -> Endpoint {
    Endpoint {
        name: "test".to_string(),
        mode,
        target: target.to_string(),
        bind_address: "127.0.0.1".to_string(),
        bind_port: 9000,
        auth_token: "SECRET-REDACTED".to_string(),
        request_timeout: 1500,
    }
}

fn answered(status: u16, body: &[u8]) -> HttpReply {
    HttpReply::Response { status, body: Some(body.to_vec()) }
}

fn same_outcome(a: &BackendOutcome, b: &BackendOutcome) -> bool {
    match (a, b) {
        (BackendOutcome::Success(x), BackendOutcome::Success(y)) => x == y,
        (BackendOutcome::EmptyResult, BackendOutcome::EmptyResult) => true,
        (BackendOutcome::NotFound, BackendOutcome::NotFound) => true,
        (BackendOutcome::ClientError, BackendOutcome::ClientError) => true,
        (BackendOutcome::ServerError, BackendOutcome::ServerError) => true,
        (BackendOutcome::InvalidJson, BackendOutcome::InvalidJson) => true,
        (BackendOutcome::UnknownStatus, BackendOutcome::UnknownStatus) => true,
        (BackendOutcome::TransportFailure(x), BackendOutcome::TransportFailure(y)) => x == y,
        _ => false,
    }
}

fn header_pairs(call: &postfix_rest_gateway::plan::BackendCall) -> Vec<(String, String)> {
    call.headers.iter().map(|h| (h.name.clone(), h.value.clone())).collect()
}

fn pair(name: &str, value: &str) -> (String, String) {
    (name.to_string(), value.to_string())
}

fn reply_bytes(plan: Result<Plan, PlanError>) -> Vec<u8> {
    match plan {
        Ok(Plan::Reply(bytes)) => bytes,
        Ok(Plan::Call(call)) => panic!("a call to {}", call.url),
        Err(e) => panic!("{:?}", e),
    }
}

#[test]
fn tcp_response_encodes_the_text() {
    assert_eq!(format_tcp_response(500, b"Invalid request"), b"500 Invalid%20request\n".to_vec());
    assert_eq!(format_tcp_response(200, b"a@b.c"), b"200 a@b.c\n".to_vec());
    assert_eq!(format_tcp_response(400, b""), b"400 \n".to_vec());
    assert_eq!(format_tcp_response(7, b"x,y"), b"7 x%2Cy\n".to_vec());
}

#[test]
fn tcp_response_ceiling() {
    // "200 " and the line feed take five bytes.
    let fits = vec![b'a'; 4091];
    let out = format_tcp_response(200, &fits);
    assert_eq!(out.len(), 4096);
    assert!(out.starts_with(b"200 aaa"));
    let over = vec![b'a'; 4092];
    assert_eq!(format_tcp_response(200, &over), b"500 Response%20too%20long\n".to_vec());
    // Escapes count as three bytes each.
    let spaces = vec![b' '; 1364];
    assert_eq!(format_tcp_response(200, &spaces), b"500 Response%20too%20long\n".to_vec());
    let spaces = vec![b' '; 1363];
    assert_eq!(format_tcp_response(200, &spaces).len(), 5 + 3 * 1363);
}

#[test]
fn tcp_request_grammar() {
    assert_eq!(parse_tcp_request(b"get alice@example.com\n"), Some(b"alice@example.com".to_vec()));
    assert_eq!(parse_tcp_request(b"get key"), Some(b"key".to_vec()));
    assert_eq!(parse_tcp_request(b"  get \t key  more tokens\r\n"), Some(b"key".to_vec()));
    assert_eq!(parse_tcp_request("get\u{a0}k\u{3000}x".as_bytes()), Some(b"k".to_vec()));
    assert_eq!(parse_tcp_request(b"bogus\n"), None);
    assert_eq!(parse_tcp_request(b"get\n"), None);
    assert_eq!(parse_tcp_request(b"get "), None);
    assert_eq!(parse_tcp_request(b""), None);
    assert_eq!(parse_tcp_request(b"GET key\n"), None);
    assert_eq!(parse_tcp_request(b"gets key\n"), None);
    assert_eq!(parse_tcp_request(b"put key\n"), None);
    assert_eq!(parse_tcp_request(b"key get\n"), None);
}

#[test]
fn tcp_lookup_success_joins_values() {
    let outcome = lookup_outcome(answered(200, br#"["a@x.com","b@x.com"]"#));
    assert_eq!(tcp_lookup_response(&outcome), b"200 a@x.com,b@x.com\n".to_vec());
    let outcome = lookup_outcome(answered(200, br#"["first value","x/y"]"#));
    assert_eq!(tcp_lookup_response(&outcome), b"200 first%20value,x%2Fy\n".to_vec());
}

#[test]
fn tcp_lookup_invalid_request() {
    let e = endpoint(EndpointMode::TcpLookup, "http://127.0.0.1:8080/lookup");
    let plan = tcp_lookup_plan(&e, b"bogus\n", "agent/1.0");
    assert_eq!(reply_bytes(plan), b"500 Invalid%20request\n".to_vec());
}

#[test]
fn tcp_lookup_outcomes() {
    let cases: Vec<(HttpReply, &[u8])> = vec![
        (answered(200, b"[]"), b"500 Empty%20result\n"),
        (answered(200, br#"{"a":1}"#), b"500 Empty%20result\n"),
        (answered(200, b"[1,2,null]"), b"500 Empty%20result\n"),
        (answered(204, b"\"text\""), b"500 Empty%20result\n"),
        (answered(200, b"not json"), b"500 Invalid%20JSON\n"),
        (answered(200, b""), b"500 Invalid%20JSON\n"),
        (HttpReply::Response { status: 200, body: None }, b"500 Invalid%20JSON\n"),
        (answered(404, b"[\"x\"]"), b"500 Not%20found\n"),
        (answered(400, b""), b"400 Client%20error\n"),
        (answered(403, b""), b"400 Client%20error\n"),
        (answered(499, b""), b"400 Client%20error\n"),
        (answered(500, b""), b"400 Server%20error\n"),
        (answered(503, b""), b"400 Server%20error\n"),
        (answered(302, b""), b"500 Unknown%20error\n"),
        (answered(100, b""), b"500 Unknown%20error\n"),
        (HttpReply::Unreachable("refused".to_string()), b"400 Connection%20failed\n"),
    ];
    for (reply, expected) in cases {
        assert_eq!(tcp_lookup_response(&lookup_outcome(reply)), expected.to_vec());
    }
}

#[test]
fn tcp_lookup_success_over_the_ceiling() {
    let values = vec![vec![b'a'; 2045], vec![b'b'; 2045]];
    let out = tcp_lookup_response(&BackendOutcome::Success(values));
    assert_eq!(out.len(), 4096);
    let values = vec![vec![b'a'; 2045], vec![b'b'; 2046]];
    let out = tcp_lookup_response(&BackendOutcome::Success(values));
    assert_eq!(out, b"500 Response%20too%20long\n".to_vec());
    assert_eq!(
        tcp_lookup_response(&BackendOutcome::Success(Vec::new())),
        b"500 Empty%20result\n".to_vec()
    );
}

#[test]
fn tcp_lookup_builds_the_url() {
    let e = endpoint(EndpointMode::TcpLookup, "http://127.0.0.1:8080/lookup");
    match tcp_lookup_plan(&e, b"get alice@example.com\n", "agent/1.0") {
        Ok(Plan::Call(call)) => {
            assert_eq!(call.method, Method::Get);
            assert_eq!(call.url, "http://127.0.0.1:8080/lookup?key=alice%40example.com");
            assert_eq!(
                header_pairs(&call),
                vec![pair("X-Auth-Token", "SECRET-REDACTED"), pair("User-Agent", "agent/1.0")]
            );
            assert!(call.body.is_empty());
        }
        _ => panic!("no call"),
    }
    let e = endpoint(EndpointMode::TcpLookup, "https://api.example.com/v1?domain=x#top");
    match tcp_lookup_plan(&e, b"get a b\n", "agent/1.0") {
        Ok(Plan::Call(call)) => {
            assert_eq!(call.url, "https://api.example.com/v1?domain=x&key=a#top");
        }
        _ => panic!("no call"),
    }
}

#[test]
fn lookup_with_a_target_that_is_no_url() {
    let e = endpoint(EndpointMode::TcpLookup, "not a url");
    assert!(matches!(tcp_lookup_plan(&e, b"get k\n", "a"), Err(PlanError::InvalidTarget)));
    // The request is looked at first.
    assert_eq!(reply_bytes(tcp_lookup_plan(&e, b"bogus\n", "a")), b"500 Invalid%20request\n".to_vec());
    let e = endpoint(EndpointMode::SocketmapLookup, "");
    assert!(matches!(socketmap_plan(&e, b"6:map k1,", "a"), Err(PlanError::InvalidTarget)));
    assert_eq!(
        reply_bytes(socketmap_plan(&e, b"junk", "a")),
        b"29:TEMP Invalid netstring format,".to_vec()
    );
}

#[test]
fn query_pair_is_appended_and_encoded() {
    let mut url = url::Url::parse("http://h/p").unwrap();
    assert!(append_pair_checked(&mut url, "name", b"a b&c"));
    assert_eq!(url.as_str(), "http://h/p?name=a+b%26c");
    assert!(append_pair_checked(&mut url, "key", "é".as_bytes()));
    assert_eq!(url.as_str(), "http://h/p?name=a+b%26c&key=%C3%A9");
}

#[test]
fn query_pair_needs_room() {
    // Nine bytes may be written for each byte of a value, and a URL's
    // text has to stay below four gigabytes.
    let huge = vec![0u8; 477_218_590];
    let mut url = url::Url::parse("http://h/p").unwrap();
    assert!(!append_pair_checked(&mut url, "key", &huge));
    assert_eq!(url.as_str(), "http://h/p");
    let small = vec![b'a'; 1000];
    assert!(append_pair_checked(&mut url, "key", &small));
    assert_eq!(url.as_str().len(), "http://h/p?key=".len() + 1000);
}

#[test]
fn socketmap_request_grammar() {
    match parse_socketmap_request(b"22:vmap alice@example.com,") {
        SocketmapRequest::Query(q) => {
            assert_eq!(q.map, b"vmap".to_vec());
            assert_eq!(q.key, b"alice@example.com".to_vec());
        }
        _ => panic!("no query"),
    }
    match parse_socketmap_request(b"8:m a b  c,") {
        SocketmapRequest::Query(q) => {
            assert_eq!(q.map, b"m".to_vec());
            assert_eq!(q.key, b"a b  c".to_vec());
        }
        _ => panic!("no query"),
    }
    match parse_socketmap_request(b"2: k,") {
        SocketmapRequest::Query(q) => {
            assert!(q.map.is_empty());
            assert_eq!(q.key, b"k".to_vec());
        }
        _ => panic!("no query"),
    }
    match parse_socketmap_request(b"2:m ,") {
        SocketmapRequest::Query(q) => {
            assert_eq!(q.map, b"m".to_vec());
            assert!(q.key.is_empty());
        }
        _ => panic!("no query"),
    }
    assert!(matches!(parse_socketmap_request(b"4:vmap,"), SocketmapRequest::BadRequest));
    assert!(matches!(parse_socketmap_request(b"0:,"), SocketmapRequest::BadRequest));
    assert!(matches!(parse_socketmap_request(b"vmap key"), SocketmapRequest::BadFrame));
    assert!(matches!(parse_socketmap_request(b"8:vmap key"), SocketmapRequest::BadFrame));
    assert!(matches!(parse_socketmap_request(b""), SocketmapRequest::BadFrame));
}

#[test]
fn socketmap_fixed_responses() {
    assert_eq!(socketmap_bad_frame_response(), b"29:TEMP Invalid netstring format,".to_vec());
    assert_eq!(socketmap_bad_request_response(), b"20:TEMP Invalid request,".to_vec());
    let e = endpoint(EndpointMode::SocketmapLookup, "http://127.0.0.1:8080/map");
    assert_eq!(
        reply_bytes(socketmap_plan(&e, b"4:vmap,", "a")),
        b"20:TEMP Invalid request,".to_vec()
    );
}

#[test]
fn socketmap_not_found() {
    let e = endpoint(EndpointMode::SocketmapLookup, "http://127.0.0.1:8080/map");
    let request = b"22:vmap alice@example.com,";
    match socketmap_plan(&e, request, "agent/1.0") {
        Ok(Plan::Call(call)) => {
            assert_eq!(call.method, Method::Get);
            assert_eq!(call.url, "http://127.0.0.1:8080/map?name=vmap&key=alice%40example.com");
            assert_eq!(
                header_pairs(&call),
                vec![pair("X-Auth-Token", "SECRET-REDACTED"), pair("User-Agent", "agent/1.0")]
            );
        }
        _ => panic!("no call"),
    }
    let outcome = lookup_outcome(answered(404, b""));
    assert_eq!(socketmap_response_text(&outcome), b"NOTFOUND ".to_vec());
    assert_eq!(socketmap_response(&outcome), b"9:NOTFOUND ,".to_vec());
}

#[test]
fn socketmap_outcomes() {
    let cases: Vec<(HttpReply, &[u8])> = vec![
        (answered(200, br#"["a@x.com","b c"]"#), b"OK a@x.com,b%20c"),
        (answered(200, br#"["one"]"#), b"OK one"),
        (answered(200, br#"[1,"two",{}]"#), b"OK two"),
        (answered(200, b"[]"), b"NOTFOUND "),
        (answered(200, b"[1]"), b"NOTFOUND "),
        (answered(200, b"{}"), b"NOTFOUND "),
        (answered(404, b""), b"NOTFOUND "),
        (answered(401, b""), b"PERM Configuration error"),
        (answered(500, b""), b"TEMP Server error"),
        (answered(301, b""), b"TEMP Unknown error"),
        (answered(200, b"["), b"TEMP Invalid JSON"),
        (HttpReply::Response { status: 200, body: None }, b"TEMP Invalid JSON"),
        (HttpReply::Unreachable("timeout".to_string()), b"TEMP Connection failed"),
    ];
    for (reply, expected) in cases {
        let outcome = lookup_outcome(reply);
        assert_eq!(socketmap_response_text(&outcome), expected.to_vec());
        let mut framed = format!("{}:", expected.len()).into_bytes();
        framed.extend_from_slice(expected);
        framed.push(b',');
        assert_eq!(socketmap_response(&outcome), framed);
    }
}

#[test]
fn socketmap_ceiling_is_on_the_text() {
    let fits = BackendOutcome::Success(vec![vec![b'v'; 100000 - 3]]);
    let text = socketmap_response_text(&fits);
    assert_eq!(text.len(), 100000);
    assert_eq!(socketmap_response(&fits).len(), 7 + 100000 + 1);
    let over = BackendOutcome::Success(vec![vec![b'v'; 100000 - 2]]);
    assert_eq!(socketmap_response_text(&over), b"TEMP Response too long".to_vec());
    assert_eq!(socketmap_response(&over), b"22:TEMP Response too long,".to_vec());
}

#[test]
fn policy_body_joins_lines() {
    assert_eq!(
        policy_request_body(b"request=smtpd_access_policy\nsender=a@b.com\n\n"),
        b"request=smtpd_access_policy&sender=a@b.com".to_vec()
    );
    assert_eq!(policy_request_body(b"a=1\r\nb=2\r\n\r\n"), b"a=1&b=2".to_vec());
    assert_eq!(policy_request_body(b"\n\na=1\n\n\nb=%20x\n"), b"a=1&b=%20x".to_vec());
    assert_eq!(policy_request_body(b"a=1"), b"a=1".to_vec());
    assert_eq!(policy_request_body(b"a=1\nb=2\r"), b"a=1&b=2\r".to_vec());
    assert_eq!(policy_request_body(b"a&b\nc"), b"a&b&c".to_vec());
    assert_eq!(policy_request_body(b""), Vec::<u8>::new());
    assert_eq!(policy_request_body(b"\n\r\n\n"), Vec::<u8>::new());
    assert_eq!(policy_request_body(b"\r"), b"\r".to_vec());
}

#[test]
fn policy_body_agrees_with_str_lines() {
    let samples = ["a\nb", "a\r\nb\r\n", "\n", "a\n\nb\n\n", "x=1\r", "\r\n\r\nq", "a\rb\nc", ""];
    for s in samples {
        let expected = s.lines().filter(|l| !l.is_empty()).collect::<Vec<&str>>().join("&");
        assert_eq!(policy_request_body(s.as_bytes()), expected.into_bytes(), "{:?}", s);
    }
}

#[test]
fn policy_plan_posts_the_form() {
    let e = endpoint(EndpointMode::Policy, "http://127.0.0.1:8080/policy");
    match policy_plan(&e, b"request=smtpd_access_policy\nsender=a@b.com\n\n", "agent/1.0") {
        Plan::Call(call) => {
            assert_eq!(call.method, Method::PostForm);
            assert_eq!(call.url, "http://127.0.0.1:8080/policy");
            assert_eq!(
                header_pairs(&call),
                vec![
                    pair("X-Auth-Token", "SECRET-REDACTED"),
                    pair("User-Agent", "agent/1.0"),
                    pair("Content-Type", "application/x-www-form-urlencoded"),
                ]
            );
            assert_eq!(call.body, b"request=smtpd_access_policy&sender=a@b.com".to_vec());
        }
        Plan::Reply(_) => panic!("no call"),
    }
}

#[test]
fn policy_action_is_passed_on() {
    assert_eq!(policy_response(&answered(200, b"action=DUNNO")), b"action=DUNNO\n\n".to_vec());
    assert_eq!(
        policy_response(&answered(200, b"  action=REJECT not welcome \r\n")),
        b"action=REJECT not welcome\n\n".to_vec()
    );
    assert_eq!(policy_response_to_text(b"action="), b"action=\n\n".to_vec());
}

#[test]
fn policy_rejects_other_text() {
    let expected = b"action=DEFER_IF_PERMIT Invalid response format\n\n".to_vec();
    assert_eq!(policy_response(&answered(200, b"DUNNO")), expected);
    assert_eq!(policy_response(&answered(200, b"")), expected);
    assert_eq!(policy_response(&answered(200, b"Action=DUNNO")), expected);
    assert_eq!(policy_response(&answered(200, b"x action=DUNNO")), expected);
    assert_eq!(policy_response(&answered(200, b"action")), expected);
}

#[test]
fn policy_ceiling() {
    let mut text = b"action=".to_vec();
    text.extend(vec![b'x'; 4094 - 7]);
    let out = policy_response(&answered(200, &text));
    assert_eq!(out.len(), 4096);
    assert!(out.ends_with(b"x\n\n"));
    text.push(b'x');
    assert_eq!(
        policy_response(&answered(200, &text)),
        b"action=DEFER_IF_PERMIT Response too long\n\n".to_vec()
    );
    // White space around the text does not count.
    text.pop();
    text.extend_from_slice(b"   \n");
    assert_eq!(policy_response(&answered(200, &text)).len(), 4096);
}

#[test]
fn policy_failures() {
    let cases: Vec<(HttpReply, &[u8])> = vec![
        (answered(400, b"action=DUNNO"), b"action=DEFER_IF_PERMIT Configuration error\n\n"),
        (answered(404, b""), b"action=DEFER_IF_PERMIT Configuration error\n\n"),
        (answered(500, b""), b"action=DEFER_IF_PERMIT Server error\n\n"),
        (answered(599, b""), b"action=DEFER_IF_PERMIT Server error\n\n"),
        (answered(304, b""), b"action=DEFER_IF_PERMIT Unknown error\n\n"),
        (answered(600, b""), b"action=DEFER_IF_PERMIT Unknown error\n\n"),
        (
            HttpReply::Response { status: 200, body: None },
            b"action=DEFER_IF_PERMIT Service error\n\n",
        ),
        (
            HttpReply::Unreachable("dns".to_string()),
            b"action=DEFER_IF_PERMIT Service unavailable\n\n",
        ),
    ];
    for (reply, expected) in cases {
        assert_eq!(policy_response(&reply), expected.to_vec());
    }
}

#[test]
fn outcome_classification() {
    let two = BackendOutcome::Success(vec![b"a".to_vec(), b"b".to_vec()]);
    assert!(same_outcome(&lookup_outcome(answered(200, br#"["a","b"]"#)), &two));
    assert!(same_outcome(&lookup_outcome(answered(299, br#"[ "a", 7, "b", [] ]"#)), &two));
    assert!(same_outcome(
        &lookup_outcome(answered(200, "[\"é\"]".as_bytes())),
        &BackendOutcome::Success(vec!["é".as_bytes().to_vec()])
    ));
    assert!(same_outcome(&lookup_outcome(answered(200, b"null")), &BackendOutcome::EmptyResult));
    assert!(same_outcome(&lookup_outcome(answered(200, b"[] x")), &BackendOutcome::InvalidJson));
    assert!(same_outcome(&lookup_outcome(answered(199, b"[\"a\"]")), &BackendOutcome::UnknownStatus));
    assert!(same_outcome(&lookup_outcome(answered(300, b"[\"a\"]")), &BackendOutcome::UnknownStatus));
    assert!(same_outcome(
        &lookup_outcome(HttpReply::Unreachable("why".to_string())),
        &BackendOutcome::TransportFailure("why".to_string())
    ));
    assert!(same_outcome(&outcome_from_failure(404), &BackendOutcome::NotFound));
    assert!(same_outcome(&outcome_from_failure(400), &BackendOutcome::ClientError));
    assert!(same_outcome(&outcome_from_failure(500), &BackendOutcome::ServerError));
    assert!(same_outcome(&outcome_from_failure(600), &BackendOutcome::UnknownStatus));
    assert!(same_outcome(&outcome_from_failure(0), &BackendOutcome::UnknownStatus));
    assert!(same_outcome(
        &outcome_from_items(vec![None, Some(b"x".to_vec()), None, Some(b"y".to_vec())]),
        &BackendOutcome::Success(vec![b"x".to_vec(), b"y".to_vec()])
    ));
    assert!(same_outcome(&outcome_from_items(vec![None, None]), &BackendOutcome::EmptyResult));
    assert!(same_outcome(&outcome_from_items(Vec::new()), &BackendOutcome::EmptyResult));
}

#[test]
fn repeating_a_request_repeats_the_response() {
    let e = endpoint(EndpointMode::TcpLookup, "http://127.0.0.1:8080/lookup");
    for _ in 0..3 {
        let out = tcp_lookup_response(&lookup_outcome(answered(200, br#"["a@x.com"]"#)));
        assert_eq!(out, b"200 a@x.com\n".to_vec());
        assert_eq!(reply_bytes(tcp_lookup_plan(&e, b"x", "a")), b"500 Invalid%20request\n".to_vec());
        assert_eq!(policy_response(&answered(200, b"action=OK")), b"action=OK\n\n".to_vec());
    }
}

#[test]
fn endpoint_timeout_and_client_settings() {
    let e = endpoint(EndpointMode::Policy, "http://h/");
    assert_eq!(e.timeout(), Duration::from_millis(1500));
    assert_eq!(e.timeout(), Duration::new(1, 500_000_000));
    let s = e.client_settings();
    assert_eq!(s.timeout, 1500);
    assert_eq!(s.pool_max_idle_per_host, 50);
    assert_eq!(s.pool_idle_timeout, 90);
    assert_eq!(s.tcp_keepalive, 60);
}

#[test]
fn config_needs_an_endpoint() {
    assert!(matches!(Config::checked("ua".to_string(), Vec::new()), Err(ConfigError::NoEndpoints)));
    let one = vec![endpoint(EndpointMode::Policy, "http://h/")];
    match Config::checked("ua".to_string(), one) {
        Ok(config) => {
            assert_eq!(config.user_agent, "ua");
            assert_eq!(config.endpoints.len(), 1);
            assert_eq!(config.endpoints[0].mode, EndpointMode::Policy);
        }
        Err(e) => panic!("{:?}", e),
    }
}

#[test]
fn answers_carry_the_response_and_the_notice() {
    let bad = lookup_outcome(answered(200, b"{"));
    assert_eq!(
        tcp_lookup_answer(&bad),
        (b"500 Invalid%20JSON\n".to_vec(), Some(Notice::InvalidJson))
    );
    assert_eq!(
        socketmap_answer(&bad),
        (b"17:TEMP Invalid JSON,".to_vec(), Some(Notice::InvalidJson))
    );
    assert_eq!(
        socketmap_answer_text(&bad),
        (b"TEMP Invalid JSON".to_vec(), Some(Notice::InvalidJson))
    );
    let good = lookup_outcome(answered(200, br#"["v"]"#));
    assert_eq!(tcp_lookup_answer(&good), (b"200 v\n".to_vec(), None));
    assert_eq!(socketmap_answer(&good), (b"4:OK v,".to_vec(), None));
    let over = BackendOutcome::Success(vec![vec![b'a'; 2045], vec![b'b'; 2046]]);
    assert_eq!(
        tcp_lookup_answer(&over),
        (b"500 Response%20too%20long\n".to_vec(), Some(Notice::ResponseTooLong))
    );
    assert_eq!(tcp_lookup_answer(&BackendOutcome::NotFound), (b"500 Not%20found\n".to_vec(), None));
    assert_eq!(
        policy_answer(&answered(200, b"hello")),
        (
            b"action=DEFER_IF_PERMIT Invalid response format\n\n".to_vec(),
            Some(Notice::InvalidPolicyResponse)
        )
    );
    assert_eq!(policy_answer(&answered(200, b"action=OK")), (b"action=OK\n\n".to_vec(), None));
    assert_eq!(
        policy_answer(&answered(503, b"hello")),
        (b"action=DEFER_IF_PERMIT Server error\n\n".to_vec(), None)
    );
    assert_eq!(policy_answer_to_text(b"action=OK"), (b"action=OK\n\n".to_vec(), None));
}
