use orchestrix::chatgpt_auth::{
    callback_code, callback_response, chatgpt_auth_status, current_chatgpt_auth_status, ChatGPTAuthData,
};

fn auth(expires_at: i64) -> ChatGPTAuthData {
    ChatGPTAuthData {
        access_token: "a".to_string(),
        refresh_token: "r".to_string(),
        expires_at,
        account_id: Some("acct_1".to_string()),
    }
}

#[test]
fn callback_code_is_read_from_the_request_line() {
    let request = "GET /auth/callback?code=abc%2Fdef&state=xyz HTTP/1.1\r\nHost: localhost:1455\r\n\r\n";
    assert_eq!(callback_code(request).unwrap(), "abc/def");
    let request = "GET /auth/callback?state=xyz&code=plain+text HTTP/1.1\r\n";
    assert_eq!(callback_code(request).unwrap(), "plain+text");
    let request = "GET /auth/callback?code=%FF HTTP/1.1\r\n";
    assert_eq!(callback_code(request).unwrap(), "%FF");
    assert_eq!(
        callback_code("GET /auth/callback?state=1 HTTP/1.1\r\nHost: x\r\n").unwrap_err(),
        "No `code` in callback URL: GET /auth/callback?state=1 HTTP/1.1"
    );
    assert_eq!(callback_code("GET /auth/callback HTTP/1.1\n").unwrap_err(), "No `code` in callback URL: GET /auth/callback HTTP/1.1");
    assert_eq!(callback_code("").unwrap_err(), "No `code` in callback URL: ");
}

#[test]
fn callback_response_announces_its_length() {
    let r = callback_response();
    let (head, body) = r.split_once("\r\n\r\n").unwrap();
    assert!(head.starts_with("HTTP/1.1 200 OK\r\nContent-Type: text/html\r\nContent-Length: "));
    assert!(head.ends_with("\r\nConnection: close"));
    assert!(head.contains(&format!("Content-Length: {}\r\n", body.len())));
    assert!(body.contains("Authentication complete"));
}

#[test]
fn sign_in_expires_thirty_seconds_early() {
    let s = chatgpt_auth_status(Some(auth(1_000)), 969);
    assert!(s.authenticated && !s.is_expired);
    assert_eq!(s.account_id.as_deref(), Some("acct_1"));
    let s = chatgpt_auth_status(Some(auth(1_000)), 971);
    assert!(s.authenticated && s.is_expired);
    let s = chatgpt_auth_status(None, 0);
    assert!(!s.authenticated && !s.is_expired && s.account_id.is_none());
    let s = current_chatgpt_auth_status(Some(auth(0)));
    assert!(s.authenticated && s.is_expired);
}
