use adbtools::oauth::oauth_reply;

fn content_length(response: &str) -> usize {
    let line = response.lines().find(|l| l.starts_with("Content-Length: ")).unwrap();
    line["Content-Length: ".len()..].parse().unwrap()
}

fn body(response: &str) -> &str {
    response.split("\r\n\r\n").nth(1).unwrap()
}

#[test]
fn callback_hands_over_the_query_and_stops() {
    let r = oauth_reply("GET /callback?access_token=abc&state=1 HTTP/1.1\r\n");
    assert_eq!(r.emit.as_deref(), Some("access_token=abc&state=1"));
    assert!(r.stop);
    assert!(r.response.starts_with("HTTP/1.1 200 OK\r\nContent-Type: text/html; charset=utf-8\r\n"));
    assert!(body(&r.response).contains("认证完成"));
    assert_eq!(content_length(&r.response), body(&r.response).len());
}

#[test]
fn callback_without_query() {
    let r = oauth_reply("GET /callback HTTP/1.1");
    assert_eq!(r.emit.as_deref(), Some(""));
    assert!(r.stop);
}

#[test]
fn other_paths_get_the_redirect_page() {
    for line in ["GET / HTTP/1.1\r\n", "", "GET", "GET /favicon.ico HTTP/1.1"] {
        let r = oauth_reply(line);
        assert_eq!(r.emit, None);
        assert!(!r.stop);
        assert!(body(&r.response).contains("window.location.replace('/callback?'+h)"));
        assert_eq!(content_length(&r.response), body(&r.response).len());
    }
}

#[test]
fn server_serves_until_the_callback() {
    let requests = [
        "GET / HTTP/1.1\r\n",
        "GET /favicon.ico HTTP/1.1\r\n",
        "GET /callback?code=42 HTTP/1.1\r\n",
        "GET / HTTP/1.1\r\n",
    ];
    let mut emitted = Vec::new();
    let mut served = 0;
    for line in requests {
        let r = oauth_reply(line);
        served += 1;
        if let Some(q) = r.emit {
            emitted.push(q);
        }
        if r.stop {
            break;
        }
    }
    assert_eq!(served, 3);
    assert_eq!(emitted, vec!["code=42".to_string()]);
}
