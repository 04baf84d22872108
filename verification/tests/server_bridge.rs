use fabbit_file_agent::server::{
    build_cors_headers, callback_code, complete_sign_in, download_file_id, download_file_name,
    download_reply, download_request, handle_auth_callback, handle_status, is_allowed_origin,
    is_plain_file_name, json_response, not_found_reply, route_request, sign_in_with_token,
    token_url, update_check_reply, upload_status_reply, AuthState, FolderEntry, ReplyBody, Route,
};
use fabbit_file_agent::updater::check;

fn message(reply: &fabbit_file_agent::server::ServerReply) -> (i32, String, String) {
    match &reply.body {
        ReplyBody::Message { key, message } => (reply.status, key.clone(), message.clone()),
        other => panic!("unexpected body {other:?}"),
    }
}

#[test]
fn cors_echoes_only_allowed_origins() {
    for origin in ["https://fabbit.io", "https://app.fabbit.io", "https://a-b.c.fabbit.io"] {
        let h = build_cors_headers(Some(origin));
        assert_eq!(h[0], ("Access-Control-Allow-Origin".to_string(), origin.to_string()));
    }
    for origin in [
        "http://localhost:3000",
        "http://fabbit.io",
        "https://evil.example",
        "https://evil.com/.fabbit.io",
        "https://a..fabbit.io",
        "https://.fabbit.io",
        "https://evilfabbit.io",
        "https://fabbit.io:8443",
        "https://APP.fabbit.io",
    ] {
        let h = build_cors_headers(Some(origin));
        assert_eq!(h[0].1, "https://fabbit.io", "{origin}");
        assert!(!is_allowed_origin(origin), "{origin}");
    }
    let h = build_cors_headers(None);
    assert_eq!(h[0].1, "https://fabbit.io");
    assert_eq!(h[1], ("Access-Control-Allow-Methods".to_string(), "GET, POST, OPTIONS".to_string()));
    assert_eq!(h[2], ("Access-Control-Allow-Headers".to_string(), "Content-Type".to_string()));
    assert_eq!(h.len(), 3);
}

#[test]
fn routes() {
    assert_eq!(route_request("OPTIONS", "/anything"), Route::Preflight);
    assert_eq!(route_request("GET", "/status"), Route::Status);
    assert_eq!(route_request("GET", "/auth/callback?code=1"), Route::AuthCallback);
    assert_eq!(route_request("POST", "/download"), Route::Download);
    assert_eq!(route_request("GET", "/update/check"), Route::UpdateCheck);
    assert_eq!(route_request("GET", "/upload/status"), Route::UploadStatus);
    assert_eq!(route_request("POST", "/status"), Route::NotFound);
    assert_eq!(route_request("GET", "/status/"), Route::NotFound);
    assert_eq!(route_request("GET", "/download"), Route::NotFound);
}

#[test]
fn callback_codes() {
    assert_eq!(callback_code("/auth/callback?code=abc"), Some("abc".to_string()));
    assert_eq!(callback_code("/auth/callback?state=1&code=xyz&code=2"), Some("xyz".to_string()));
    assert_eq!(callback_code("/auth/callback?code=code=z"), Some("z".to_string()));
    assert_eq!(callback_code("/auth/callback?code="), Some(String::new()));
    assert_eq!(callback_code("/auth/callback?a=1?code=b"), None);
    assert_eq!(callback_code("/auth/callback"), None);
    assert_eq!(callback_code("/auth/callback?xcode=1"), None);
}

#[test]
fn auth_callback_asks_for_token() {
    let exchange = handle_auth_callback("/auth/callback?code=abc").unwrap();
    assert_eq!(exchange.code, "abc");
    assert_eq!(exchange.client_id, "fabbit-agent");
    let refused = handle_auth_callback("/auth/callback").err().unwrap();
    assert_eq!(message(&refused), (400, "error".to_string(), "Missing code parameter".to_string()));
    assert_eq!(token_url("https://api.fabbit.io"), "https://api.fabbit.io/oauth/token");
}

fn signed_out() -> AuthState {
    let mut state = AuthState::default();
    state.username = "before".to_string();
    state
}

#[test]
fn token_answer_signs_in() {
    let mut state = signed_out();
    let reply =
        complete_sign_in(&mut state, Ok((200, r#"{"access_token":"T","username":"u"}"#.to_string())));
    assert_eq!(
        message(&reply),
        (200, "success".to_string(), "로그인 완료. 이 창을 닫아도 됩니다.".to_string())
    );
    assert!(state.logged_in);
    assert_eq!(state.access_token.as_deref(), Some("T"));
    assert_eq!(state.username, "u");

    let mut state = signed_out();
    let reply = complete_sign_in(&mut state, Ok((201, r#"{"access_token":"T2"}"#.to_string())));
    assert_eq!(reply.status, 200);
    assert_eq!(state.access_token.as_deref(), Some("T2"));
    assert_eq!(state.username, "before");
}

#[test]
fn token_failures_leave_state() {
    let failures = [
        Ok((401, r#"{"access_token":"T"}"#.to_string())),
        Ok((200, r#"{"token":"T"}"#.to_string())),
        Ok((200, r#"{"access_token":7}"#.to_string())),
        Ok((200, "not json".to_string())),
        Err("connection refused".to_string()),
    ];
    for response in failures {
        let mut state = signed_out();
        let reply = complete_sign_in(&mut state, response);
        assert_eq!(message(&reply), (502, "error".to_string(), "Token exchange failed".to_string()));
        assert!(!state.logged_in);
        assert_eq!(state.access_token, None);
        assert_eq!(state.username, "before");
    }
    let mut state = signed_out();
    let reply = sign_in_with_token(&mut state, 500, Some("T".to_string()), None);
    assert_eq!(reply.status, 502);
    assert!(!state.logged_in);
    let reply = sign_in_with_token(&mut state, 200, None, Some("u".to_string()));
    assert_eq!(reply.status, 502);
    assert_eq!(state.username, "before");
}

#[test]
fn status_reply() {
    let mut state = AuthState::default();
    state.logged_in = true;
    state.username = "kim".to_string();
    let reply = handle_status(&state, "0.1.0");
    assert_eq!(reply.status, 200);
    match reply.body {
        ReplyBody::Status { version, running, logged_in, user } => {
            assert_eq!(version, "0.1.0");
            assert!(running);
            assert!(logged_in);
            assert_eq!(user, "kim");
        }
        _ => panic!(),
    }
}

#[test]
fn download_needs_sign_in_and_file_id() {
    let state = AuthState::default();
    let refused = download_file_id(&state, r#"{"fileId":"abc"}"#).err().unwrap();
    assert_eq!(message(&refused), (401, "error".to_string(), "Not authenticated".to_string()));

    let mut state = AuthState::default();
    state.logged_in = true;
    assert_eq!(download_file_id(&state, r#"{"fileId":"abc123"}"#).unwrap(), "abc123");
    for body in [r#"{"fileId":7}"#, "not json", r#"["fileId"]"#, r#"{}"#] {
        let refused = download_file_id(&state, body).err().unwrap();
        assert_eq!(message(&refused), (400, "error".to_string(), "Missing fileId".to_string()));
    }
    assert_eq!(download_request(&state, Some("q".to_string())).unwrap(), "q");
    assert_eq!(download_file_name("abc"), "abc.txt");
}

#[test]
fn download_ids_stay_in_folder() {
    let mut state = AuthState::default();
    state.logged_in = true;
    for id in ["../../x", "/tmp/x", "a/b", "/", "x/"] {
        let body = format!(r#"{{"fileId":{}}}"#, serde_json::to_string(id).unwrap());
        let refused = download_file_id(&state, &body).err().unwrap();
        assert_eq!(message(&refused), (400, "error".to_string(), "Invalid fileId".to_string()), "{id}");
        assert!(!is_plain_file_name(id));
    }
    // with `.txt` added these are single names in the folder on this (Unix) build
    for id in ["abc", "a.b", "...", "파일", ".", "..", "C:x", "a\\b", ""] {
        assert!(is_plain_file_name(id), "{id}");
        let body = format!(r#"{{"fileId":{}}}"#, serde_json::to_string(id).unwrap());
        assert_eq!(download_file_id(&state, &body).unwrap(), id);
    }
    assert_eq!(download_file_id(&state, r#"{"fileId":"a.b"}"#).unwrap(), "a.b");
}

#[test]
fn download_replies() {
    let reply = download_reply("abc", "/f/abc.txt", Some("disk full".to_string()));
    assert_eq!(message(&reply), (500, "error".to_string(), "File write failed: disk full".to_string()));
    let reply = download_reply("abc", "/f/abc.txt", None);
    assert_eq!(reply.status, 200);
    match reply.body {
        ReplyBody::Download { file_id, path } => {
            assert_eq!(file_id, "abc");
            assert_eq!(path, "/f/abc.txt");
        }
        _ => panic!(),
    }
}

#[test]
fn upload_status_lists_visible_files() {
    let entries = Some(vec![
        Some(FolderEntry { name: "a.txt".to_string(), is_file: true }),
        Some(FolderEntry { name: ".hidden".to_string(), is_file: true }),
        None,
        Some(FolderEntry { name: "dir".to_string(), is_file: false }),
        Some(FolderEntry { name: "~b.txt".to_string(), is_file: true }),
    ]);
    match upload_status_reply(&entries).body {
        ReplyBody::Pending { files } => assert_eq!(files, vec!["a.txt", "~b.txt"]),
        _ => panic!(),
    }
    match upload_status_reply(&None).body {
        ReplyBody::Pending { files } => assert!(files.is_empty()),
        _ => panic!(),
    }
}

#[test]
fn other_replies() {
    assert_eq!(message(&not_found_reply()), (404, "error".to_string(), "Not found".to_string()));
    assert_eq!(message(&json_response(418, "k", "v")), (418, "k".to_string(), "v".to_string()));
    let reply = update_check_reply(&check("1.2.3"));
    assert_eq!(reply.status, 200);
    match reply.body {
        ReplyBody::Update(info) => {
            assert_eq!(info.latest_version, "1.2.3");
            assert!(!info.update_available);
        }
        _ => panic!(),
    }
}
