use citinet_hub::auth::generate_token_at;
use citinet_hub::hub_api::{
    check_upload, content_disposition, create_conversation, delete_file_handler, download_file,
    effective_limit, get_client_ip, get_messages, handle_ws, health, hub_info, hub_status,
    list_conversations_handler,
    list_files, list_members, login, mime_from_ext, parse_is_public, register, request_time,
    send_message, update_conversation, update_file_visibility_handler, upload_file, upload_name,
    validate_auth_header, ws_handler, ws_subscription, ApiError, ApiState,
    CreateConversationRequest, HeaderValue, LoginRequest, MessagesQuery, RateLimiter,
    RegisterRequest, SendMessageRequest, UpdateConversationRequest, UpdateFileRequest, WsAction,
    WsEvent, WsQuery,
};
use citinet_hub::storage_manager::{ResourceLimits, StorageManager};

const SECRET: &str = "test-secret";
const NOW: i64 = 1_700_000_000;

fn state() -> ApiState {
    let mut sm = StorageManager::initialize("/data");
    sm.create_user_with("alice-id", "2024-01-01T00:00:01+00:00", "alice", "alice@example.org", "h", true).unwrap();
    sm.create_user_with("bob-id", "2024-01-01T00:00:02+00:00", "bob", "bob@example.org", "h", false).unwrap();
    sm.create_user_with("carol-id", "2024-01-01T00:00:03+00:00", "carol", "carol@example.org", "h", false).unwrap();
    ApiState {
        storage_manager: Some(sm),
        auth_limiter: RateLimiter::new(10, 1),
        jwt_secret: SECRET.to_string(),
    }
}

fn unconfigured() -> ApiState {
    ApiState { storage_manager: None, auth_limiter: RateLimiter::new(10, 1), jwt_secret: SECRET.to_string() }
}

fn bearer(user_id: &str, username: &str, is_admin: bool) -> HeaderValue {
    let t = generate_token_at(SECRET, user_id, username, is_admin, NOW, 0).unwrap();
    HeaderValue::Text(format!("Bearer {}", t.token))
}

fn alice() -> HeaderValue {
    bearer("alice-id", "alice", true)
}

fn bob() -> HeaderValue {
    bearer("bob-id", "bob", false)
}

fn carol() -> HeaderValue {
    bearer("carol-id", "carol", false)
}

#[test]
fn status_codes() {
    assert_eq!(ApiError::BadRequest.status_code(), 400);
    assert_eq!(ApiError::Unauthorized.status_code(), 401);
    assert_eq!(ApiError::Forbidden.status_code(), 403);
    assert_eq!(ApiError::NotFound.status_code(), 404);
    assert_eq!(ApiError::Conflict.status_code(), 409);
    assert_eq!(ApiError::TooManyRequests.status_code(), 429);
    assert_eq!(ApiError::Internal.status_code(), 500);
    assert_eq!(ApiError::Unavailable.status_code(), 503);
}

#[test]
fn health_is_always_well() {
    let h = health();
    assert!(h.ok);
    assert_eq!(h.version, "0.1.0");
}

#[test]
fn bucket_allows_its_capacity_then_refills() {
    let mut l = RateLimiter::new(3, 1);
    assert!(l.check("1.2.3.4", 1_000));
    assert!(l.check("1.2.3.4", 1_000));
    assert!(l.check("1.2.3.4", 1_500));
    assert!(!l.check("1.2.3.4", 1_900));
    // Another client has a bucket of his own.
    assert!(l.check("5.6.7.8", 1_900));
    // One second after the first request one token is back.
    assert!(l.check("1.2.3.4", 2_000));
    assert!(!l.check("1.2.3.4", 2_100));
    // Never more than the capacity, however long the pause.
    for _ in 0..3 {
        assert!(l.check("1.2.3.4", 1_000_000));
    }
    assert!(!l.check("1.2.3.4", 1_000_000));
    // A clock that goes back earns nothing.
    assert!(!l.check("1.2.3.4", 0));
}

#[test]
fn bucket_refill_is_whole_tokens_only() {
    let mut l = RateLimiter::new(2, 2);
    assert!(l.check("c", 0));
    assert!(l.check("c", 0));
    assert!(!l.check("c", 499));
    assert!(l.check("c", 500));
    assert!(!l.check("c", 500));
    let mut zero = RateLimiter::new(0, 1);
    assert!(!zero.check("c", 0));
    assert!(!zero.check("c", 10_000));
}

#[test]
fn client_address() {
    let text = |s: &str| HeaderValue::Text(s.to_string());
    assert_eq!(get_client_ip(&text("1.1.1.1"), &text("2.2.2.2")), "1.1.1.1");
    assert_eq!(get_client_ip(&HeaderValue::Absent, &text(" 2.2.2.2 , 3.3.3.3")), "2.2.2.2");
    assert_eq!(get_client_ip(&HeaderValue::Absent, &HeaderValue::Absent), "direct");
    assert_eq!(get_client_ip(&HeaderValue::Opaque, &text("2.2.2.2")), "direct");
    assert_eq!(get_client_ip(&HeaderValue::Absent, &HeaderValue::Opaque), "direct");
    assert_eq!(get_client_ip(&text(""), &text("2.2.2.2")), "");
    assert_eq!(get_client_ip(&text(",x"), &HeaderValue::Absent), "");
}

#[test]
fn authentication() {
    let c = validate_auth_header(SECRET, &alice(), NOW).unwrap();
    assert_eq!((c.sub.as_str(), c.username.as_str(), c.is_admin), ("alice-id", "alice", true));
    assert_eq!(validate_auth_header(SECRET, &HeaderValue::Absent, NOW).err(), Some(ApiError::Unauthorized));
    assert_eq!(validate_auth_header(SECRET, &HeaderValue::Opaque, NOW).err(), Some(ApiError::Unauthorized));
    let raw = match alice() {
        HeaderValue::Text(t) => t["Bearer ".len()..].to_string(),
        _ => unreachable!(),
    };
    assert_eq!(
        validate_auth_header(SECRET, &HeaderValue::Text(raw.clone()), NOW).err(),
        Some(ApiError::Unauthorized)
    );
    assert_eq!(validate_auth_header("other", &alice(), NOW).err(), Some(ApiError::Unauthorized));
    assert_eq!(
        validate_auth_header(SECRET, &alice(), NOW + 604_800 + 61).err(),
        Some(ApiError::Unauthorized)
    );
    assert_eq!(ws_handler(SECRET, &WsQuery { token: raw }, NOW).unwrap().sub, "alice-id");
    assert_eq!(
        ws_handler(SECRET, &WsQuery { token: "x".to_string() }, NOW).err(),
        Some(ApiError::Unauthorized)
    );
    assert!(request_time() > NOW);
}

#[test]
fn first_registered_user_is_the_administrator() {
    let mut st = ApiState {
        storage_manager: Some(StorageManager::initialize("/data")),
        auth_limiter: RateLimiter::new(10, 1),
        jwt_secret: SECRET.to_string(),
    };
    let req = |name: &str| RegisterRequest {
        username: name.to_string(),
        email: format!("{}@example.org", name),
        password: "pw".to_string(),
    };
    let a = register(&mut st, "1.1.1.1", 0, &req("alice")).unwrap();
    assert!(a.is_admin);
    assert_eq!(a.username, "alice");
    assert_eq!(a.email, "alice@example.org");
    assert!(!a.token.is_empty());
    assert!(!a.expires_at.is_empty());
    let b = register(&mut st, "1.1.1.1", 0, &req("bob")).unwrap();
    assert!(!b.is_admin);
    assert_ne!(a.user_id, b.user_id);

    let claims = validate_auth_header(SECRET, &HeaderValue::Text(format!("Bearer {}", a.token)), request_time())
        .unwrap();
    assert_eq!(claims.sub, a.user_id);
    assert!(claims.is_admin);

    assert_eq!(register(&mut st, "1.1.1.1", 0, &req("alice")).err(), Some(ApiError::Conflict));
    let sm = st.storage_manager.as_ref().unwrap();
    assert_eq!(sm.user_count(), 2);
    assert_ne!(sm.get_password_hash("alice").unwrap(), "pw");
}

#[test]
fn registration_refusals() {
    let mut st = state();
    let req = |u: &str, e: &str, p: &str| RegisterRequest {
        username: u.to_string(),
        email: e.to_string(),
        password: p.to_string(),
    };
    assert_eq!(register(&mut st, "c", 0, &req("", "e", "p")).err(), Some(ApiError::BadRequest));
    assert_eq!(register(&mut st, "c", 0, &req("u", "", "p")).err(), Some(ApiError::BadRequest));
    assert_eq!(register(&mut st, "c", 0, &req("u", "e", "")).err(), Some(ApiError::BadRequest));
    assert_eq!(register(&mut st, "c", 0, &req("alice", "e", "p")).err(), Some(ApiError::Conflict));
    let mut un = unconfigured();
    assert_eq!(register(&mut un, "c", 0, &req("u", "e", "p")).err(), Some(ApiError::Unavailable));

    // Ten requests per client, whatever they ask; then the limit.
    for _ in 0..6 {
        assert_eq!(register(&mut st, "c", 0, &req("", "", "")).err(), Some(ApiError::BadRequest));
    }
    assert_eq!(register(&mut st, "c", 0, &req("u", "e", "p")).err(), Some(ApiError::TooManyRequests));
    assert_eq!(register(&mut st, "d", 0, &req("", "", "")).err(), Some(ApiError::BadRequest));
    assert_eq!(st.storage_manager.as_ref().unwrap().user_count(), 3);
}

#[test]
fn login_checks_the_password() {
    let mut st = ApiState {
        storage_manager: Some(StorageManager::initialize("/data")),
        auth_limiter: RateLimiter::new(10, 1),
        jwt_secret: SECRET.to_string(),
    };
    let reg = RegisterRequest {
        username: "alice".to_string(),
        email: "a@example.org".to_string(),
        password: "right".to_string(),
    };
    let made = register(&mut st, "c", 0, &reg).unwrap();
    let attempt = |u: &str, p: &str| LoginRequest { username: u.to_string(), password: p.to_string() };

    let ok = login(&mut st, "c", 0, &attempt("alice", "right")).unwrap();
    assert_eq!(ok.user_id, made.user_id);
    assert_eq!(ok.username, "alice");
    assert_eq!(ok.email, "a@example.org");
    assert!(ok.is_admin);
    // An unknown name and a wrong password look the same.
    assert_eq!(login(&mut st, "c", 0, &attempt("alice", "wrong")).err(), Some(ApiError::Unauthorized));
    assert_eq!(login(&mut st, "c", 0, &attempt("nobody", "right")).err(), Some(ApiError::Unauthorized));
    let mut un = unconfigured();
    assert_eq!(login(&mut un, "c", 0, &attempt("alice", "right")).err(), Some(ApiError::Unavailable));
}

#[test]
fn login_with_a_broken_hash_is_an_internal_failure() {
    let mut st = state();
    let attempt = LoginRequest { username: "alice".to_string(), password: "pw".to_string() };
    assert_eq!(login(&mut st, "c", 0, &attempt).err(), Some(ApiError::Internal));
    let mut l = RateLimiter::new(1, 1);
    assert!(l.check("c", 0));
    st.auth_limiter = l;
    assert_eq!(login(&mut st, "c", 0, &attempt).err(), Some(ApiError::TooManyRequests));
}

#[test]
fn members_need_a_token() {
    let st = state();
    assert_eq!(list_members(&st, &HeaderValue::Absent, NOW).err(), Some(ApiError::Unauthorized));
    assert_eq!(list_members(&unconfigured(), &bob(), NOW).err(), Some(ApiError::Unavailable));
    assert_eq!(list_members(&unconfigured(), &HeaderValue::Absent, NOW).err(), Some(ApiError::Unauthorized));
    let m = list_members(&st, &bob(), NOW).unwrap();
    let names: Vec<&str> = m.iter().map(|x| x.username.as_str()).collect();
    assert_eq!(names, vec!["carol", "bob", "alice"]);
    assert!(m[2].is_admin && !m[0].is_admin);
    assert_eq!(m[2].user_id, "alice-id");
    assert_eq!(m[2].created_at, "2024-01-01T00:00:01+00:00");
}

#[test]
fn private_upload_is_seen_and_fetched_by_its_owner_only() {
    let mut st = state();
    let uploader = check_upload(&st, &alice(), NOW, "photo.png", 3).unwrap();
    let f = upload_file(&mut st, &uploader, "photo.png", b"abc", false).unwrap();
    assert_eq!(f.file_name, "photo.png");
    assert_eq!(f.size_bytes, 3);
    assert_eq!(f.user_id, "alice-id");

    let names = |h: &HeaderValue, st: &ApiState| -> Vec<String> {
        list_files(st, h, NOW).unwrap().into_iter().map(|f| f.file_name).collect()
    };
    assert_eq!(names(&alice(), &st), vec!["photo.png"]);
    assert!(names(&bob(), &st).is_empty());

    let d = download_file(&st, &alice(), NOW, "photo.png").unwrap();
    assert_eq!(d.file.file_id, f.file_id);
    assert_eq!(d.content_type, "image/png");
    assert_eq!(d.content_disposition, "inline; filename=\"photo.png\"");
    assert_eq!(download_file(&st, &bob(), NOW, "photo.png").err(), Some(ApiError::NotFound));
    assert_eq!(download_file(&st, &bob(), NOW, "missing.png").err(), Some(ApiError::NotFound));
    assert_eq!(download_file(&st, &HeaderValue::Absent, NOW, "photo.png").err(), Some(ApiError::Unauthorized));
    assert_eq!(list_files(&st, &HeaderValue::Absent, NOW).err(), Some(ApiError::Unauthorized));
    assert_eq!(list_files(&unconfigured(), &bob(), NOW).err(), Some(ApiError::Unavailable));
}

#[test]
fn upload_checks() {
    let st = state();
    assert_eq!(check_upload(&st, &HeaderValue::Absent, NOW, "a", 1).err(), Some(ApiError::Unauthorized));
    assert_eq!(check_upload(&st, &bob(), NOW, "", 1).err(), Some(ApiError::BadRequest));
    assert_eq!(check_upload(&st, &bob(), NOW, "a", 0).err(), Some(ApiError::BadRequest));
    assert_eq!(check_upload(&unconfigured(), &bob(), NOW, "a", 1).err(), Some(ApiError::Unavailable));
    assert_eq!(check_upload(&st, &bob(), NOW, "../a", 1).err(), Some(ApiError::BadRequest));
    assert_eq!(check_upload(&st, &bob(), NOW, "a", 1).unwrap().sub, "bob-id");

    assert_eq!(upload_name(Some("x.txt")), "x.txt");
    assert_eq!(upload_name(None), "upload");
    assert!(parse_is_public("true"));
    assert!(parse_is_public("1"));
    assert!(!parse_is_public("TRUE"));
    assert!(!parse_is_public("yes"));
    assert!(!parse_is_public(""));

    let mut un = unconfigured();
    let c = validate_auth_header(SECRET, &bob(), NOW).unwrap();
    assert_eq!(upload_file(&mut un, &c, "a", b"x", false).err(), Some(ApiError::Unavailable));
    let mut st = state();
    assert_eq!(upload_file(&mut st, &c, "a/b", b"x", false).err(), Some(ApiError::BadRequest));
}

#[test]
fn download_media_types() {
    assert_eq!(mime_from_ext("page.HTML"), "text/html");
    assert_eq!(mime_from_ext("page.htm"), "text/html");
    assert_eq!(mime_from_ext("icon.ico"), "application/octet-stream");
    assert_eq!(mime_from_ext("clip.MP4"), "video/mp4");
    assert_eq!(mime_from_ext("doc.pdf"), "application/pdf");
    assert_eq!(mime_from_ext("a.jpeg"), "image/jpeg");
    assert_eq!(mime_from_ext("a"), "application/octet-stream");
    assert_eq!(content_disposition("video/mp4", "a b.mp4"), "inline; filename=\"a b.mp4\"");
    assert_eq!(content_disposition("image/png", "x"), "inline; filename=\"x\"");
    assert_eq!(content_disposition("application/pdf", "x.pdf"), "attachment; filename=\"x.pdf\"");
    assert_eq!(content_disposition("ximage/png", "x"), "attachment; filename=\"x\"");
    assert_eq!(content_disposition("", ""), "attachment; filename=\"\"");
}

#[test]
fn deleting_and_hiding_files_through_the_api() {
    let mut st = state();
    let c = validate_auth_header(SECRET, &bob(), NOW).unwrap();
    upload_file(&mut st, &c, "bobs.txt", b"x", false).unwrap();
    let public = UpdateFileRequest { is_public: true };

    assert_eq!(delete_file_handler(&mut st, &carol(), NOW, "bobs.txt"), Err(ApiError::NotFound));
    assert_eq!(update_file_visibility_handler(&mut st, &carol(), NOW, "bobs.txt", &public), Err(ApiError::NotFound));
    assert_eq!(delete_file_handler(&mut st, &HeaderValue::Absent, NOW, "bobs.txt"), Err(ApiError::Unauthorized));
    assert_eq!(delete_file_handler(&mut st, &bob(), NOW, "none.txt"), Err(ApiError::NotFound));
    assert_eq!(list_files(&st, &carol(), NOW).unwrap().len(), 0);

    assert_eq!(update_file_visibility_handler(&mut st, &bob(), NOW, "bobs.txt", &public), Ok(()));
    assert_eq!(list_files(&st, &carol(), NOW).unwrap().len(), 1);
    assert_eq!(delete_file_handler(&mut st, &alice(), NOW, "bobs.txt"), Ok(()));
    assert_eq!(list_files(&st, &bob(), NOW).unwrap().len(), 0);

    let mut un = unconfigured();
    assert_eq!(delete_file_handler(&mut un, &bob(), NOW, "x"), Err(ApiError::Unavailable));
    assert_eq!(update_file_visibility_handler(&mut un, &bob(), NOW, "x", &public), Err(ApiError::Unavailable));
}

fn dm_request(peer: &str) -> CreateConversationRequest {
    CreateConversationRequest {
        kind: "dm".to_string(),
        peer_user_id: Some(peer.to_string()),
        name: None,
        member_ids: None,
    }
}

#[test]
fn conversations_through_the_api() {
    let mut st = state();
    let made = create_conversation(&mut st, &alice(), NOW, &dm_request("bob-id")).unwrap();
    assert_eq!(made.conversation.kind, "dm");
    assert_eq!(made.members.len(), 2);
    let again = create_conversation(&mut st, &bob(), NOW, &dm_request("alice-id")).unwrap();
    assert_eq!(again.conversation.conversation_id, made.conversation.conversation_id);

    let group = CreateConversationRequest {
        kind: "group".to_string(),
        peer_user_id: None,
        name: Some("all".to_string()),
        member_ids: Some(vec!["bob-id".to_string()]),
    };
    let g = create_conversation(&mut st, &alice(), NOW, &group).unwrap();
    assert_eq!(g.conversation.name.as_deref(), Some("all"));
    assert_eq!(g.members.len(), 2);

    let bad = |kind: &str, peer: Option<&str>, name: Option<&str>, members: Option<Vec<String>>| {
        CreateConversationRequest {
            kind: kind.to_string(),
            peer_user_id: peer.map(|s| s.to_string()),
            name: name.map(|s| s.to_string()),
            member_ids: members,
        }
    };
    assert_eq!(create_conversation(&mut st, &alice(), NOW, &bad("dm", None, None, None)).err(), Some(ApiError::BadRequest));
    assert_eq!(create_conversation(&mut st, &alice(), NOW, &bad("group", None, None, Some(vec![]))).err(), Some(ApiError::BadRequest));
    assert_eq!(create_conversation(&mut st, &alice(), NOW, &bad("group", None, Some("n"), None)).err(), Some(ApiError::BadRequest));
    assert_eq!(create_conversation(&mut st, &alice(), NOW, &bad("channel", Some("bob-id"), Some("n"), Some(vec![]))).err(), Some(ApiError::BadRequest));
    assert_eq!(create_conversation(&mut st, &alice(), NOW, &dm_request("nobody")).err(), Some(ApiError::Internal));
    assert_eq!(create_conversation(&mut st, &HeaderValue::Absent, NOW, &dm_request("bob-id")).err(), Some(ApiError::Unauthorized));
    assert_eq!(create_conversation(&mut unconfigured(), &alice(), NOW, &dm_request("bob-id")).err(), Some(ApiError::Unavailable));

    let listed = list_conversations_handler(&st, &bob(), NOW).unwrap();
    assert_eq!(listed.len(), 2);
    assert!(list_conversations_handler(&st, &carol(), NOW).unwrap().is_empty());
    assert_eq!(list_conversations_handler(&st, &HeaderValue::Absent, NOW).err(), Some(ApiError::Unauthorized));
}

#[test]
fn only_members_update_a_conversation() {
    let mut st = state();
    let group = CreateConversationRequest {
        kind: "group".to_string(),
        peer_user_id: None,
        name: Some("all".to_string()),
        member_ids: Some(vec!["bob-id".to_string()]),
    };
    let g = create_conversation(&mut st, &alice(), NOW, &group).unwrap();
    let id = g.conversation.conversation_id;
    let update = UpdateConversationRequest {
        name: Some("renamed".to_string()),
        add_members: Some(vec!["carol-id".to_string()]),
        remove_members: Some(vec!["bob-id".to_string()]),
    };
    assert_eq!(update_conversation(&mut st, &carol(), NOW, &id, &update).err(), Some(ApiError::Forbidden));
    assert_eq!(update_conversation(&mut st, &HeaderValue::Absent, NOW, &id, &update).err(), Some(ApiError::Unauthorized));
    let members = update_conversation(&mut st, &bob(), NOW, &id, &update).unwrap();
    let ids: Vec<&str> = members.iter().map(|m| m.user_id.as_str()).collect();
    assert_eq!(ids, vec!["alice-id", "carol-id"]);
    let sm = st.storage_manager.as_ref().unwrap();
    assert_eq!(sm.conversation_rows()[0].name.as_deref(), Some("renamed"));

    let broken = UpdateConversationRequest {
        name: None,
        add_members: Some(vec!["nobody".to_string()]),
        remove_members: None,
    };
    assert_eq!(update_conversation(&mut st, &alice(), NOW, &id, &broken).err(), Some(ApiError::Internal));
    let nothing = UpdateConversationRequest { name: None, add_members: None, remove_members: None };
    assert_eq!(update_conversation(&mut st, &alice(), NOW, &id, &nothing).unwrap().len(), 2);
}

#[test]
fn message_reaches_members_and_nobody_else() {
    let mut st = state();
    let made = create_conversation(&mut st, &alice(), NOW, &dm_request("bob-id")).unwrap();
    let conv = made.conversation.conversation_id;

    // Bob and carol are connected before the message is sent.
    let bobs = ws_subscription(&st, "bob-id");
    let carols = ws_subscription(&st, "carol-id");
    assert_eq!(bobs, vec![conv.clone()]);
    assert!(carols.is_empty());

    let req = SendMessageRequest { body: "hi".to_string(), attachment_ids: vec![] };
    let event = send_message(&mut st, &alice(), NOW, &conv, &req).unwrap();
    assert_eq!(event.conversation_id, conv);
    assert_eq!(event.message.body, "hi");
    assert_eq!(event.message.sender_username, "alice");
    assert!(event.message.attachments.is_empty());

    match handle_ws(&bobs, WsEvent::Published(event)) {
        WsAction::Send(m) => {
            assert_eq!(m.conversation_id, conv);
            assert_eq!(m.message.body, "hi");
        },
        other => panic!("bob should receive the message, got {:?}", other),
    }
    let event = send_message(&mut st, &bob(), NOW, &conv, &req).unwrap();
    assert!(matches!(handle_ws(&carols, WsEvent::Published(event)), WsAction::Continue));

    assert!(ws_subscription(&unconfigured(), "bob-id").is_empty());
}

#[test]
fn websocket_loop_steps() {
    let ids = vec!["c1".to_string()];
    assert!(matches!(handle_ws(&ids, WsEvent::Lagged), WsAction::Continue));
    assert!(matches!(handle_ws(&ids, WsEvent::ClientFrame), WsAction::Continue));
    assert!(matches!(handle_ws(&ids, WsEvent::ChannelClosed), WsAction::Close));
    assert!(matches!(handle_ws(&ids, WsEvent::SocketClosed), WsAction::Close));
    assert!(matches!(handle_ws(&ids, WsEvent::SendFailed), WsAction::Close));
}

#[test]
fn strangers_neither_post_nor_read() {
    let mut st = state();
    let made = create_conversation(&mut st, &alice(), NOW, &dm_request("bob-id")).unwrap();
    let conv = made.conversation.conversation_id;
    let req = SendMessageRequest { body: "hi".to_string(), attachment_ids: vec![] };
    send_message(&mut st, &alice(), NOW, &conv, &req).unwrap();

    assert_eq!(send_message(&mut st, &carol(), NOW, &conv, &req).err(), Some(ApiError::Forbidden));
    let all = MessagesQuery { limit: None, before: None };
    assert_eq!(get_messages(&st, &carol(), NOW, &conv, &all).err(), Some(ApiError::Forbidden));
    assert_eq!(get_messages(&st, &HeaderValue::Absent, NOW, &conv, &all).err(), Some(ApiError::Unauthorized));
    assert_eq!(get_messages(&unconfigured(), &bob(), NOW, &conv, &all).err(), Some(ApiError::Unavailable));
    assert_eq!(st.storage_manager.as_ref().unwrap().message_rows().len(), 1);

    let page = get_messages(&st, &bob(), NOW, &conv, &all).unwrap();
    assert_eq!(page.len(), 1);
    assert_eq!(page[0].body, "hi");

    let empty = SendMessageRequest { body: String::new(), attachment_ids: vec![] };
    assert_eq!(send_message(&mut st, &alice(), NOW, &conv, &empty).err(), Some(ApiError::BadRequest));
    assert_eq!(send_message(&mut st, &HeaderValue::Absent, NOW, &conv, &req).err(), Some(ApiError::Unauthorized));
    assert_eq!(send_message(&mut unconfigured(), &alice(), NOW, &conv, &req).err(), Some(ApiError::Unavailable));
}

#[test]
fn history_requests_are_capped() {
    assert_eq!(effective_limit(None), 50);
    assert_eq!(effective_limit(Some(0)), 0);
    assert_eq!(effective_limit(Some(20)), 20);
    assert_eq!(effective_limit(Some(100)), 100);
    assert_eq!(effective_limit(Some(101)), 100);
    assert_eq!(effective_limit(Some(u32::MAX)), 100);

    let mut st = state();
    {
        let sm = st.storage_manager.as_mut().unwrap();
        sm.create_dm_conversation_with("c1", "t", "alice-id", "bob-id").unwrap();
        for k in 0..120 {
            sm.create_message_with(&format!("m{}", k), &format!("2024-01-01T00:{:02}:{:02}", k / 60, k % 60), "c1", "alice-id", "x", &[])
                .unwrap();
        }
    }
    let q = |limit: Option<u32>, before: Option<&str>| MessagesQuery { limit, before: before.map(|s| s.to_string()) };
    assert_eq!(get_messages(&st, &bob(), NOW, "c1", &q(None, None)).unwrap().len(), 50);
    assert_eq!(get_messages(&st, &bob(), NOW, "c1", &q(Some(1000), None)).unwrap().len(), 100);
    let page = get_messages(&st, &bob(), NOW, "c1", &q(Some(5), Some("2024-01-01T00:00:03"))).unwrap();
    let ids: Vec<&str> = page.iter().map(|m| m.message_id.as_str()).collect();
    assert_eq!(ids, vec!["m2", "m1", "m0"]);
}

#[test]
fn probes_need_a_configured_node() {
    assert_eq!(hub_info(&unconfigured()).err(), Some(ApiError::Unavailable));
    assert_eq!(hub_status(&unconfigured(), 0, 0, 0).err(), Some(ApiError::Unavailable));
    let mut st = state();
    assert_eq!(hub_info(&st).err(), Some(ApiError::Unavailable));
    assert_eq!(hub_status(&st, 0, 0, 0).err(), Some(ApiError::Unavailable));
    let limits = ResourceLimits { disk_quota_milli_gb: 5_000, bandwidth_limit_milli_mbps: 1, cpu_limit_milli_percent: 2 };
    st.storage_manager.as_mut().unwrap().save_node_config_with("n1", "t", "hub", "Home", limits, true);
    let info = hub_info(&st).unwrap();
    assert_eq!(info.node_id, "n1");
    assert_eq!(info.node_name, "Home");
    assert_eq!(info.node_type, "hub");
    assert_eq!(info.storage_quota_milli_gb, 5_000);
    let s = hub_status(&st, 2_048, 7, 99).unwrap();
    assert_eq!(s.node_name, "Home");
    assert_eq!(s.node_type, "hub");
    assert_eq!((s.uptime_seconds, s.used_bytes, s.quota_milli_gb, s.file_count), (99, 2_048, 5_000, 7));
    assert!(s.online);
}

#[test]
fn request_time_is_the_present() {
    let first = request_time();
    let second = request_time();
    assert!(first > NOW);
    assert!(second >= first && second - first < 5);
}

#[test]
fn registration_with_a_taken_address_is_a_conflict() {
    let mut st = ApiState {
        storage_manager: Some(StorageManager::initialize("/data")),
        auth_limiter: RateLimiter::new(10, 1),
        jwt_secret: SECRET.to_string(),
    };
    let req = |name: &str, email: &str| RegisterRequest {
        username: name.to_string(),
        email: email.to_string(),
        password: "pw".to_string(),
    };
    assert!(register(&mut st, "c", 0, &req("ann", "ann@example.org")).is_ok());
    assert_eq!(register(&mut st, "c", 0, &req("ben", "ann@example.org")).err(), Some(ApiError::Conflict));
    assert_eq!(st.storage_manager.as_ref().unwrap().user_count(), 1);
    assert!(st.storage_manager.as_ref().unwrap().email_taken("ann@example.org"));
    assert!(!st.storage_manager.as_ref().unwrap().email_taken("ben@example.org"));
    assert!(register(&mut st, "c", 0, &req("ben", "ben@example.org")).is_ok());
}
