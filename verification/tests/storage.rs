use citinet_hub::storage_manager::{
    mime_from_ext, validate_filename, ResourceLimits, StorageError, StorageManager,
};

fn stamp(i: usize) -> String {
    format!("2024-01-01T{:02}:{:02}:{:02}+00:00", i / 3600, (i / 60) % 60, i % 60)
}

/// A store with alice (administrator), bob and carol.
fn populated() -> StorageManager {
    let mut sm = StorageManager::initialize("/data");
    sm.create_user_with("alice-id", &stamp(1), "alice", "alice@example.org", "hash-a", true).unwrap();
    sm.create_user_with("bob-id", &stamp(2), "bob", "bob@example.org", "hash-b", false).unwrap();
    sm.create_user_with("carol-id", &stamp(3), "carol", "carol@example.org", "hash-c", false).unwrap();
    sm
}

fn ids(v: &[String]) -> Vec<&str> {
    v.iter().map(|s| s.as_str()).collect()
}

#[test]
fn filenames() {
    assert_eq!(validate_filename("photo.png"), Ok(()));
    assert_eq!(validate_filename("a.b.c"), Ok(()));
    assert_eq!(validate_filename(""), Err(StorageError::Validation));
    assert_eq!(validate_filename(".."), Err(StorageError::Validation));
    assert_eq!(validate_filename("a..b"), Err(StorageError::Validation));
    assert_eq!(validate_filename("a/b"), Err(StorageError::Validation));
    assert_eq!(validate_filename("a\\b"), Err(StorageError::Validation));
    assert_eq!(validate_filename("/"), Err(StorageError::Validation));
}

#[test]
fn attachment_media_types() {
    assert_eq!(mime_from_ext("photo.png"), "image/png");
    assert_eq!(mime_from_ext("PHOTO.PNG"), "image/png");
    assert_eq!(mime_from_ext("a.jpg"), "image/jpeg");
    assert_eq!(mime_from_ext("a.JPeG"), "image/jpeg");
    assert_eq!(mime_from_ext("a.gif"), "image/gif");
    assert_eq!(mime_from_ext("a.webp"), "image/webp");
    assert_eq!(mime_from_ext("a.svg"), "image/svg+xml");
    assert_eq!(mime_from_ext("a.bmp"), "image/bmp");
    assert_eq!(mime_from_ext("a.ico"), "image/x-icon");
    assert_eq!(mime_from_ext("a.mp4"), "video/mp4");
    assert_eq!(mime_from_ext("a.m4v"), "video/mp4");
    assert_eq!(mime_from_ext("a.webm"), "video/webm");
    assert_eq!(mime_from_ext("a.mov"), "video/quicktime");
    assert_eq!(mime_from_ext("a.avi"), "video/x-msvideo");
    assert_eq!(mime_from_ext("a.mkv"), "video/x-matroska");
    assert_eq!(mime_from_ext("a.ogv"), "video/ogg");
    assert_eq!(mime_from_ext("a.3gp"), "video/3gpp");
    assert_eq!(mime_from_ext("a.pdf"), "application/pdf");
    assert_eq!(mime_from_ext("a.txt"), "text/plain");
    assert_eq!(mime_from_ext("a.json"), "application/json");
    assert_eq!(mime_from_ext("a.zip"), "application/zip");
    assert_eq!(mime_from_ext("a.html"), "application/octet-stream");
    assert_eq!(mime_from_ext("archive.tar.gz"), "application/octet-stream");
    assert_eq!(mime_from_ext("png"), "image/png");
    assert_eq!(mime_from_ext("noext."), "application/octet-stream");
}

#[test]
fn create_user_inserts_and_reports() {
    let mut sm = StorageManager::initialize("/data");
    assert_eq!(sm.install_path(), "/data");
    assert_eq!(sm.user_count(), 0);
    let u = sm.create_user_with("id1", "t1", "alice", "a@x", "h1", true).unwrap();
    assert_eq!(u.user_id, "id1");
    assert_eq!(u.username, "alice");
    assert_eq!(u.email, "a@x");
    assert!(u.is_admin);
    assert_eq!(u.created_at, "t1");
    assert_eq!(u.updated_at, "t1");
    assert_eq!(sm.user_count(), 1);
    assert_eq!(sm.get_password_hash("alice").as_deref(), Some("h1"));
    assert_eq!(sm.get_user_by_id("id1").unwrap().username, "alice");
    assert!(sm.get_user_by_username("bob").is_none());
    assert!(sm.get_user_by_id("id2").is_none());
    assert!(sm.get_password_hash("bob").is_none());
}

#[test]
fn create_user_updates_an_existing_name() {
    let mut sm = populated();
    let u = sm.create_user_with("ignored-id", "t9", "bob", "new@example.org", "new-hash", true).unwrap();
    assert_eq!(u.user_id, "bob-id");
    assert_eq!(u.username, "bob");
    assert_eq!(u.email, "new@example.org");
    assert!(u.is_admin);
    assert_eq!(u.created_at, stamp(2));
    assert_eq!(u.updated_at, "t9");
    assert_eq!(sm.user_count(), 3);
    assert_eq!(sm.get_password_hash("bob").as_deref(), Some("new-hash"));
    let stored = sm.get_user_by_id("bob-id").unwrap();
    assert_eq!(stored.email, "new@example.org");
    assert!(stored.is_admin);
}

#[test]
fn create_user_keeps_ids_and_addresses_unique() {
    let mut sm = populated();
    assert_eq!(
        sm.create_user_with("alice-id", "t", "dave", "dave@example.org", "h", false).err(),
        Some(StorageError::Integrity)
    );
    assert_eq!(
        sm.create_user_with("dave-id", "t", "dave", "alice@example.org", "h", false).err(),
        Some(StorageError::Integrity)
    );
    assert_eq!(
        sm.create_user_with("x", "t", "bob", "alice@example.org", "h", false).err(),
        Some(StorageError::Integrity)
    );
    // A user may keep the address he has.
    assert!(sm.create_user_with("x", "t", "bob", "bob@example.org", "h", false).is_ok());
    assert_eq!(sm.user_count(), 3);
}

#[test]
fn create_user_with_fresh_id() {
    let mut sm = StorageManager::initialize("/data");
    let a = sm.create_user("alice", "a@x", "h", false).unwrap();
    let b = sm.create_user("bob", "b@x", "h", false).unwrap();
    assert_ne!(a.user_id, b.user_id);
    assert_eq!(a.user_id.len(), 36);
    assert!(!a.created_at.is_empty());
    assert_eq!(a.created_at, a.updated_at);
}

#[test]
fn users_are_listed_newest_first() {
    let sm = populated();
    let names: Vec<String> = sm.list_users().into_iter().map(|u| u.username).collect();
    assert_eq!(names, vec!["carol", "bob", "alice"]);
}

#[test]
fn equal_stamps_keep_the_stored_order() {
    let mut sm = StorageManager::initialize("/data");
    sm.create_user_with("1", "t", "a", "a@x", "h", false).unwrap();
    sm.create_user_with("2", "t", "b", "b@x", "h", false).unwrap();
    sm.create_user_with("3", "u", "c", "c@x", "h", false).unwrap();
    sm.create_user_with("4", "t", "d", "d@x", "h", false).unwrap();
    let names: Vec<String> = sm.list_users().into_iter().map(|u| u.username).collect();
    assert_eq!(names, vec!["c", "a", "b", "d"]);
}

#[test]
fn first_admin_is_the_oldest() {
    let mut sm = populated();
    assert_eq!(sm.get_first_admin().unwrap().username, "alice");
    sm.update_user_role_at("carol-id", true, "t");
    assert_eq!(sm.get_first_admin().unwrap().username, "alice");
    sm.update_user_role_at("alice-id", false, "t");
    assert_eq!(sm.get_first_admin().unwrap().username, "carol");
    assert_eq!(sm.get_user_by_id("alice-id").unwrap().updated_at, "t");
    sm.update_user_role_at("carol-id", false, "t");
    assert!(sm.get_first_admin().is_none());
    sm.update_user_role_at("nobody", true, "t");
    assert!(sm.get_first_admin().is_none());
}

#[test]
fn upload_records_the_metadata() {
    let mut sm = populated();
    let f = sm.upload_file_with("f1", "t1", "alice-id", "photo.png", 5, false).unwrap();
    assert_eq!(f.file_id, "f1");
    assert_eq!(f.user_id, "alice-id");
    assert_eq!(f.file_name, "photo.png");
    assert_eq!(f.size_bytes, 5);
    assert!(!f.is_public);
    assert_eq!(f.created_at, "t1");
    assert_eq!(sm.list_all_files().len(), 1);

    let g = sm.upload_file("alice-id", "notes.txt", b"hello world", true).unwrap();
    assert_eq!(g.size_bytes, 11);
    assert!(g.is_public);
    assert_eq!(sm.list_all_files().len(), 2);
}

#[test]
fn upload_failures() {
    let mut sm = populated();
    assert_eq!(sm.upload_file_with("f", "t", "alice-id", "../x", 1, false).err(), Some(StorageError::Validation));
    assert_eq!(sm.upload_file_with("f", "t", "alice-id", "", 1, false).err(), Some(StorageError::Validation));
    assert_eq!(sm.upload_file_with("f", "t", "nobody", "x", 1, false).err(), Some(StorageError::Integrity));
    sm.upload_file_with("f", "t", "alice-id", "x", 1, false).unwrap();
    assert_eq!(sm.upload_file_with("f", "t", "alice-id", "y", 1, false).err(), Some(StorageError::Integrity));
    assert_eq!(sm.list_all_files().len(), 1);
}

#[test]
fn private_file_is_hidden_from_others() {
    let mut sm = populated();
    sm.upload_file_with("f1", &stamp(10), "alice-id", "photo.png", 5, false).unwrap();
    sm.upload_file_with("f2", &stamp(11), "alice-id", "public.txt", 5, true).unwrap();
    sm.upload_file_with("f3", &stamp(12), "bob-id", "bobs.txt", 5, false).unwrap();

    let names = |v: Vec<citinet_hub::storage_manager::File>| -> Vec<String> {
        v.into_iter().map(|f| f.file_name).collect()
    };
    assert_eq!(names(sm.list_files(Some("alice-id"))), vec!["public.txt", "photo.png"]);
    assert_eq!(names(sm.list_files(Some("bob-id"))), vec!["bobs.txt", "public.txt"]);
    assert_eq!(names(sm.list_files(None)), vec!["public.txt"]);
    assert_eq!(names(sm.list_all_files()), vec!["bobs.txt", "public.txt", "photo.png"]);

    assert_eq!(sm.read_file("alice-id", "photo.png").unwrap().file_id, "f1");
    assert_eq!(sm.read_file("bob-id", "photo.png").err(), Some(StorageError::PermissionDenied));
    assert_eq!(sm.read_file("bob-id", "public.txt").unwrap().file_id, "f2");
    assert_eq!(sm.read_file("bob-id", "missing.txt").err(), Some(StorageError::NotFound));
    assert_eq!(sm.read_file("bob-id", "a/b").err(), Some(StorageError::Validation));
    // An administrator has no right to read what is private.
    assert_eq!(sm.read_file("alice-id", "bobs.txt").err(), Some(StorageError::PermissionDenied));
}

#[test]
fn attachment_gives_read_access_to_members() {
    let mut sm = populated();
    sm.upload_file_with("f1", &stamp(10), "alice-id", "photo.png", 5, false).unwrap();
    let conv = sm.create_dm_conversation_with("c1", &stamp(11), "alice-id", "bob-id").unwrap();
    assert!(!sm.can_access_attached_file("bob-id", "photo.png"));
    sm.create_message_with("m1", &stamp(12), &conv.conversation_id, "alice-id", "see", &["f1".to_string()])
        .unwrap();
    assert!(sm.can_access_attached_file("bob-id", "photo.png"));
    assert!(!sm.can_access_attached_file("carol-id", "photo.png"));
    assert!(sm.read_file("bob-id", "photo.png").is_ok());
    assert_eq!(sm.read_file("carol-id", "photo.png").err(), Some(StorageError::PermissionDenied));
}

#[test]
fn only_owner_and_administrator_change_files() {
    let mut sm = populated();
    sm.upload_file_with("f1", "t", "bob-id", "bobs.txt", 5, false).unwrap();
    assert_eq!(sm.delete_file("carol-id", "bobs.txt"), Err(StorageError::PermissionDenied));
    assert_eq!(sm.update_file_visibility("carol-id", "bobs.txt", true), Err(StorageError::PermissionDenied));
    assert_eq!(sm.delete_file("nobody", "bobs.txt"), Err(StorageError::PermissionDenied));
    assert_eq!(sm.delete_file("bob-id", "none.txt"), Err(StorageError::NotFound));
    assert_eq!(sm.delete_file("bob-id", ".."), Err(StorageError::Validation));
    assert_eq!(sm.list_all_files().len(), 1);
    assert!(!sm.list_all_files()[0].is_public);

    assert_eq!(sm.update_file_visibility("bob-id", "bobs.txt", true), Ok(()));
    assert!(sm.list_all_files()[0].is_public);
    assert_eq!(sm.update_file_visibility("alice-id", "bobs.txt", false), Ok(()));
    assert!(!sm.list_all_files()[0].is_public);
    assert_eq!(sm.update_file_visibility("alice-id", "none.txt", false), Err(StorageError::NotFound));

    assert_eq!(sm.delete_file("alice-id", "bobs.txt"), Ok(()));
    assert!(sm.list_all_files().is_empty());
}

#[test]
fn deleting_a_file_deletes_its_attachments() {
    let mut sm = populated();
    sm.upload_file_with("f1", "t", "alice-id", "a.png", 5, false).unwrap();
    sm.upload_file_with("f2", "t", "alice-id", "b.png", 6, false).unwrap();
    let conv = sm.create_dm_conversation_with("c1", "t", "alice-id", "bob-id").unwrap();
    sm.create_message_with("m1", "t", &conv.conversation_id, "alice-id", "", &["f1".to_string(), "f2".to_string()])
        .unwrap();
    assert_eq!(sm.attachment_rows().len(), 2);
    sm.delete_file("alice-id", "a.png").unwrap();
    assert_eq!(sm.attachment_rows().len(), 1);
    let page = sm.list_messages("c1", 10, None);
    assert_eq!(page[0].attachments.len(), 1);
    assert_eq!(page[0].attachments[0].file_name, "b.png");
}

#[test]
fn direct_conversation_is_created_once() {
    let mut sm = populated();
    let first = sm.create_dm_conversation_with("c1", "t1", "alice-id", "bob-id").unwrap();
    assert_eq!(first.conversation_id, "c1");
    assert_eq!(first.kind, "dm");
    assert!(first.name.is_none());
    assert_eq!(first.created_by, "alice-id");
    assert_eq!(first.created_at, "t1");
    let again = sm.create_dm_conversation_with("c2", "t2", "alice-id", "bob-id").unwrap();
    assert_eq!(again.conversation_id, "c1");
    let swapped = sm.create_dm_conversation_with("c3", "t3", "bob-id", "alice-id").unwrap();
    assert_eq!(swapped.conversation_id, "c1");
    assert_eq!(swapped.created_at, "t1");
    assert_eq!(sm.conversation_rows().len(), 1);
    assert_eq!(sm.member_rows().len(), 2);

    let other = sm.create_dm_conversation_with("c4", "t4", "alice-id", "carol-id").unwrap();
    assert_eq!(other.conversation_id, "c4");
    assert_eq!(sm.conversation_rows().len(), 2);
}

#[test]
fn direct_conversation_with_fresh_id_is_idempotent() {
    let mut sm = populated();
    let a = sm.create_dm_conversation("alice-id", "bob-id").unwrap();
    let b = sm.create_dm_conversation("bob-id", "alice-id").unwrap();
    assert_eq!(a.conversation_id, b.conversation_id);
}

#[test]
fn direct_conversation_needs_two_users() {
    let mut sm = populated();
    assert_eq!(sm.create_dm_conversation_with("c", "t", "alice-id", "nobody").err(), Some(StorageError::Integrity));
    assert_eq!(sm.create_dm_conversation_with("c", "t", "nobody", "alice-id").err(), Some(StorageError::Integrity));
    assert_eq!(sm.create_dm_conversation_with("c", "t", "alice-id", "alice-id").err(), Some(StorageError::Integrity));
    assert!(sm.conversation_rows().is_empty());
    assert!(sm.member_rows().is_empty());
    sm.create_dm_conversation_with("c", "t", "alice-id", "bob-id").unwrap();
    assert_eq!(sm.create_dm_conversation_with("c", "t", "alice-id", "carol-id").err(), Some(StorageError::Integrity));
}

#[test]
fn group_has_each_member_once() {
    let mut sm = populated();
    let members = vec![
        "bob-id".to_string(),
        "alice-id".to_string(),
        "carol-id".to_string(),
        "bob-id".to_string(),
    ];
    let g = sm.create_group_conversation_with("g1", "t1", "alice-id", "friends", &members).unwrap();
    assert_eq!(g.kind, "group");
    assert_eq!(g.name.as_deref(), Some("friends"));
    assert_eq!(g.created_by, "alice-id");
    let listed: Vec<String> = sm.get_conversation_members("g1").into_iter().map(|m| m.user_id).collect();
    assert_eq!(listed, vec!["alice-id", "bob-id", "carol-id"]);
    let names: Vec<String> = sm.get_conversation_members("g1").into_iter().map(|m| m.username).collect();
    assert_eq!(names, vec!["alice", "bob", "carol"]);

    assert_eq!(
        sm.create_group_conversation_with("g2", "t", "alice-id", "x", &["nobody".to_string()]).err(),
        Some(StorageError::Integrity)
    );
    assert_eq!(
        sm.create_group_conversation_with("g1", "t", "alice-id", "x", &[]).err(),
        Some(StorageError::Integrity)
    );
    assert_eq!(sm.conversation_rows().len(), 1);
    assert_eq!(sm.member_rows().len(), 3);
}

#[test]
fn membership_changes() {
    let mut sm = populated();
    sm.create_group_conversation_with("g1", "t1", "alice-id", "friends", &[]).unwrap();
    assert!(sm.is_conversation_member("g1", "alice-id"));
    assert!(!sm.is_conversation_member("g1", "bob-id"));
    assert_eq!(sm.add_group_member_at("g1", "bob-id", "t2"), Ok(()));
    assert_eq!(sm.add_group_member_at("g1", "bob-id", "t3"), Ok(()));
    assert_eq!(sm.member_rows().len(), 2);
    assert_eq!(sm.get_conversation_members("g1")[1].joined_at, "t2");
    assert_eq!(sm.add_group_member_at("g1", "nobody", "t"), Err(StorageError::Integrity));
    assert_eq!(sm.add_group_member_at("nowhere", "bob-id", "t"), Err(StorageError::Integrity));
    assert_eq!(sm.add_group_member("g1", "carol-id"), Ok(()));
    assert_eq!(sm.member_rows().len(), 3);

    sm.remove_group_member("g1", "bob-id");
    assert!(!sm.is_conversation_member("g1", "bob-id"));
    assert!(sm.is_conversation_member("g1", "carol-id"));
    sm.remove_group_member("g1", "bob-id");
    assert_eq!(sm.member_rows().len(), 2);

    sm.rename_conversation_at("g1", "family", "t9");
    assert_eq!(sm.conversation_rows()[0].name.as_deref(), Some("family"));
    assert_eq!(sm.conversation_rows()[0].updated_at, "t9");
    assert_eq!(sm.conversation_rows()[0].created_at, "t1");
    sm.rename_conversation_at("nowhere", "x", "t");
    assert_eq!(sm.conversation_rows().len(), 1);
}

#[test]
fn message_is_stored_and_shown() {
    let mut sm = populated();
    sm.upload_file_with("f1", "t", "alice-id", "photo.PNG", 5, false).unwrap();
    sm.upload_file_with("f2", "t", "bob-id", "bobs.txt", 6, false).unwrap();
    sm.create_dm_conversation_with("c1", "2024-01-01", "alice-id", "bob-id").unwrap();

    let attachments = vec!["f1".to_string(), "f2".to_string(), "missing".to_string(), "f1".to_string()];
    let m = sm.create_message_with("m1", "2024-02-02", "c1", "alice-id", "hi", &attachments).unwrap();
    assert_eq!(m.message_id, "m1");
    assert_eq!(m.conversation_id, "c1");
    assert_eq!(m.sender_id, "alice-id");
    assert_eq!(m.sender_username, "alice");
    assert_eq!(m.body, "hi");
    assert_eq!(m.created_at, "2024-02-02");
    // Ids that name no file of the sender are passed over.
    assert_eq!(m.attachments.len(), 2);
    assert_eq!(m.attachments[0].file_id, "f1");
    assert_eq!(m.attachments[0].file_name, "photo.PNG");
    assert_eq!(m.attachments[0].size_bytes, 5);
    assert_eq!(m.attachments[0].mime_type, "image/png");
    assert_eq!(m.attachments[1].file_id, "f1");
    // The link is stored once.
    assert_eq!(sm.attachment_rows().len(), 1);
    assert_eq!(sm.message_rows().len(), 1);
    // The conversation's last activity is the message.
    assert_eq!(sm.conversation_rows()[0].updated_at, "2024-02-02");
    assert_eq!(sm.conversation_rows()[0].created_at, "2024-01-01");

    let page = sm.list_messages("c1", 10, None);
    assert_eq!(page.len(), 1);
    assert_eq!(page[0].message_id, "m1");
    assert_eq!(page[0].sender_username, "alice");
    assert_eq!(page[0].attachments.len(), 1);
    assert_eq!(page[0].attachments[0].mime_type, "image/png");
}

#[test]
fn message_failures() {
    let mut sm = populated();
    sm.create_dm_conversation_with("c1", "t", "alice-id", "bob-id").unwrap();
    assert_eq!(
        sm.create_message_with("m", "t", "c1", "carol-id", "hi", &[]).err(),
        Some(StorageError::PermissionDenied)
    );
    assert_eq!(
        sm.create_message_with("m", "t", "nowhere", "alice-id", "hi", &[]).err(),
        Some(StorageError::PermissionDenied)
    );
    assert_eq!(
        sm.create_message_with("m", "t", "c1", "alice-id", "", &[]).err(),
        Some(StorageError::Validation)
    );
    assert_eq!(
        sm.create_message_with("m", "t", "c1", "carol-id", "", &[]).err(),
        Some(StorageError::PermissionDenied)
    );
    // An empty body is fine with an attachment id, even one that is passed over.
    assert!(sm.create_message_with("m", "t", "c1", "alice-id", "", &["none".to_string()]).is_ok());
    assert_eq!(
        sm.create_message_with("m", "t", "c1", "alice-id", "again", &[]).err(),
        Some(StorageError::Integrity)
    );
    assert_eq!(sm.message_rows().len(), 1);
    assert!(sm.create_message("c1", "bob-id", "fresh", &[]).is_ok());
    assert_eq!(sm.message_rows().len(), 2);
}

#[test]
fn history_is_paged_without_gaps() {
    let mut sm = populated();
    sm.create_dm_conversation_with("c1", &stamp(0), "alice-id", "bob-id").unwrap();
    sm.create_dm_conversation_with("c2", &stamp(0), "alice-id", "carol-id").unwrap();
    // Stored out of order, and mixed with another conversation.
    for i in (0..120).rev() {
        let k = (i * 7) % 120;
        sm.create_message_with(&format!("m{}", k), &stamp(100 + k), "c1", "alice-id", "x", &[]).unwrap();
        if i % 10 == 0 {
            sm.create_message_with(&format!("o{}", i), &stamp(100 + i), "c2", "alice-id", "y", &[]).unwrap();
        }
    }

    let mut seen: Vec<String> = Vec::new();
    let mut stamps: Vec<String> = Vec::new();
    let mut before: Option<String> = None;
    let mut sizes = Vec::new();
    loop {
        let page = sm.list_messages("c1", 50, before.as_deref());
        if page.is_empty() {
            break;
        }
        sizes.push(page.len());
        for m in &page {
            assert_eq!(m.conversation_id, "c1");
            seen.push(m.message_id.clone());
            stamps.push(m.created_at.clone());
        }
        before = Some(page.last().unwrap().created_at.clone());
    }
    assert_eq!(sizes, vec![50, 50, 20]);
    assert_eq!(seen.len(), 120);
    let expected: Vec<String> = (0..120).rev().map(|k| format!("m{}", k)).collect();
    assert_eq!(seen, expected);
    for w in stamps.windows(2) {
        assert!(w[0] > w[1]);
    }
}

#[test]
fn page_size_is_capped() {
    let mut sm = populated();
    sm.create_dm_conversation_with("c1", &stamp(0), "alice-id", "bob-id").unwrap();
    for k in 0..120 {
        sm.create_message_with(&format!("m{}", k), &stamp(100 + k), "c1", "alice-id", "x", &[]).unwrap();
    }
    assert_eq!(sm.list_messages("c1", 500, None).len(), 100);
    assert_eq!(sm.list_messages("c1", 101, None).len(), 100);
    assert_eq!(sm.list_messages("c1", 100, None).len(), 100);
    assert_eq!(sm.list_messages("c1", 99, None).len(), 99);
    assert_eq!(sm.list_messages("c1", 1, None)[0].message_id, "m119");
    assert!(sm.list_messages("c1", 0, None).is_empty());
    assert!(sm.list_messages("nowhere", 50, None).is_empty());
    assert!(sm.list_messages("c1", 50, Some(&stamp(100))).is_empty());
    assert_eq!(sm.list_messages("c1", 50, Some(&stamp(101))).len(), 1);
    assert_eq!(sm.get_last_message("c1").unwrap().message_id, "m119");
    assert!(sm.get_last_message("nowhere").is_none());
}

#[test]
fn conversations_are_listed_by_recency() {
    let mut sm = populated();
    sm.create_dm_conversation_with("c1", &stamp(1), "alice-id", "bob-id").unwrap();
    sm.create_group_conversation_with("g1", &stamp(2), "alice-id", "all", &["carol-id".to_string()]).unwrap();
    sm.create_dm_conversation_with("c2", &stamp(3), "bob-id", "carol-id").unwrap();

    let list = sm.list_conversations("alice-id");
    let order: Vec<&str> = list.iter().map(|c| c.conversation.conversation_id.as_str()).collect();
    assert_eq!(order, vec!["g1", "c1"]);
    assert!(list[0].last_message.is_none());
    assert_eq!(list[0].members.len(), 2);

    sm.create_message_with("m1", &stamp(5), "c1", "bob-id", "hello", &[]).unwrap();
    let list = sm.list_conversations("alice-id");
    let order: Vec<&str> = list.iter().map(|c| c.conversation.conversation_id.as_str()).collect();
    assert_eq!(order, vec!["c1", "g1"]);
    assert_eq!(list[0].last_message.as_ref().unwrap().body, "hello");
    assert_eq!(list[0].last_message.as_ref().unwrap().sender_username, "bob");

    assert_eq!(ids(&sm.conversation_ids_of("alice-id")), vec!["c1", "g1"]);
    assert_eq!(ids(&sm.conversation_ids_of("carol-id")), vec!["c2", "g1"]);
    assert!(sm.conversation_ids_of("nobody").is_empty());
    assert!(sm.list_conversations("nobody").is_empty());
}

#[test]
fn deleting_a_user_deletes_what_belongs_to_him() {
    let mut sm = populated();
    sm.upload_file_with("f1", "t", "bob-id", "bobs.txt", 1, false).unwrap();
    sm.upload_file_with("f2", "t", "bob-id", "bobs-public.txt", 1, true).unwrap();
    sm.upload_file_with("f3", "t", "alice-id", "alice-public.txt", 1, true).unwrap();
    sm.upload_file_with("f4", "t", "alice-id", "alice.png", 1, false).unwrap();
    sm.create_dm_conversation_with("c1", "t", "alice-id", "bob-id").unwrap();
    sm.create_group_conversation_with("g1", "t", "bob-id", "bobs", &["alice-id".to_string(), "carol-id".to_string()]).unwrap();
    sm.create_group_conversation_with("g2", "t", "carol-id", "carols", &["alice-id".to_string(), "bob-id".to_string()]).unwrap();
    sm.create_message_with("m1", "t", "c1", "bob-id", "from bob", &["f1".to_string()]).unwrap();
    sm.create_message_with("m2", "t", "c1", "alice-id", "from alice", &["f4".to_string()]).unwrap();
    sm.create_message_with("m3", "t", "g1", "alice-id", "in bob's group", &["f4".to_string()]).unwrap();
    sm.create_message_with("m4", "t", "g2", "bob-id", "in carol's group", &["f2".to_string()]).unwrap();
    sm.create_message_with("m5", "t", "g2", "alice-id", "kept", &["f3".to_string()]).unwrap();

    let mut blobs = sm.delete_user("bob-id");
    blobs.sort();
    // Only his own files are removed from disk, not the public files of others.
    assert_eq!(blobs, vec!["bobs-public.txt", "bobs.txt"]);

    assert_eq!(sm.user_count(), 2);
    assert!(sm.get_user_by_id("bob-id").is_none());
    let files: Vec<&str> = sm.file_rows().iter().map(|f| f.file_id.as_str()).collect();
    assert_eq!(files, vec!["f3", "f4"]);
    let convs: Vec<&str> = sm.conversation_rows().iter().map(|c| c.conversation_id.as_str()).collect();
    assert_eq!(convs, vec!["c1", "g2"]);
    let members: Vec<(&str, &str)> =
        sm.member_rows().iter().map(|m| (m.conversation_id.as_str(), m.user_id.as_str())).collect();
    assert_eq!(members, vec![("c1", "alice-id"), ("g2", "carol-id"), ("g2", "alice-id")]);
    let messages: Vec<&str> = sm.message_rows().iter().map(|m| m.message_id.as_str()).collect();
    assert_eq!(messages, vec!["m2", "m5"]);
    let links: Vec<(&str, &str)> =
        sm.attachment_rows().iter().map(|a| (a.message_id.as_str(), a.file_id.as_str())).collect();
    assert_eq!(links, vec![("m2", "f4"), ("m5", "f3")]);

    assert!(sm.delete_user("nobody").is_empty());
    assert_eq!(sm.user_count(), 2);
}

#[test]
fn store_can_be_reopened_and_moved() {
    let mut sm = populated();
    sm.upload_file_with("f1", "t", "alice-id", "a.txt", 1, true).unwrap();
    let users = sm.user_rows().iter().map(|u| citinet_hub::storage_manager::UserRecord {
        user: u.user.clone(),
        password_hash: u.password_hash.clone(),
    }).collect();
    let files = sm.file_rows().iter().map(|f| f.clone()).collect();
    let mut again = StorageManager::open("/data", None, users, files, Vec::new(), Vec::new(), Vec::new(), Vec::new(), Vec::new());
    assert_eq!(again.user_count(), 3);
    assert_eq!(again.get_password_hash("alice").as_deref(), Some("hash-a"));
    assert_eq!(again.list_files(None).len(), 1);
    again.relocate("/elsewhere");
    assert_eq!(again.install_path(), "/elsewhere");
    assert_eq!(again.user_count(), 3);
}

fn limits(disk: u64) -> ResourceLimits {
    ResourceLimits { disk_quota_milli_gb: disk, bandwidth_limit_milli_mbps: 2_000, cpu_limit_milli_percent: 50_000 }
}

#[test]
fn node_configuration() {
    let mut sm = StorageManager::initialize("/data");
    assert!(sm.get_node_config().is_none());
    assert_eq!(sm.get_storage_status(10, 2, "/data/storage").quota_milli_gb, 0);
    sm.update_auto_start_at(false, "t");
    assert!(sm.get_node_config().is_none());

    let c = sm.save_node_config_with("n1", "t1", "hub", "Home", limits(5_000), true);
    assert_eq!(c.node_id, "n1");
    assert_eq!(c.node_type, "hub");
    assert_eq!(c.node_name, "Home");
    assert_eq!(c.install_path, "/data");
    assert_eq!(c.disk_quota_milli_gb, 5_000);
    assert_eq!(c.bandwidth_limit_milli_mbps, 2_000);
    assert_eq!(c.cpu_limit_milli_percent, 50_000);
    assert!(c.auto_start && c.background_mode);
    assert_eq!((c.created_at.as_str(), c.updated_at.as_str()), ("t1", "t1"));

    sm.update_auto_start_at(false, "t2");
    sm.update_background_mode_at(false, "t3");
    sm.update_resource_limits_at(limits(7_500), "t4");
    let c = sm.get_node_config().unwrap();
    assert!(!c.auto_start && !c.background_mode);
    assert_eq!(c.disk_quota_milli_gb, 7_500);
    assert_eq!((c.created_at.as_str(), c.updated_at.as_str()), ("t1", "t4"));
    assert_eq!(c.node_id, "n1");

    let s = sm.get_storage_status(1024, 3, "/data/storage");
    assert_eq!((s.used_bytes, s.quota_milli_gb, s.file_count), (1024, 7_500, 3));
    assert_eq!(s.data_path, "/data/storage");

    // A second configuration takes the place of the first.
    let d = sm.save_node_config("client", "Other", limits(1), false);
    assert_ne!(d.node_id, "n1");
    assert_eq!(sm.get_node_config().unwrap().node_name, "Other");
    sm.update_auto_start(true);
    sm.update_background_mode(false);
    sm.update_resource_limits(limits(9));
    let c = sm.get_node_config().unwrap();
    assert!(c.auto_start && !c.background_mode);
    assert_eq!(c.disk_quota_milli_gb, 9);

    sm.relocate_at("/new", "t9");
    let c = sm.get_node_config().unwrap();
    assert_eq!(c.install_path, "/new");
    assert_eq!(c.updated_at, "t9");
    assert_eq!(sm.install_path(), "/new");
}

#[test]
fn spaces_belong_to_users() {
    let mut sm = populated();
    let a = sm.create_space_with("s1", &stamp(1), "alice-id", "photos", 5_000, false).unwrap();
    assert_eq!(a.space_id, "s1");
    assert_eq!(a.user_id, "alice-id");
    assert_eq!(a.name, "photos");
    assert_eq!(a.storage_quota_milli_gb, 5_000);
    assert!(!a.is_public);
    assert_eq!((a.created_at.clone(), a.updated_at.clone()), (stamp(1), stamp(1)));
    sm.create_space_with("s2", &stamp(2), "alice-id", "docs", 1, true).unwrap();
    sm.create_space_with("s3", &stamp(3), "bob-id", "bobs", 1, true).unwrap();
    assert_eq!(sm.create_space_with("s1", "t", "bob-id", "x", 1, true).err(), Some(StorageError::Integrity));
    assert_eq!(sm.create_space_with("s9", "t", "nobody", "x", 1, true).err(), Some(StorageError::Integrity));
    assert!(sm.create_space("carol-id", "fresh", 2, false).is_ok());

    let names: Vec<String> = sm.list_user_spaces("alice-id").into_iter().map(|s| s.name).collect();
    assert_eq!(names, vec!["docs", "photos"]);
    assert!(sm.list_user_spaces("nobody").is_empty());
    assert_eq!(sm.space_rows().len(), 4);

    sm.delete_user("alice-id");
    assert!(sm.list_user_spaces("alice-id").is_empty());
    assert_eq!(sm.list_user_spaces("bob-id").len(), 1);
    assert_eq!(sm.space_rows().len(), 2);
}

#[test]
fn commands_keep_the_store_consistent() {
    let mut sm = populated();
    assert!(sm.is_consistent());
    sm.upload_file_with("f1", "t", "alice-id", "a.png", 1, false).unwrap();
    sm.upload_file_with("f2", "t", "bob-id", "b.png", 1, true).unwrap();
    sm.create_space_with("s1", "t", "bob-id", "space", 1, true).unwrap();
    sm.create_dm_conversation_with("c1", "t", "alice-id", "bob-id").unwrap();
    sm.create_group_conversation_with("g1", "t", "bob-id", "g", &["carol-id".to_string(), "carol-id".to_string()])
        .unwrap();
    sm.add_group_member_at("g1", "alice-id", "t").unwrap();
    sm.create_message_with("m1", "t", "c1", "alice-id", "x", &["f1".to_string(), "f1".to_string()]).unwrap();
    sm.create_message_with("m2", "t", "g1", "bob-id", "", &["f2".to_string()]).unwrap();
    assert!(sm.is_consistent());
    sm.rename_conversation_at("g1", "h", "t");
    sm.remove_group_member("g1", "carol-id");
    sm.update_file_visibility("alice-id", "a.png", true).unwrap();
    sm.update_user_role_at("bob-id", true, "t");
    sm.create_user_with("x", "t", "bob", "bob2@example.org", "h", false).unwrap();
    assert!(sm.is_consistent());
    sm.delete_file("bob-id", "b.png").unwrap();
    assert!(sm.is_consistent());
    sm.delete_user("bob-id");
    assert!(sm.is_consistent());
    sm.delete_user("alice-id");
    sm.delete_user("carol-id");
    assert!(sm.is_consistent());
    assert_eq!(sm.user_count(), 0);
    assert!(sm.message_rows().is_empty() && sm.member_rows().is_empty() && sm.conversation_rows().is_empty());
}

#[test]
fn inconsistent_tables_are_recognised() {
    use_rows(|users, files| {
        let sm = StorageManager::open("/d", None, users, files, vec![], vec![], vec![], vec![], vec![]);
        assert!(sm.is_consistent());
    });
    // A file of nobody.
    use_rows(|users, mut files| {
        files[0].user_id = "nobody".to_string();
        let sm = StorageManager::open("/d", None, users, files, vec![], vec![], vec![], vec![], vec![]);
        assert!(!sm.is_consistent());
    });
    // A file name that leaves the directory.
    use_rows(|users, mut files| {
        files[0].file_name = "../x".to_string();
        let sm = StorageManager::open("/d", None, users, files, vec![], vec![], vec![], vec![], vec![]);
        assert!(!sm.is_consistent());
    });
    // Two users of one name.
    use_rows(|mut users, files| {
        users[1].user.username = "alice".to_string();
        let sm = StorageManager::open("/d", None, users, files, vec![], vec![], vec![], vec![], vec![]);
        assert!(!sm.is_consistent());
    });
    // Two files of one id.
    use_rows(|users, mut files| {
        let copy = files[0].clone();
        files.push(copy);
        let sm = StorageManager::open("/d", None, users, files, vec![], vec![], vec![], vec![], vec![]);
        assert!(!sm.is_consistent());
    });
    // A membership in no conversation.
    use_rows(|users, files| {
        let members = vec![citinet_hub::storage_manager::MemberRow {
            conversation_id: "c".to_string(),
            user_id: "alice-id".to_string(),
            joined_at: "t".to_string(),
        }];
        let sm = StorageManager::open("/d", None, users, files, vec![], members, vec![], vec![], vec![]);
        assert!(!sm.is_consistent());
    });
}

fn use_rows(check: impl Fn(Vec<citinet_hub::storage_manager::UserRecord>, Vec<citinet_hub::storage_manager::File>)) {
    let mut sm = populated();
    sm.upload_file_with("f1", "t", "alice-id", "a.png", 1, false).unwrap();
    let users = sm
        .user_rows()
        .iter()
        .map(|u| citinet_hub::storage_manager::UserRecord { user: u.user.clone(), password_hash: u.password_hash.clone() })
        .collect();
    let files = sm.file_rows().iter().map(|f| f.clone()).collect();
    check(users, files);
}

#[test]
fn fresh_ids_are_hyphenated_lower_case_hexadecimal() {
    let mut sm = StorageManager::initialize("/data");
    let id = sm.create_user("alice", "a@x", "h", false).unwrap().user_id;
    let groups: Vec<&str> = id.split('-').collect();
    assert_eq!(groups.iter().map(|g| g.len()).collect::<Vec<usize>>(), vec![8, 4, 4, 4, 12]);
    assert!(groups.iter().all(|g| g.chars().all(|c| c.is_ascii_digit() || ('a'..='f').contains(&c))));
}

#[test]
fn media_type_table_is_on_lower_case_extensions() {
    assert_eq!(citinet_hub::storage_manager::mime_for_extension("png"), "image/png");
    assert_eq!(citinet_hub::storage_manager::mime_for_extension("PNG"), "application/octet-stream");
    assert_eq!(citinet_hub::storage_manager::mime_for_extension("ico"), "image/x-icon");
    assert_eq!(citinet_hub::storage_manager::mime_for_extension("html"), "application/octet-stream");
    assert_eq!(citinet_hub::hub_api::mime_for_extension("html"), "text/html");
    assert_eq!(citinet_hub::hub_api::mime_for_extension("ico"), "application/octet-stream");
    assert_eq!(citinet_hub::hub_api::mime_for_extension(""), "application/octet-stream");
}
