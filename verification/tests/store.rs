use furl_store::{Comment, Post, StorageError, User};

fn sample_user() -> User {
    User::new("owo_fan", "Owo Fan", "I post things.")
}

#[test]
fn create_post() {
    let user = sample_user();
    let mut post = Post::new("Sample Post", "This is the body of the post.", &user);

    let content = post.save().expect("OWO");

    let comment = Comment::new("This is a comment.", &user);
    let content = comment
        .save(Some(content.as_str()), &user)
        .expect("Failed to save comment");

    // Load and update the comment
    let loaded_comment = Comment::load(Some(content.as_str()), &comment.comment_uuid, &user)
        .expect("Comment not found");
    let mut updated_comment = loaded_comment;
    updated_comment.update("Updated comment body");
    updated_comment
        .save(Some(content.as_str()), &user)
        .expect("Failed to update comment");
}

#[test]
fn fresh_ids_have_uuid_length() {
    let user = sample_user();
    assert_eq!(user.id.len(), 36);
    let post = Post::new("t", "b", &user);
    assert_eq!(post.uuid.len(), 36);
    let comment = Comment::new("c", &user);
    assert_eq!(comment.comment_uuid.len(), 36);
}

#[test]
fn new_comment_counters_start_at_zero() {
    let user = sample_user();
    let comment = Comment::new("hi", &user);
    assert_eq!(comment.comment_likes, 0);
    assert_eq!(comment.comment_dislikes, 0);
    assert_eq!(comment.user_uuid, user.id);
    assert_eq!(comment.comment_body, "hi");
}

#[test]
fn user_round_trip() {
    let mut user = sample_user();
    user.create_post("post-1").expect("encode");
    user.create_comment("comment-1").expect("encode");
    let text = user.save().expect("encode");
    let loaded = User::load(Some(text.as_str())).expect("decode");
    assert_eq!(loaded.id, user.id);
    assert_eq!(loaded.username, user.username);
    assert_eq!(loaded.display_name, user.display_name);
    assert_eq!(loaded.bio, user.bio);
    assert_eq!(loaded.posts, vec!["post-1".to_string()]);
    assert_eq!(loaded.comments, vec!["comment-1".to_string()]);
}

#[test]
fn user_load_of_nothing_or_junk_is_none() {
    assert!(User::load(None).is_none());
    assert!(User::load(Some("not json at all")).is_none());
    assert!(User::load(Some("{\"id\": \"x\"}")).is_none());
}

#[test]
fn post_round_trip_with_matching_owner() {
    let user = sample_user();
    let post = Post::new("Title", "Body text", &user);
    let text = post.save().expect("encode");
    let loaded = Post::load(Some(text.as_str()), &user).expect("decode");
    assert_eq!(loaded.uuid, post.uuid);
    assert_eq!(loaded.user_uuid, user.id);
    assert_eq!(loaded.title, "Title");
    assert_eq!(loaded.body, "Body text");
    assert_eq!(loaded.comments.len(), 0);
}

#[test]
fn post_document_is_real_json_with_trailing_newline() {
    let user = sample_user();
    let post = Post::new("Title", "Body", &user);
    let text = post.save().expect("encode");
    assert!(text.ends_with('\n'));
    let v: serde_json::Value = serde_json::from_str(&text).expect("valid JSON");
    assert_eq!(v.get("title").and_then(|t| t.as_str()), Some("Title"));
    assert_eq!(v.get("user_uuid").and_then(|t| t.as_str()), Some(user.id.as_str()));
}

#[test]
fn ownership_gate_hides_foreign_posts() {
    let owner = User::new("u1", "User One", "first");
    let stranger = User::new("u2", "User Two", "second");
    let post = Post::new("Mine", "Private body", &owner);
    let text = post.save().expect("encode");
    assert!(Post::load(Some(text.as_str()), &stranger).is_none());
    assert!(Post::load(Some(text.as_str()), &owner).is_some());
}

#[test]
fn post_load_absent_or_junk_is_none() {
    let user = sample_user();
    assert!(Post::load(None, &user).is_none());
    assert!(Post::load(Some("{\"nope\": 1}"), &user).is_none());
}

#[test]
fn post_update_rewrites_title_and_body() {
    let user = sample_user();
    let mut post = Post::new("Old", "Old body", &user);
    let text = post.update("New", "New body").expect("encode");
    assert_eq!(post.title, "New");
    assert_eq!(post.body, "New body");
    let loaded = Post::load(Some(text.as_str()), &user).expect("decode");
    assert_eq!(loaded.title, "New");
    assert_eq!(loaded.body, "New body");
    assert_eq!(loaded.uuid, post.uuid);
}

#[test]
fn comments_append_in_creation_order() {
    let user = sample_user();
    let post = Post::new("Thread", "Discuss", &user);
    let mut text = post.save().expect("encode");
    let bodies = ["first", "second", "third"];
    let mut ids: Vec<String> = Vec::new();
    for body in bodies.iter() {
        let c = Comment::new(body, &user);
        ids.push(c.comment_uuid.clone());
        text = c.save(Some(text.as_str()), &user).expect("save comment");
    }
    let loaded = Post::load(Some(text.as_str()), &user).expect("decode");
    assert_eq!(loaded.comments.len(), 3);
    for (i, body) in bodies.iter().enumerate() {
        assert_eq!(
            loaded.comments[i].get("comment_body").and_then(|b| b.as_str()),
            Some(*body),
        );
        assert_eq!(
            loaded.comments[i].get("comment_uuid").and_then(|b| b.as_str()),
            Some(ids[i].as_str()),
        );
    }
}

#[test]
fn comment_round_trip_through_post() {
    let user = sample_user();
    let post = Post::new("Thread", "Discuss", &user);
    let text = post.save().expect("encode");
    let comment = Comment::new("hello", &user);
    let text = comment.save(Some(text.as_str()), &user).expect("save comment");
    let loaded = Comment::load(Some(text.as_str()), &comment.comment_uuid, &user)
        .expect("comment found");
    assert_eq!(loaded.comment_uuid, comment.comment_uuid);
    assert_eq!(loaded.comment_body, "hello");
    assert_eq!(loaded.user_uuid, user.id);
    assert_eq!(loaded.comment_likes, 0);
    assert_eq!(loaded.comment_dislikes, 0);
}

#[test]
fn comment_save_requires_owned_post() {
    let owner = User::new("u1", "User One", "first");
    let stranger = User::new("u2", "User Two", "second");
    let post = Post::new("Mine", "Body", &owner);
    let text = post.save().expect("encode");
    let comment = Comment::new("sneaky", &stranger);
    let r = comment.save(Some(text.as_str()), &stranger);
    assert!(matches!(r, Err(StorageError::NotFound)));
    let r = comment.save(None, &owner);
    assert!(matches!(r, Err(StorageError::NotFound)));
}

#[test]
fn duplicate_entries_on_resave_and_delete_removes_all() {
    // Scenario: create user U, post P, comment C with body "hello"; save;
    // the post shows one embedded comment with body "hello". Update C to
    // "goodbye" and save again: two entries with C's id. Delete C: none left.
    let user = sample_user();
    let post = Post::new("P", "body", &user);
    let text = post.save().expect("encode");
    let mut comment = Comment::new("hello", &user);
    let text = comment.save(Some(text.as_str()), &user).expect("first save");

    let loaded = Post::load(Some(text.as_str()), &user).expect("decode");
    assert_eq!(loaded.comments.len(), 1);
    assert_eq!(
        loaded.comments[0].get("comment_body").and_then(|b| b.as_str()),
        Some("hello"),
    );

    comment.update("goodbye");
    let text = comment.save(Some(text.as_str()), &user).expect("second save");
    let loaded = Post::load(Some(text.as_str()), &user).expect("decode");
    let with_id: Vec<&str> = loaded
        .comments
        .iter()
        .filter_map(|e| e.get("comment_uuid").and_then(|u| u.as_str()))
        .filter(|u| *u == comment.comment_uuid.as_str())
        .collect();
    assert_eq!(with_id.len(), 2);
    let bodies: Vec<&str> = loaded
        .comments
        .iter()
        .filter_map(|e| e.get("comment_body").and_then(|b| b.as_str()))
        .collect();
    assert_eq!(bodies, vec!["hello", "goodbye"]);

    let text = comment.delete(Some(text.as_str()), &user).expect("delete");
    let loaded = Post::load(Some(text.as_str()), &user).expect("decode");
    assert_eq!(loaded.comments.len(), 0);
}

#[test]
fn deleting_an_absent_comment_changes_nothing() {
    let user = sample_user();
    let post = Post::new("P", "body", &user);
    let text = post.save().expect("encode");
    let saved = Comment::new("stays", &user);
    let text = saved.save(Some(text.as_str()), &user).expect("save");

    let absent = Comment::new("never saved", &user);
    let text2 = absent.delete(Some(text.as_str()), &user).expect("delete succeeds");
    assert_eq!(text, text2);
    let loaded = Post::load(Some(text2.as_str()), &user).expect("decode");
    assert_eq!(loaded.comments.len(), 1);
}

#[test]
fn comment_delete_without_post_is_not_found() {
    let user = sample_user();
    let comment = Comment::new("orphan", &user);
    let r = comment.delete(None, &user);
    assert!(matches!(r, Err(StorageError::NotFound)));
}

#[test]
fn comment_load_skips_undecodable_entries() {
    // A post document whose comments array holds a junk entry before the
    // real comment: the scan must skip the junk and find the comment.
    let user = sample_user();
    let post = Post::new("P", "body", &user);
    let text = post.save().expect("encode");
    let comment = Comment::new("real", &user);
    let text = comment.save(Some(text.as_str()), &user).expect("save");

    let mut v: serde_json::Value = serde_json::from_str(&text).expect("valid JSON");
    let arr = v.get_mut("comments").and_then(|c| c.as_array_mut()).expect("array");
    arr.insert(0, serde_json::Value::from(42u64));
    let doctored = serde_json::to_string_pretty(&v).expect("encode");

    let loaded = Comment::load(Some(doctored.as_str()), &comment.comment_uuid, &user)
        .expect("found despite junk");
    assert_eq!(loaded.comment_body, "real");

    let missing = Comment::load(Some(doctored.as_str()), "no-such-id", &user);
    assert!(missing.is_none());
}

#[test]
fn user_update_in_memory_only() {
    let user = sample_user();
    let mut comment = Comment::new("before", &user);
    comment.update("after");
    assert_eq!(comment.comment_body, "after");
}

#[test]
fn round_trip_with_text_that_needs_escaping() {
    let user = User::new("quoter", "Quote \"Fan\"", "line one\nline two\\done \u{00e9}\u{3042}");
    let text = user.save().expect("encode");
    let loaded = User::load(Some(text.as_str())).expect("decode");
    assert_eq!(loaded.bio, "line one\nline two\\done \u{00e9}\u{3042}");
    assert_eq!(loaded.display_name, "Quote \"Fan\"");

    let post = Post::new("", "", &user);
    let ptext = post.save().expect("encode");
    let ploaded = Post::load(Some(ptext.as_str()), &user).expect("decode");
    assert_eq!(ploaded.title, "");
    assert_eq!(ploaded.body, "");

    let comment = Comment::new("tab\there, quote \" and slash \\", &user);
    let ctext = comment.save(Some(ptext.as_str()), &user).expect("save");
    let cloaded = Comment::load(Some(ctext.as_str()), &comment.comment_uuid, &user)
        .expect("found");
    assert_eq!(cloaded.comment_body, "tab\there, quote \" and slash \\");
}

#[test]
fn loads_accept_compact_documents_too() {
    // The stored format is pretty-printed, but loading is defined by what the
    // text parses to: a compact rendering of the same document must load the
    // same records.
    let user = sample_user();
    let post = Post::new("Compact", "Body", &user);
    let pretty = post.save().expect("encode");
    let v: serde_json::Value = serde_json::from_str(&pretty).expect("valid JSON");
    let compact = serde_json::to_string(&v).expect("compact encode");
    assert!(!compact.contains('\n'));
    let loaded = Post::load(Some(compact.as_str()), &user).expect("decode compact");
    assert_eq!(loaded.uuid, post.uuid);
    assert_eq!(loaded.title, "Compact");

    let utext = user.save().expect("encode");
    let uv: serde_json::Value = serde_json::from_str(&utext).expect("valid JSON");
    let ucompact = serde_json::to_string(&uv).expect("compact encode");
    let uloaded = User::load(Some(ucompact.as_str())).expect("decode compact");
    assert_eq!(uloaded.id, user.id);
}
