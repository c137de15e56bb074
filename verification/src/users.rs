//! Users: leaf records of the content model. A user is one JSON document
//! keyed by its id; creating a post or a comment appends the new id to the
//! matching list and re-encodes the whole record.

use vstd::prelude::*;
use crate::StorageError;
use crate::json::{
    Json, model_of, pretty_of, parse_of, obj_pairs, obj_upsert, lookup_str, lookup_str_list, str_list_json,
    value_object_empty, value_string, string_list_value, object_insert, json_pretty, json_parse,
    get_str, value_get, string_list_of_value,
};

verus! {

/// A user record: an opaque id that is also its storage key, three text
/// fields, and append-only lists of the ids of the posts and comments this
/// user created.
pub struct User {
    pub id: String,
    pub username: String,
    pub display_name: String,
    pub bio: String,
    pub posts: Vec<String>,
    pub comments: Vec<String>,
}

/// A user record at the specification level: every field as mathematical
/// text.
pub struct UserAbs {
    pub id: Seq<char>,
    pub username: Seq<char>,
    pub display_name: Seq<char>,
    pub bio: Seq<char>,
    pub posts: Seq<Seq<char>>,
    pub comments: Seq<Seq<char>>,
}

/// The document tree a user record is stored as.
pub open spec fn user_json(a: UserAbs) -> Json {
    Json::Obj(
        seq![
            ("bio"@, Json::Str(a.bio)),
            ("comments"@, Json::Arr(str_list_json(a.comments))),
            ("display_name"@, Json::Str(a.display_name)),
            ("id"@, Json::Str(a.id)),
            ("posts"@, Json::Arr(str_list_json(a.posts))),
            ("username"@, Json::Str(a.username)),
        ],
    )
}

/// The user record a document tree decodes to, when every field is present
/// with the right shape.
pub open spec fn user_from_json(j: Json) -> Option<UserAbs> {
    match (
        lookup_str(j, "id"@),
        lookup_str(j, "username"@),
        lookup_str(j, "display_name"@),
        lookup_str(j, "bio"@),
        lookup_str_list(j, "posts"@),
        lookup_str_list(j, "comments"@),
    ) {
        (
            Some(id),
            Some(username),
            Some(display_name),
            Some(bio),
            Some(posts),
            Some(comments),
        ) => Some(UserAbs { id, username, display_name, bio, posts, comments }),
        _ => None,
    }
}

/// The six field names of a user document, pairwise distinct.
proof fn user_keys_distinct()
    ensures
        "bio"@ != "comments"@,
        "bio"@ != "display_name"@,
        "bio"@ != "id"@,
        "bio"@ != "posts"@,
        "bio"@ != "username"@,
        "comments"@ != "display_name"@,
        "comments"@ != "id"@,
        "comments"@ != "posts"@,
        "comments"@ != "username"@,
        "display_name"@ != "id"@,
        "display_name"@ != "posts"@,
        "display_name"@ != "username"@,
        "id"@ != "posts"@,
        "id"@ != "username"@,
        "posts"@ != "username"@,
{
    reveal_strlit("bio");
    reveal_strlit("comments");
    reveal_strlit("display_name");
    reveal_strlit("id");
    reveal_strlit("posts");
    reveal_strlit("username");
    assert("bio"@.len() == 3);
    assert("comments"@.len() == 8);
    assert("display_name"@.len() == 12);
    assert("id"@.len() == 2);
    assert("posts"@.len() == 5);
    assert("username"@.len() == 8);
    assert("comments"@[0] == 'c' && "username"@[0] == 'u');
}

/// Persisting then loading a user yields a record equal in all fields: the
/// document written for a user decodes back to exactly that user.
pub proof fn lemma_user_round_trip(a: UserAbs)
    ensures
        user_from_json(user_json(a)) == Some(a),
{
    user_keys_distinct();
    reveal_with_fuel(crate::json::obj_lookup, 8);
    lemma_str_list_round_trip(a.posts);
    lemma_str_list_round_trip(a.comments);
}

/// A list of texts encoded as string trees decodes back to exactly that
/// list.
pub proof fn lemma_str_list_round_trip(ss: Seq<Seq<char>>)
    ensures
        crate::json::str_list_from_json(str_list_json(ss)) == Some(ss),
{
    let items = str_list_json(ss);
    assert(forall|i: int| 0 <= i < items.len() ==> (#[trigger] items[i]) is Str);
    assert(items.map_values(|x: Json| crate::json::str_of(x)) =~= ss);
}

/// An array of string trees is well-formed within any positive depth.
pub proof fn lemma_str_list_wf(ss: Seq<Seq<char>>, depth: nat)
    requires
        depth >= 1,
    ensures
        Json::Arr(str_list_json(ss)).wf_within(depth),
{
    let items = str_list_json(ss);
    assert forall|k: int|
        0 <= k < items.len() implies (#[trigger] items[k]).wf_within((depth - 1) as nat) by {
        assert(items[k] == Json::Str(ss[k]));
    }
}

/// The document tree of any user record is well-formed.
pub proof fn lemma_user_json_wf(a: UserAbs)
    ensures
        user_json(a).wf(),
{
    user_keys_distinct();
    lemma_str_list_wf(a.posts, 63);
    lemma_str_list_wf(a.comments, 63);
    let pairs = obj_pairs(user_json(a));
    assert forall|i: int| 0 <= i < pairs.len() implies (#[trigger] pairs[i]).1.wf_within(63) by {
        if i == 1 {
            assert(pairs[1].1 == Json::Arr(str_list_json(a.comments)));
        } else if i == 4 {
            assert(pairs[4].1 == Json::Arr(str_list_json(a.posts)));
        } else {
            assert(pairs[i].1 is Str);
        }
    }
}

impl User {
    /// This record as its specification-level counterpart.
    pub open spec fn abs(self) -> UserAbs {
        UserAbs {
            id: self.id@,
            username: self.username@,
            display_name: self.display_name@,
            bio: self.bio@,
            posts: self.posts@.map_values(|s: String| s@),
            comments: self.comments@.map_values(|s: String| s@),
        }
    }

    /// A fresh in-memory user with empty id lists; durable only once
    /// persisted.
    pub fn new(username: &str, display_name: &str, bio: &str) -> (u: User)
        ensures
            u.username@ == username@,
            u.display_name@ == display_name@,
            u.bio@ == bio@,
            u.posts@.len() == 0,
            u.comments@.len() == 0,
            u.id@.len() == 36,
    {
        let id = crate::fresh_uuid();
        User {
            id,
            username: username.to_owned(),
            display_name: display_name.to_owned(),
            bio: bio.to_owned(),
            posts: Vec::new(),
            comments: Vec::new(),
        }
    }

    /// Encodes this record as the pretty text of its document; the text to
    /// write at the user's key. Encoding a user record cannot fail, so the
    /// result is always the document text.
    pub fn save(&self) -> (r: Result<String, StorageError>)
        ensures
            r matches Ok(s) && s@ == pretty_of(user_json(self.abs())),
    {
        let v = user_value(self);
        proof {
            lemma_user_json_wf(self.abs());
        }
        match json_pretty(&v) {
            Some(s) => Ok(s),
            None => Err(StorageError::SerializationError),
        }
    }

    /// Decodes the text read at a user's key: the result is a user exactly
    /// when the text parses as one JSON document that decodes as a user
    /// record, and then it is that record. `None` when the file was absent
    /// (`content` is `None`), the text does not parse, or it does not decode
    /// as a user document.
    pub fn load(content: Option<&str>) -> (r: Option<User>)
        ensures
            match content {
                None => r is None,
                Some(c) => match parse_of(c@) {
                    None => r is None,
                    Some(j) => match user_from_json(j) {
                        Some(a) => r matches Some(u) && u.abs() == a,
                        None => r is None,
                    },
                },
            },
            match content {
                None => r is None,
                Some(c) => forall|j: Json|
                    j.wf() && (c@ == #[trigger] pretty_of(j) || c@ == pretty_of(j).push('\n'))
                        ==> match user_from_json(j) {
                            Some(a) => r matches Some(u) && u.abs() == a,
                            None => r is None,
                        },
            },
    {
        let c = match content {
            None => {
                return None;
            },
            Some(c) => c,
        };
        match json_parse(c) {
            None => None,
            Some(v) => user_of_value(&v),
        }
    }

    /// Appends a post id to this user's list and re-encodes the record; the
    /// caller persists the returned text, which is always produced.
    pub fn create_post(&mut self, post_uuid: &str) -> (r: Result<String, StorageError>)
        ensures
            final(self).abs().posts == old(self).abs().posts.push(post_uuid@),
            final(self).abs().comments == old(self).abs().comments,
            final(self).id@ == old(self).id@,
            final(self).username@ == old(self).username@,
            final(self).display_name@ == old(self).display_name@,
            final(self).bio@ == old(self).bio@,
            r matches Ok(s) && s@ == pretty_of(user_json(final(self).abs())),
    {
        self.posts.push(post_uuid.to_owned());
        proof {
            assert(self.abs().posts =~= old(self).abs().posts.push(post_uuid@));
            assert(self.abs().comments =~= old(self).abs().comments);
        }
        self.save()
    }

    /// Appends a comment id to this user's list and re-encodes the record;
    /// the caller persists the returned text, which is always produced.
    pub fn create_comment(&mut self, comment_uuid: &str) -> (r: Result<String, StorageError>)
        ensures
            final(self).abs().comments == old(self).abs().comments.push(comment_uuid@),
            final(self).abs().posts == old(self).abs().posts,
            final(self).id@ == old(self).id@,
            final(self).username@ == old(self).username@,
            final(self).display_name@ == old(self).display_name@,
            final(self).bio@ == old(self).bio@,
            r matches Ok(s) && s@ == pretty_of(user_json(final(self).abs())),
    {
        self.comments.push(comment_uuid.to_owned());
        proof {
            assert(self.abs().comments =~= old(self).abs().comments.push(comment_uuid@));
            assert(self.abs().posts =~= old(self).abs().posts);
        }
        self.save()
    }
}

/// Builds the JSON value of a user record, field by field.
fn user_value(u: &User) -> (v: serde_json::Value)
    ensures
        model_of(v) == user_json(u.abs()),
{
    let mut v = value_object_empty();
    let bio_v = value_string(u.bio.as_str());
    object_insert(&mut v, "bio", bio_v);
    let comments_v = string_list_value(&u.comments);
    object_insert(&mut v, "comments", comments_v);
    let display_v = value_string(u.display_name.as_str());
    object_insert(&mut v, "display_name", display_v);
    let id_v = value_string(u.id.as_str());
    object_insert(&mut v, "id", id_v);
    let posts_v = string_list_value(&u.posts);
    object_insert(&mut v, "posts", posts_v);
    let username_v = value_string(u.username.as_str());
    object_insert(&mut v, "username", username_v);
    proof {
        user_keys_distinct();
        reveal_with_fuel(obj_upsert, 8);
        assert(obj_pairs(model_of(v)) =~= obj_pairs(user_json(u.abs())));
    }
    v
}

/// Reads a user record back out of a JSON value; `None` when some field is
/// missing or of the wrong shape.
fn user_of_value(v: &serde_json::Value) -> (r: Option<User>)
    ensures
        match r {
            Some(u) => user_from_json(model_of(*v)) == Some(u.abs()),
            None => user_from_json(model_of(*v)) is None,
        },
{
    let id = match get_str(v, "id") {
        None => {
            return None;
        },
        Some(s) => s,
    };
    let username = match get_str(v, "username") {
        None => {
            return None;
        },
        Some(s) => s,
    };
    let display_name = match get_str(v, "display_name") {
        None => {
            return None;
        },
        Some(s) => s,
    };
    let bio = match get_str(v, "bio") {
        None => {
            return None;
        },
        Some(s) => s,
    };
    let posts = match get_str_list(v, "posts") {
        None => {
            return None;
        },
        Some(xs) => xs,
    };
    let comments = match get_str_list(v, "comments") {
        None => {
            return None;
        },
        Some(xs) => xs,
    };
    Some(User { id, username, display_name, bio, posts, comments })
}

/// The list-of-strings field at `key` of the object `v` denotes, owned.
fn get_str_list(v: &serde_json::Value, key: &str) -> (r: Option<Vec<String>>)
    ensures
        match r {
            Some(xs) => lookup_str_list(model_of(*v), key@) == Some(
                xs@.map_values(|s: String| s@),
            ),
            None => lookup_str_list(model_of(*v), key@) is None,
        },
{
    match value_get(v, key) {
        None => None,
        Some(w) => string_list_of_value(w),
    }
}

} // verus!
