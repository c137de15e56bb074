//! Posts: the middle layer of the content model. A post is one JSON document
//! keyed by its id, holding its owner's id, two text fields, and the embedded
//! comment entries as untyped documents in creation order. Loading a post is
//! gated on ownership: the stored owner id must equal the requesting user's
//! id, and a mismatch is indistinguishable from absence.

use vstd::prelude::*;
use crate::StorageError;
use crate::users::User;
use crate::json::{
    Json, model_of, pretty_of, parse_of, obj_pairs, obj_upsert, lookup_str, lookup_arr, arr_items,
    value_object_empty, value_string, value_array, object_insert, json_pretty, json_parse,
    get_str, value_get, clone_value, value_as_array, models_of,
};

verus! {

/// A post record: the owning user's id (the authorization key for every
/// load), two text fields, the post's own id, and the embedded comment
/// entries, untyped, in creation order.
pub struct Post {
    pub user_uuid: String,
    pub title: String,
    pub body: String,
    pub uuid: String,
    pub comments: Vec<serde_json::Value>,
}

/// A post record at the specification level: text fields as mathematical
/// text, embedded entries as the trees they denote.
pub struct PostAbs {
    pub user_uuid: Seq<char>,
    pub title: Seq<char>,
    pub body: Seq<char>,
    pub uuid: Seq<char>,
    pub comments: Seq<Json>,
}

/// The document tree a post record is stored as.
pub open spec fn post_json(a: PostAbs) -> Json {
    Json::Obj(
        seq![
            ("body"@, Json::Str(a.body)),
            ("comments"@, Json::Arr(a.comments)),
            ("title"@, Json::Str(a.title)),
            ("user_uuid"@, Json::Str(a.user_uuid)),
            ("uuid"@, Json::Str(a.uuid)),
        ],
    )
}

/// The post record a document tree decodes to, when every field is present
/// with the right shape. The entries of `comments` stay untyped: any tree is
/// accepted there.
pub open spec fn post_from_json(j: Json) -> Option<PostAbs> {
    match (
        lookup_str(j, "user_uuid"@),
        lookup_str(j, "title"@),
        lookup_str(j, "body"@),
        lookup_str(j, "uuid"@),
        lookup_arr(j, "comments"@),
    ) {
        (Some(user_uuid), Some(title), Some(body), Some(uuid), Some(comments)) => Some(
            PostAbs { user_uuid, title, body, uuid, comments },
        ),
        _ => None,
    }
}

/// What loading the document tree `j` on behalf of `requester` yields: the
/// decoded post when it decodes and is owned by `requester`, nothing
/// otherwise. Ownership gate: a mismatching owner looks exactly like absence.
pub open spec fn post_load_spec(j: Json, requester: Seq<char>) -> Option<PostAbs> {
    match post_from_json(j) {
        Some(a) => if a.user_uuid == requester {
            Some(a)
        } else {
            None
        },
        None => None,
    }
}

/// The five field names of a post document, pairwise distinct.
pub(crate) proof fn post_keys_distinct()
    ensures
        "body"@ != "comments"@,
        "body"@ != "title"@,
        "body"@ != "user_uuid"@,
        "body"@ != "uuid"@,
        "comments"@ != "title"@,
        "comments"@ != "user_uuid"@,
        "comments"@ != "uuid"@,
        "title"@ != "user_uuid"@,
        "title"@ != "uuid"@,
        "user_uuid"@ != "uuid"@,
{
    reveal_strlit("body");
    reveal_strlit("comments");
    reveal_strlit("title");
    reveal_strlit("user_uuid");
    reveal_strlit("uuid");
    assert("body"@.len() == 4);
    assert("comments"@.len() == 8);
    assert("title"@.len() == 5);
    assert("user_uuid"@.len() == 9);
    assert("uuid"@.len() == 4);
    assert("body"@[0] == 'b' && "uuid"@[0] == 'u');
}

/// Persisting then loading a post with the matching key and the correct
/// owner yields a record equal in all fields: the document written for a
/// post decodes back to exactly that post.
pub proof fn lemma_post_round_trip(a: PostAbs)
    ensures
        post_from_json(post_json(a)) == Some(a),
        post_load_spec(post_json(a), a.user_uuid) == Some(a),
{
    post_keys_distinct();
    reveal_with_fuel(crate::json::obj_lookup, 8);
}

/// The ownership gate: loading a post's document on behalf of anyone but its
/// owner yields nothing, even though the post exists.
pub proof fn lemma_ownership_gate(a: PostAbs, requester: Seq<char>)
    requires
        requester != a.user_uuid,
    ensures
        post_load_spec(post_json(a), requester) is None,
{
    lemma_post_round_trip(a);
}

/// The document tree of a post record is well-formed whenever its embedded
/// entries are well-formed at their nesting level.
pub proof fn lemma_post_json_wf(a: PostAbs)
    requires
        forall|k: int| 0 <= k < a.comments.len() ==> (#[trigger] a.comments[k]).wf_within(62),
    ensures
        post_json(a).wf(),
{
    post_keys_distinct();
    let pairs = obj_pairs(post_json(a));
    assert forall|i: int| 0 <= i < pairs.len() implies (#[trigger] pairs[i]).1.wf_within(63) by {
        if i == 1 {
            assert(pairs[1].1 == Json::Arr(a.comments));
        } else {
            assert(pairs[i].1 is Str);
        }
    }
}

impl Post {
    /// This record as its specification-level counterpart.
    pub open spec fn abs(self) -> PostAbs {
        PostAbs {
            user_uuid: self.user_uuid@,
            title: self.title@,
            body: self.body@,
            uuid: self.uuid@,
            comments: models_of(self.comments@),
        }
    }

    /// Every embedded entry denotes a well-formed tree at its nesting level
    /// inside the post document. Constructors and loads establish this; every
    /// method keeps it.
    pub open spec fn wf(self) -> bool {
        forall|k: int|
            0 <= k < self.comments@.len() ==> model_of(#[trigger] self.comments@[k]).wf_within(62)
    }

    /// A fresh in-memory post owned by `user`, with no comments; durable only
    /// once persisted.
    pub fn new(title: &str, body: &str, user: &User) -> (p: Post)
        ensures
            p.user_uuid@ == user.id@,
            p.title@ == title@,
            p.body@ == body@,
            p.comments@.len() == 0,
            p.uuid@.len() == 36,
            p.wf(),
    {
        let uuid = crate::fresh_uuid();
        Post {
            user_uuid: user.id.clone(),
            title: title.to_owned(),
            body: body.to_owned(),
            uuid,
            comments: Vec::new(),
        }
    }

    /// Encodes this record as the pretty text of its document followed by one
    /// line break; the text to write at the post's key. Encoding a post
    /// cannot fail, so the result is always the document text.
    pub fn save(&self) -> (r: Result<String, StorageError>)
        ensures
            r matches Ok(s) && (self.wf() ==> s@ == pretty_of(post_json(self.abs())).push('\n')),
    {
        let v = post_value(self);
        proof {
            if self.wf() {
                lemma_post_json_wf(self.abs());
            }
        }
        match json_pretty(&v) {
            Some(mut s) => {
                proof {
                    reveal_strlit("\n");
                    assert("\n"@.len() == 1 && "\n"@[0] == '\n');
                }
                s.append("\n");
                proof {
                    if self.wf() {
                        assert(s@ =~= pretty_of(post_json(self.abs())).push('\n'));
                    }
                }
                Ok(s)
            },
            None => Err(StorageError::SerializationError),
        }
    }

    /// Decodes the text read at a post's key on behalf of `user`: the result
    /// is a post exactly when the text parses as one JSON document that
    /// decodes as a post record whose stored owner id is `user`'s id, and
    /// then it is that record. `None` when the file was absent (`content` is
    /// `None`), the text does not parse, it does not decode as a post
    /// document, or the owner does not match. That last case is the system's
    /// only access control, and it is deliberately indistinguishable from
    /// absence.
    pub fn load(content: Option<&str>, user: &User) -> (r: Option<Post>)
        ensures
            r matches Some(p) ==> p.user_uuid@ == user.id@,
            match content {
                None => r is None,
                Some(c) => match parse_of(c@) {
                    None => r is None,
                    Some(j) => match post_load_spec(j, user.id@) {
                        Some(a) => r matches Some(p) && p.abs() == a && (j.wf() ==> p.wf()),
                        None => r is None,
                    },
                },
            },
            match content {
                None => r is None,
                Some(c) => forall|j: Json|
                    j.wf() && (c@ == #[trigger] pretty_of(j) || c@ == pretty_of(j).push('\n'))
                        ==> match post_load_spec(j, user.id@) {
                            Some(a) => r matches Some(p) && p.abs() == a && p.wf(),
                            None => r is None,
                        },
            },
    {
        let c = match content {
            None => {
                return None;
            },
            Some(c) => c,
        };
        let v = match json_parse(c) {
            None => {
                return None;
            },
            Some(v) => v,
        };
        let p = match post_of_value(&v) {
            None => {
                return None;
            },
            Some(p) => p,
        };
        if p.user_uuid == user.id {
            Some(p)
        } else {
            None
        }
    }

    /// Replaces title and body in place and re-encodes the record; the caller
    /// persists the returned text, which is always produced.
    pub fn update(&mut self, new_title: &str, new_body: &str) -> (r: Result<
        String,
        StorageError,
    >)
        ensures
            final(self).title@ == new_title@,
            final(self).body@ == new_body@,
            final(self).user_uuid@ == old(self).user_uuid@,
            final(self).uuid@ == old(self).uuid@,
            final(self).abs().comments == old(self).abs().comments,
            final(self).wf() == old(self).wf(),
            r matches Ok(s) && (final(self).wf() ==> s@ == pretty_of(
                post_json(final(self).abs()),
            ).push('\n')),
    {
        self.title = new_title.to_owned();
        self.body = new_body.to_owned();
        self.save()
    }

    /// Appends one entry to the embedded comment sequence; nothing already
    /// there moves or changes. Append-only integrity: after saving any number
    /// of comments the sequence holds exactly those entries, in creation
    /// order.
    pub(crate) fn push_comment(&mut self, v: serde_json::Value)
        ensures
            final(self).abs().comments == old(self).abs().comments.push(model_of(v)),
            final(self).user_uuid@ == old(self).user_uuid@,
            final(self).title@ == old(self).title@,
            final(self).body@ == old(self).body@,
            final(self).uuid@ == old(self).uuid@,
            old(self).wf() && model_of(v).wf_within(62) ==> final(self).wf(),
    {
        self.comments.push(v);
        proof {
            assert(final(self).abs().comments =~= old(self).abs().comments.push(model_of(v)));
        }
    }
}

/// Builds the JSON value of a post record, field by field; the embedded
/// entries are cloned into the document's array.
fn post_value(p: &Post) -> (v: serde_json::Value)
    ensures
        model_of(v) == post_json(p.abs()),
{
    let mut v = value_object_empty();
    let body_v = value_string(p.body.as_str());
    object_insert(&mut v, "body", body_v);
    let comments_v = comment_entries_value(&p.comments);
    object_insert(&mut v, "comments", comments_v);
    let title_v = value_string(p.title.as_str());
    object_insert(&mut v, "title", title_v);
    let owner_v = value_string(p.user_uuid.as_str());
    object_insert(&mut v, "user_uuid", owner_v);
    let uuid_v = value_string(p.uuid.as_str());
    object_insert(&mut v, "uuid", uuid_v);
    proof {
        post_keys_distinct();
        reveal_with_fuel(obj_upsert, 8);
        assert(obj_pairs(model_of(v)) =~= obj_pairs(post_json(p.abs())));
    }
    v
}

/// Clones a list of untyped entries into a JSON array value denoting the
/// same trees.
fn comment_entries_value(entries: &Vec<serde_json::Value>) -> (v: serde_json::Value)
    ensures
        model_of(v) == Json::Arr(models_of(entries@)),
{
    let mut items: Vec<serde_json::Value> = Vec::new();
    let mut i: usize = 0;
    while i < entries.len()
        invariant
            i <= entries@.len(),
            items@.len() == i,
            forall|k: int|
                0 <= k < i ==> model_of(#[trigger] items@[k]) == model_of(entries@[k]),
        decreases entries@.len() - i,
    {
        items.push(clone_value(&entries[i]));
        i = i + 1;
    }
    proof {
        assert(models_of(items@) =~= models_of(entries@));
    }
    value_array(items)
}

/// Reads a post record back out of a JSON value; `None` when some field is
/// missing or of the wrong shape. The entries of the comments array are
/// cloned out untyped.
fn post_of_value(v: &serde_json::Value) -> (r: Option<Post>)
    ensures
        match r {
            Some(p) => post_from_json(model_of(*v)) == Some(p.abs()) && (model_of(*v).wf()
                ==> p.wf()),
            None => post_from_json(model_of(*v)) is None,
        },
{
    let user_uuid = match get_str(v, "user_uuid") {
        None => {
            return None;
        },
        Some(s) => s,
    };
    let title = match get_str(v, "title") {
        None => {
            return None;
        },
        Some(s) => s,
    };
    let body = match get_str(v, "body") {
        None => {
            return None;
        },
        Some(s) => s,
    };
    let uuid = match get_str(v, "uuid") {
        None => {
            return None;
        },
        Some(s) => s,
    };
    let entries = match value_get(v, "comments") {
        None => {
            return None;
        },
        Some(w) => w,
    };
    let items = match value_as_array(entries) {
        None => {
            return None;
        },
        Some(items) => items,
    };
    let ghost ms = arr_items(model_of(*entries));
    let mut comments: Vec<serde_json::Value> = Vec::new();
    let mut i: usize = 0;
    while i < items.len()
        invariant
            i <= items@.len(),
            ms == models_of(items@),
            comments@.len() == i,
            forall|k: int|
                0 <= k < i ==> model_of(#[trigger] comments@[k]) == model_of(items@[k]),
        decreases items@.len() - i,
    {
        comments.push(clone_value(&items[i]));
        i = i + 1;
    }
    proof {
        assert(models_of(comments@) =~= ms);
        assert(model_of(*entries) == Json::Arr(ms));
        assert(lookup_arr(model_of(*v), "comments"@) == Some(ms));
        if model_of(*v).wf() {
            lemma_lookup_wf(model_of(*v), "comments"@, 64);
            assert(Json::Arr(ms).wf_within(63));
            assert forall|k: int|
                0 <= k < comments@.len() implies model_of(#[trigger] comments@[k]).wf_within(
                62,
            ) by {
                assert(model_of(comments@[k]) == models_of(comments@)[k]);
                assert(ms[k].wf_within(62));
            }
        }
    }
    Some(Post { user_uuid, title, body, uuid, comments })
}

/// In an object tree well-formed within some depth, any field looked up is
/// well-formed within one level less.
proof fn lemma_lookup_wf(j: Json, key: Seq<char>, depth: nat)
    requires
        j.wf_within(depth),
    ensures
        match crate::json::obj_lookup(obj_pairs(j), key) {
            Some(w) => w.wf_within((depth - 1) as nat),
            None => true,
        },
{
    if j is Obj {
        lemma_lookup_wf_pairs(obj_pairs(j), key, (depth - 1) as nat);
    }
}

/// Looking a key up among pairs of values well-formed within a depth yields a
/// value well-formed within that depth.
proof fn lemma_lookup_wf_pairs(pairs: Seq<(Seq<char>, Json)>, key: Seq<char>, depth: nat)
    requires
        forall|i: int| 0 <= i < pairs.len() ==> (#[trigger] pairs[i]).1.wf_within(depth),
    ensures
        match crate::json::obj_lookup(pairs, key) {
            Some(w) => w.wf_within(depth),
            None => true,
        },
    decreases pairs.len(),
{
    if pairs.len() > 0 && pairs[0].0 != key {
        lemma_lookup_wf_pairs(pairs.drop_first(), key, depth);
    }
}

} // verus!
