//! Comments: the leaves of the content model. A comment has no storage of
//! its own: saving one loads the parent post (through its ownership gate),
//! appends the comment as an untyped entry to the post's embedded sequence,
//! and re-encodes the whole post. Loading scans that sequence for the first
//! decodable entry with the wanted id; deleting removes every entry with the
//! comment's id.

use vstd::prelude::*;
use crate::StorageError;
use crate::users::User;
use crate::posts::{Post, PostAbs, post_load_spec, post_json};
use crate::json::{
    Json, model_of, pretty_of, parse_of, obj_pairs, obj_upsert, lookup_str, lookup_u64,
    value_object_empty, value_string, value_u64, object_insert, get_str, get_u64, clone_value,
};

verus! {

/// A comment record: its author's id, its text, its own id (unique within
/// the parent post's sequence), and two counters that start at zero.
pub struct Comment {
    pub user_uuid: String,
    pub comment_body: String,
    pub comment_uuid: String,
    pub comment_likes: u64,
    pub comment_dislikes: u64,
}

/// A comment record at the specification level.
pub struct CommentAbs {
    pub user_uuid: Seq<char>,
    pub comment_body: Seq<char>,
    pub comment_uuid: Seq<char>,
    pub comment_likes: u64,
    pub comment_dislikes: u64,
}

/// The document tree a comment is embedded as.
pub open spec fn comment_json(a: CommentAbs) -> Json {
    Json::Obj(
        seq![
            ("comment_body"@, Json::Str(a.comment_body)),
            ("comment_dislikes"@, Json::Int(a.comment_dislikes)),
            ("comment_likes"@, Json::Int(a.comment_likes)),
            ("comment_uuid"@, Json::Str(a.comment_uuid)),
            ("user_uuid"@, Json::Str(a.user_uuid)),
        ],
    )
}

/// The comment a document tree decodes to, when every field is present with
/// the right shape.
pub open spec fn comment_from_json(j: Json) -> Option<CommentAbs> {
    match (
        lookup_str(j, "user_uuid"@),
        lookup_str(j, "comment_body"@),
        lookup_str(j, "comment_uuid"@),
        lookup_u64(j, "comment_likes"@),
        lookup_u64(j, "comment_dislikes"@),
    ) {
        (
            Some(user_uuid),
            Some(comment_body),
            Some(comment_uuid),
            Some(comment_likes),
            Some(comment_dislikes),
        ) => Some(
            CommentAbs { user_uuid, comment_body, comment_uuid, comment_likes, comment_dislikes },
        ),
        _ => None,
    }
}

/// Whether an embedded entry decodes as a comment carrying the id `id`.
pub open spec fn entry_has_id(e: Json, id: Seq<char>) -> bool {
    match comment_from_json(e) {
        Some(c) => c.comment_uuid == id,
        None => false,
    }
}

/// The first entry of `entries` that decodes as a comment with id `id`;
/// entries that do not decode as comments are silently skipped.
pub open spec fn find_comment(entries: Seq<Json>, id: Seq<char>) -> Option<CommentAbs>
    decreases entries.len(),
{
    if entries.len() == 0 {
        None
    } else if entry_has_id(entries[0], id) {
        comment_from_json(entries[0])
    } else {
        find_comment(entries.drop_first(), id)
    }
}

/// `entries` with every entry whose id is `id` removed; everything else,
/// including entries that do not decode as comments, stays, in order.
pub open spec fn strip_comments(entries: Seq<Json>, id: Seq<char>) -> Seq<Json>
    decreases entries.len(),
{
    if entries.len() == 0 {
        Seq::empty()
    } else if entry_has_id(entries[0], id) {
        strip_comments(entries.drop_first(), id)
    } else {
        seq![entries[0]] + strip_comments(entries.drop_first(), id)
    }
}

/// How many entries of `entries` decode as comments with id `id`.
pub open spec fn count_with_id(entries: Seq<Json>, id: Seq<char>) -> nat
    decreases entries.len(),
{
    if entries.len() == 0 {
        0
    } else {
        (if entry_has_id(entries[0], id) {
            1nat
        } else {
            0nat
        }) + count_with_id(entries.drop_first(), id)
    }
}

/// The five field names of a comment document, pairwise distinct.
pub(crate) proof fn comment_keys_distinct()
    ensures
        "comment_body"@ != "comment_dislikes"@,
        "comment_body"@ != "comment_likes"@,
        "comment_body"@ != "comment_uuid"@,
        "comment_body"@ != "user_uuid"@,
        "comment_dislikes"@ != "comment_likes"@,
        "comment_dislikes"@ != "comment_uuid"@,
        "comment_dislikes"@ != "user_uuid"@,
        "comment_likes"@ != "comment_uuid"@,
        "comment_likes"@ != "user_uuid"@,
        "comment_uuid"@ != "user_uuid"@,
{
    reveal_strlit("comment_body");
    reveal_strlit("comment_dislikes");
    reveal_strlit("comment_likes");
    reveal_strlit("comment_uuid");
    reveal_strlit("user_uuid");
    assert("comment_body"@.len() == 12);
    assert("comment_dislikes"@.len() == 16);
    assert("comment_likes"@.len() == 13);
    assert("comment_uuid"@.len() == 12);
    assert("user_uuid"@.len() == 9);
    assert("comment_body"@[8] == 'b' && "comment_uuid"@[8] == 'u');
}

/// A comment embedded in a post decodes back to exactly itself; in
/// particular an embedded entry carries its comment's id.
pub proof fn lemma_comment_round_trip(a: CommentAbs)
    ensures
        comment_from_json(comment_json(a)) == Some(a),
        entry_has_id(comment_json(a), a.comment_uuid),
{
    comment_keys_distinct();
    reveal_with_fuel(crate::json::obj_lookup, 8);
}

/// The document tree of any comment is well-formed, already within the depth
/// it occupies when embedded in a post document.
pub proof fn lemma_comment_json_wf(a: CommentAbs)
    ensures
        comment_json(a).wf_within(1),
        comment_json(a).wf(),
{
    comment_keys_distinct();
    let pairs = obj_pairs(comment_json(a));
    assert forall|i: int| 0 <= i < pairs.len() implies (#[trigger] pairs[i]).1.wf_within(0) by {
        assert(pairs[i].1 is Str || pairs[i].1 is Int);
    }
    crate::json::lemma_wf_within_widens(comment_json(a), 1, 64);
}

/// Appending an entry leaves the count of every id as it was, plus one when
/// the new entry carries that id.
proof fn lemma_count_push(entries: Seq<Json>, e: Json, id: Seq<char>)
    ensures
        count_with_id(entries.push(e), id) == count_with_id(entries, id) + (
        if entry_has_id(e, id) {
            1nat
        } else {
            0nat
        }),
    decreases entries.len(),
{
    if entries.len() == 0 {
        assert(entries.push(e)[0] == e);
        assert(entries.push(e).drop_first() =~= Seq::<Json>::empty());
        assert(count_with_id(Seq::<Json>::empty(), id) == 0);
    } else {
        assert(entries.push(e)[0] == entries[0]);
        assert(entries.push(e).drop_first() =~= entries.drop_first().push(e));
        lemma_count_push(entries.drop_first(), e, id);
    }
}

/// Duplicate on re-save: appending two comment entries that carry the same
/// id leaves two more entries with that id in the sequence.
pub proof fn lemma_resave_duplicates(entries: Seq<Json>, c1: CommentAbs, c2: CommentAbs)
    requires
        c1.comment_uuid == c2.comment_uuid,
    ensures
        count_with_id(entries.push(comment_json(c1)).push(comment_json(c2)), c1.comment_uuid)
            == count_with_id(entries, c1.comment_uuid) + 2,
{
    lemma_comment_round_trip(c1);
    lemma_comment_round_trip(c2);
    lemma_count_push(entries, comment_json(c1), c1.comment_uuid);
    lemma_count_push(entries.push(comment_json(c1)), comment_json(c2), c1.comment_uuid);
}

/// The embedded sequence that saving the comments `cs` into a post with no
/// prior comments produces: each save appends one entry at the end.
pub open spec fn embed_saves(cs: Seq<CommentAbs>) -> Seq<Json>
    decreases cs.len(),
{
    if cs.len() == 0 {
        Seq::empty()
    } else {
        embed_saves(cs.drop_last()).push(comment_json(cs.last()))
    }
}

/// Append-only integrity: after saving any number of comments against the
/// same post, the embedded sequence has exactly that many entries, and the
/// entry at each position decodes back to the comment saved at that turn:
/// creation order is preserved.
pub proof fn lemma_append_only_integrity(cs: Seq<CommentAbs>)
    ensures
        embed_saves(cs).len() == cs.len(),
        forall|i: int|
            0 <= i < cs.len() ==> comment_from_json(#[trigger] embed_saves(cs)[i]) == Some(cs[i]),
    decreases cs.len(),
{
    if cs.len() > 0 {
        lemma_append_only_integrity(cs.drop_last());
        lemma_comment_round_trip(cs.last());
        assert forall|i: int|
            0 <= i < cs.len() implies comment_from_json(#[trigger] embed_saves(cs)[i]) == Some(
            cs[i],
        ) by {
            if i < cs.len() - 1 {
                assert(embed_saves(cs)[i] == embed_saves(cs.drop_last())[i]);
                assert(cs.drop_last()[i] == cs[i]);
            } else {
                assert(embed_saves(cs)[i] == comment_json(cs.last()));
            }
        }
    }
}

/// Idempotent delete: removing an id that no entry carries changes nothing.
pub proof fn lemma_delete_absent(entries: Seq<Json>, id: Seq<char>)
    requires
        count_with_id(entries, id) == 0,
    ensures
        strip_comments(entries, id) == entries,
    decreases entries.len(),
{
    if entries.len() > 0 {
        lemma_delete_absent(entries.drop_first(), id);
        assert(seq![entries[0]] + entries.drop_first() =~= entries);
    }
}

/// Delete removes every entry with the id: none is left afterwards.
pub proof fn lemma_delete_removes_all(entries: Seq<Json>, id: Seq<char>)
    ensures
        count_with_id(strip_comments(entries, id), id) == 0,
    decreases entries.len(),
{
    if entries.len() > 0 {
        lemma_delete_removes_all(entries.drop_first(), id);
        if !entry_has_id(entries[0], id) {
            let rest = strip_comments(entries.drop_first(), id);
            assert((seq![entries[0]] + rest).drop_first() =~= rest);
        }
    }
}

impl Comment {
    /// This record as its specification-level counterpart.
    pub open spec fn abs(self) -> CommentAbs {
        CommentAbs {
            user_uuid: self.user_uuid@,
            comment_body: self.comment_body@,
            comment_uuid: self.comment_uuid@,
            comment_likes: self.comment_likes,
            comment_dislikes: self.comment_dislikes,
        }
    }

    /// A fresh in-memory comment by `user`, counters at zero; it becomes
    /// durable only by being saved into a post.
    pub fn new(comment_body: &str, user: &User) -> (c: Comment)
        ensures
            c.user_uuid@ == user.id@,
            c.comment_body@ == comment_body@,
            c.comment_likes == 0,
            c.comment_dislikes == 0,
            c.comment_uuid@.len() == 36,
    {
        let comment_uuid = crate::fresh_uuid();
        Comment {
            user_uuid: user.id.clone(),
            comment_body: comment_body.to_owned(),
            comment_uuid,
            comment_likes: 0,
            comment_dislikes: 0,
        }
    }

    /// Replaces the body in place only; nothing is persisted until the
    /// comment is saved again.
    pub fn update(&mut self, new_body: &str)
        ensures
            final(self).comment_body@ == new_body@,
            final(self).user_uuid@ == old(self).user_uuid@,
            final(self).comment_uuid@ == old(self).comment_uuid@,
            final(self).comment_likes == old(self).comment_likes,
            final(self).comment_dislikes == old(self).comment_dislikes,
    {
        self.comment_body = new_body.to_owned();
    }

    /// Saves this comment into the post whose document text is
    /// `post_content`, on behalf of `user`: the post is decoded through its
    /// ownership gate, the comment is appended at the end of the embedded
    /// sequence, and the re-encoded post text is returned for the caller to
    /// persist. Appending never replaces: saving the same comment id twice
    /// without an intervening delete leaves two entries with that id. The
    /// gated load is the only way this fails: re-encoding the post cannot.
    pub fn save(&self, post_content: Option<&str>, user: &User) -> (r: Result<
        String,
        StorageError,
    >)
        ensures
            r is Err ==> r == Err::<String, StorageError>(StorageError::NotFound),
            match post_content {
                None => r == Err::<String, StorageError>(StorageError::NotFound),
                Some(ct) => match parse_of(ct@) {
                    None => r == Err::<String, StorageError>(StorageError::NotFound),
                    Some(j) => match post_load_spec(j, user.id@) {
                        None => r == Err::<String, StorageError>(StorageError::NotFound),
                        Some(a) => r matches Ok(s) && (j.wf() ==> s@ == pretty_of(
                            post_json(
                                PostAbs {
                                    comments: a.comments.push(comment_json(self.abs())),
                                    ..a
                                },
                            ),
                        ).push('\n')),
                    },
                },
            },
            match post_content {
                None => r == Err::<String, StorageError>(StorageError::NotFound),
                Some(ct) => forall|j: Json|
                    j.wf() && (ct@ == #[trigger] pretty_of(j) || ct@ == pretty_of(j).push('\n'))
                        ==> match post_load_spec(j, user.id@) {
                            None => r == Err::<String, StorageError>(StorageError::NotFound),
                            Some(a) => r matches Ok(s) && s@ == pretty_of(
                                post_json(
                                    PostAbs {
                                        comments: a.comments.push(comment_json(self.abs())),
                                        ..a
                                    },
                                ),
                            ).push('\n'),
                        },
            },
    {
        let mut p = match Post::load(post_content, user) {
            None => {
                return Err(StorageError::NotFound);
            },
            Some(p) => p,
        };
        proof {
            match post_content {
                Some(ct) => {
                    assert forall|j: Json|
                        j.wf() && (ct@ == #[trigger] pretty_of(j) || ct@ == pretty_of(j).push(
                            '\n',
                        )) implies post_load_spec(j, user.id@) == Some(p.abs()) && p.wf() by {}
                },
                None => {},
            }
        }
        let cv = comment_value(self);
        proof {
            lemma_comment_json_wf(self.abs());
            crate::json::lemma_wf_within_widens(comment_json(self.abs()), 1, 62);
        }
        p.push_comment(cv);
        p.save()
    }

    /// Looks this comment's post up and scans the embedded sequence for the
    /// first decodable entry with id `comment_uuid`; entries that do not
    /// decode as comments are silently skipped. `None` when the post is
    /// absent or not owned by `user`, or no entry matches.
    #[verifier::loop_isolation(false)]
    pub fn load(post_content: Option<&str>, comment_uuid: &str, user: &User) -> (r: Option<
        Comment,
    >)
        ensures
            r matches Some(c) ==> c.comment_uuid@ == comment_uuid@,
            match post_content {
                None => r is None,
                Some(ct) => match parse_of(ct@) {
                    None => r is None,
                    Some(j) => match post_load_spec(j, user.id@) {
                        None => r is None,
                        Some(a) => match find_comment(a.comments, comment_uuid@) {
                            Some(ca) => r matches Some(c) && c.abs() == ca,
                            None => r is None,
                        },
                    },
                },
            },
            match post_content {
                None => r is None,
                Some(ct) => forall|j: Json|
                    j.wf() && (ct@ == #[trigger] pretty_of(j) || ct@ == pretty_of(j).push('\n'))
                        ==> match post_load_spec(j, user.id@) {
                            None => r is None,
                            Some(a) => match find_comment(a.comments, comment_uuid@) {
                                Some(ca) => r matches Some(c) && c.abs() == ca,
                                None => r is None,
                            },
                        },
            },
    {
        let p = match Post::load(post_content, user) {
            None => {
                return None;
            },
            Some(p) => p,
        };
        proof {
            match post_content {
                Some(ct) => {
                    assert forall|j: Json|
                        j.wf() && (ct@ == #[trigger] pretty_of(j) || ct@ == pretty_of(j).push(
                            '\n',
                        )) implies post_load_spec(j, user.id@) == Some(p.abs()) && p.wf() by {}
                },
                None => {},
            }
        }
        let ghost ms = crate::json::models_of(p.comments@);
        proof {
            assert(ms.skip(0) =~= ms);
        }
        let target: String = comment_uuid.to_owned();
        let mut i: usize = 0;
        while i < p.comments.len()
            invariant
                i <= p.comments@.len(),
                ms == crate::json::models_of(p.comments@),
                target@ == comment_uuid@,
                find_comment(ms, comment_uuid@) == find_comment(ms.skip(i as int), comment_uuid@),
            decreases p.comments@.len() - i,
        {
            proof {
                assert(ms.skip(i as int).len() > 0);
                assert(ms.skip(i as int)[0] == ms[i as int]);
                assert(ms.skip(i as int).drop_first() =~= ms.skip(i as int + 1));
                assert(model_of(p.comments@[i as int]) == ms[i as int]);
            }
            match comment_of_value(&p.comments[i]) {
                Some(c) => {
                    if c.comment_uuid == target {
                        proof {
                            assert(entry_has_id(ms[i as int], comment_uuid@));
                            assert(find_comment(ms.skip(i as int), comment_uuid@) == Some(
                                c.abs(),
                            ));
                        }
                        return Some(c);
                    }
                },
                None => {},
            }
            i = i + 1;
        }
        proof {
            assert(ms.skip(ms.len() as int) =~= Seq::<Json>::empty());
        }
        None
    }

    /// Deletes this comment from the post whose document text is
    /// `post_content`, on behalf of `user`: every embedded entry with this
    /// comment's id is removed, and the re-encoded post text is returned for
    /// the caller to persist. Deleting an id that no entry carries succeeds
    /// and leaves the sequence unchanged; an absent or foreign post is
    /// `NotFound`, which callers should treat as fatal: with no parent post
    /// there is nothing to remove the comment from.
    pub fn delete(&self, post_content: Option<&str>, user: &User) -> (r: Result<
        String,
        StorageError,
    >)
        ensures
            r is Err ==> r == Err::<String, StorageError>(StorageError::NotFound),
            match post_content {
                None => r == Err::<String, StorageError>(StorageError::NotFound),
                Some(ct) => match parse_of(ct@) {
                    None => r == Err::<String, StorageError>(StorageError::NotFound),
                    Some(j) => match post_load_spec(j, user.id@) {
                        None => r == Err::<String, StorageError>(StorageError::NotFound),
                        Some(a) => r matches Ok(s) && (j.wf() ==> s@ == pretty_of(
                            post_json(
                                PostAbs {
                                    comments: strip_comments(a.comments, self.comment_uuid@),
                                    ..a
                                },
                            ),
                        ).push('\n')),
                    },
                },
            },
            match post_content {
                None => r == Err::<String, StorageError>(StorageError::NotFound),
                Some(ct) => forall|j: Json|
                    j.wf() && (ct@ == #[trigger] pretty_of(j) || ct@ == pretty_of(j).push('\n'))
                        ==> match post_load_spec(j, user.id@) {
                            None => r == Err::<String, StorageError>(StorageError::NotFound),
                            Some(a) => r matches Ok(s) && s@ == pretty_of(
                                post_json(
                                    PostAbs {
                                        comments: strip_comments(a.comments, self.comment_uuid@),
                                        ..a
                                    },
                                ),
                            ).push('\n'),
                        },
            },
    {
        let mut p = match Post::load(post_content, user) {
            None => {
                return Err(StorageError::NotFound);
            },
            Some(p) => p,
        };
        proof {
            match post_content {
                Some(ct) => {
                    assert forall|j: Json|
                        j.wf() && (ct@ == #[trigger] pretty_of(j) || ct@ == pretty_of(j).push(
                            '\n',
                        )) implies post_load_spec(j, user.id@) == Some(p.abs()) && p.wf() by {}
                },
                None => {},
            }
        }
        remove_comments(&mut p, &self.comment_uuid);
        p.save()
    }
}

/// Builds the JSON value a comment is embedded as, field by field.
fn comment_value(c: &Comment) -> (v: serde_json::Value)
    ensures
        model_of(v) == comment_json(c.abs()),
{
    let mut v = value_object_empty();
    let body_v = value_string(c.comment_body.as_str());
    object_insert(&mut v, "comment_body", body_v);
    let dislikes_v = value_u64(c.comment_dislikes);
    object_insert(&mut v, "comment_dislikes", dislikes_v);
    let likes_v = value_u64(c.comment_likes);
    object_insert(&mut v, "comment_likes", likes_v);
    let uuid_v = value_string(c.comment_uuid.as_str());
    object_insert(&mut v, "comment_uuid", uuid_v);
    let author_v = value_string(c.user_uuid.as_str());
    object_insert(&mut v, "user_uuid", author_v);
    proof {
        comment_keys_distinct();
        reveal_with_fuel(obj_upsert, 8);
        assert(obj_pairs(model_of(v)) =~= obj_pairs(comment_json(c.abs())));
    }
    v
}

/// Reads a comment back out of an embedded entry; `None` when some field is
/// missing or of the wrong shape.
fn comment_of_value(v: &serde_json::Value) -> (r: Option<Comment>)
    ensures
        match r {
            Some(c) => comment_from_json(model_of(*v)) == Some(c.abs()),
            None => comment_from_json(model_of(*v)) is None,
        },
{
    let user_uuid = match get_str(v, "user_uuid") {
        None => {
            return None;
        },
        Some(s) => s,
    };
    let comment_body = match get_str(v, "comment_body") {
        None => {
            return None;
        },
        Some(s) => s,
    };
    let comment_uuid = match get_str(v, "comment_uuid") {
        None => {
            return None;
        },
        Some(s) => s,
    };
    let comment_likes = match get_u64(v, "comment_likes") {
        None => {
            return None;
        },
        Some(n) => n,
    };
    let comment_dislikes = match get_u64(v, "comment_dislikes") {
        None => {
            return None;
        },
        Some(n) => n,
    };
    Some(Comment { user_uuid, comment_body, comment_uuid, comment_likes, comment_dislikes })
}

/// Rebuilds a post's embedded sequence without the entries carrying `id`,
/// keeping everything else in order.
fn remove_comments(p: &mut Post, id: &String)
    ensures
        final(p).abs().comments == strip_comments(old(p).abs().comments, id@),
        final(p).user_uuid@ == old(p).user_uuid@,
        final(p).title@ == old(p).title@,
        final(p).body@ == old(p).body@,
        final(p).uuid@ == old(p).uuid@,
        old(p).wf() ==> final(p).wf(),
{
    let ghost ms = crate::json::models_of(old(p).comments@);
    proof {
        assert(ms.skip(0) =~= ms);
        assert(crate::json::models_of(Seq::<serde_json::Value>::empty()) =~= Seq::<Json>::empty());
        assert(Seq::<Json>::empty() + strip_comments(ms, id@) =~= strip_comments(ms, id@));
    }
    let mut kept: Vec<serde_json::Value> = Vec::new();
    let mut i: usize = 0;
    while i < p.comments.len()
        invariant
            i <= p.comments@.len(),
            p.comments == old(p).comments,
            p.user_uuid == old(p).user_uuid,
            p.title == old(p).title,
            p.body == old(p).body,
            p.uuid == old(p).uuid,
            ms == crate::json::models_of(p.comments@),
            strip_comments(ms, id@) == crate::json::models_of(kept@) + strip_comments(
                ms.skip(i as int),
                id@,
            ),
            forall|k: int|
                0 <= k < kept@.len() ==> exists|m: int|
                    0 <= m < ms.len() && model_of(#[trigger] kept@[k]) == ms[m],
        decreases p.comments@.len() - i,
    {
        proof {
            assert(ms.skip(i as int).len() > 0);
            assert(ms.skip(i as int)[0] == ms[i as int]);
            assert(ms.skip(i as int).drop_first() =~= ms.skip(i as int + 1));
            assert(model_of(p.comments@[i as int]) == ms[i as int]);
        }
        let keep = match comment_of_value(&p.comments[i]) {
            Some(c) => !(c.comment_uuid == *id),
            None => true,
        };
        if keep {
            let ghost kept_models_before = crate::json::models_of(kept@);
            kept.push(clone_value(&p.comments[i]));
            proof {
                assert(crate::json::models_of(kept@) =~= kept_models_before.push(
                    ms[i as int],
                ));
                assert(kept_models_before.push(ms[i as int]) + strip_comments(
                    ms.skip(i as int + 1),
                    id@,
                ) =~= kept_models_before + (seq![ms[i as int]] + strip_comments(
                    ms.skip(i as int + 1),
                    id@,
                )));
            }
        }
        i = i + 1;
    }
    proof {
        assert(ms.skip(ms.len() as int) =~= Seq::<Json>::empty());
        assert(crate::json::models_of(kept@) + Seq::<Json>::empty() =~= crate::json::models_of(
            kept@,
        ));
    }
    p.comments = kept;
}

} // verus!
