//! Decoding of the endpoint's response shapes.
//!
//! The response is a JSON object: either a post record (discriminator
//! `__typename: "Tweet"`, or no discriminator at all in the earlier schema
//! revision), or a tombstone (`__typename: "TweetTombstone"`) for withdrawn
//! content. Decoding is tolerant of schema drift: the `photos` array may be
//! absent (empty list), `video` may be absent or null, and the minor
//! `created_at` field defaults to empty; any other missing or ill-typed
//! required field is a decode failure, as is an unknown discriminator.

use vstd::prelude::*;

use crate::json::{
    get_field, jview, jview_elems, jview_fields, lemma_jview_elems, lemma_jview_fields, obj_get,
    Json, JsonV,
};
use crate::tweet::{
    outcome_view, photo_view, tweet_view, user_view, variant_view, video_view, AspectRatio,
    DecodeError, FetchOutcome, OutcomeV, Photo, PhotoV, Tweet, TweetV, User, UserV, VariantV,
    Video, VideoV, VideoVariant,
};

verus! {

pub open spec fn jv_str(o: Option<JsonV>) -> Option<Seq<char>> {
    match o {
        Some(JsonV::Str(s)) => Some(s),
        _ => None,
    }
}

pub open spec fn jv_u64(o: Option<JsonV>) -> Option<u64> {
    match o {
        Some(JsonV::Num(n)) => n,
        _ => None,
    }
}

pub open spec fn jv_bool(o: Option<JsonV>) -> Option<bool> {
    match o {
        Some(JsonV::Bool(b)) => Some(b),
        _ => None,
    }
}

/// A photo object: `url`, `width`, `height`, all required.
pub open spec fn decode_photo_spec(v: JsonV) -> Option<PhotoV> {
    match v {
        JsonV::Obj(fs) => match (
            jv_str(obj_get(fs, "url"@)),
            jv_u64(obj_get(fs, "width"@)),
            jv_u64(obj_get(fs, "height"@)),
        ) {
            (Some(url), Some(width), Some(height)) => Some(PhotoV { url, width, height }),
            _ => None,
        },
        _ => None,
    }
}

/// Element-wise photo decoding; any bad element fails the list.
pub open spec fn decode_photos_spec(elems: Seq<JsonV>) -> Option<Seq<PhotoV>>
    decreases elems.len(),
{
    if elems.len() == 0 {
        Some(Seq::empty())
    } else {
        match (decode_photo_spec(elems[0]), decode_photos_spec(elems.drop_first())) {
            (Some(p), Some(r)) => Some(seq![p] + r),
            _ => None,
        }
    }
}

/// A playback variant: `type` (tag) and `src`, both required.
pub open spec fn decode_variant_spec(v: JsonV) -> Option<VariantV> {
    match v {
        JsonV::Obj(fs) => match (jv_str(obj_get(fs, "type"@)), jv_str(obj_get(fs, "src"@))) {
            (Some(kind), Some(src)) => Some(VariantV { kind, src }),
            _ => None,
        },
        _ => None,
    }
}

/// Element-wise variant decoding; any bad element fails the list.
pub open spec fn decode_variants_spec(elems: Seq<JsonV>) -> Option<Seq<VariantV>>
    decreases elems.len(),
{
    if elems.len() == 0 {
        Some(Seq::empty())
    } else {
        match (decode_variant_spec(elems[0]), decode_variants_spec(elems.drop_first())) {
            (Some(p), Some(r)) => Some(seq![p] + r),
            _ => None,
        }
    }
}

/// A video object: `aspectRatio` (a two-number array), `durationMs`,
/// `poster`, `variants`, all required.
pub open spec fn decode_video_spec(v: JsonV) -> Option<VideoV> {
    match v {
        JsonV::Obj(fs) => {
            let ar = match obj_get(fs, "aspectRatio"@) {
                Some(JsonV::Arr(a)) => if a.len() == 2 {
                    match (a[0], a[1]) {
                        (JsonV::Num(Some(w)), JsonV::Num(Some(h))) => Some(
                            AspectRatio { width: w, height: h },
                        ),
                        _ => None,
                    }
                } else {
                    None
                },
                _ => None,
            };
            let vars = match obj_get(fs, "variants"@) {
                Some(JsonV::Arr(elems)) => decode_variants_spec(elems),
                _ => None,
            };
            match (ar, jv_u64(obj_get(fs, "durationMs"@)), jv_str(obj_get(fs, "poster"@)), vars) {
                (Some(aspect_ratio), Some(duration_ms), Some(poster), Some(variants)) => Some(
                    VideoV { aspect_ratio, duration_ms, poster, variants },
                ),
                _ => None,
            }
        },
        _ => None,
    }
}

/// The author object: all six fields required.
pub open spec fn decode_user_spec(v: JsonV) -> Option<UserV> {
    match v {
        JsonV::Obj(fs) => match (
            jv_str(obj_get(fs, "id_str"@)),
            jv_str(obj_get(fs, "name"@)),
            jv_str(obj_get(fs, "profile_image_url_https"@)),
            jv_str(obj_get(fs, "screen_name"@)),
            jv_bool(obj_get(fs, "verified"@)),
            jv_bool(obj_get(fs, "is_blue_verified"@)),
        ) {
            (Some(id_str), Some(name), Some(profile_image_url_https), Some(screen_name), Some(
                verified,
            ), Some(is_blue_verified)) => Some(
                UserV {
                    id_str,
                    name,
                    profile_image_url_https,
                    screen_name,
                    verified,
                    is_blue_verified,
                },
            ),
            _ => None,
        },
        _ => None,
    }
}

/// The post record: required scalar fields, a required author, a defaultable
/// `photos` list, an optional/nullable `video`, and the tolerated
/// `created_at` (empty when absent or ill-typed).
pub open spec fn decode_tweet_spec(fs: Seq<(Seq<char>, JsonV)>) -> Option<TweetV> {
    let created_at = match jv_str(obj_get(fs, "created_at"@)) {
        Some(c) => c,
        None => ""@,
    };
    let photos = match obj_get(fs, "photos"@) {
        None => Some(Seq::<PhotoV>::empty()),
        Some(JsonV::Arr(elems)) => decode_photos_spec(elems),
        Some(_) => None,
    };
    let video = match obj_get(fs, "video"@) {
        None => Some(Option::<VideoV>::None),
        Some(JsonV::Null) => Some(Option::<VideoV>::None),
        Some(vv) => match decode_video_spec(vv) {
            Some(x) => Some(Some(x)),
            None => None,
        },
    };
    let user = match obj_get(fs, "user"@) {
        Some(uv) => decode_user_spec(uv),
        None => None,
    };
    match (
        jv_str(obj_get(fs, "lang"@)),
        jv_u64(obj_get(fs, "conversation_count"@)),
        jv_u64(obj_get(fs, "favorite_count"@)),
        jv_str(obj_get(fs, "id_str"@)),
        jv_str(obj_get(fs, "text"@)),
        jv_bool(obj_get(fs, "isEdited"@)),
        jv_bool(obj_get(fs, "isStaleEdit"@)),
        user,
        photos,
        video,
    ) {
        (Some(lang), Some(conversation_count), Some(favorite_count), Some(id_str), Some(text), Some(
            is_edited,
        ), Some(is_stale_edit), Some(user), Some(photos), Some(video)) => Some(
            TweetV {
                lang,
                conversation_count,
                created_at,
                favorite_count,
                id_str,
                text,
                is_edited,
                is_stale_edit,
                user,
                photos,
                video,
            },
        ),
        _ => None,
    }
}

/// The discriminated response: `"Tweet"` (or no discriminator, the earlier
/// revision) selects the post shape, `"TweetTombstone"` the tombstone; a
/// tombstone decodes to Absent whatever else the object holds; anything else
/// is a decode failure.
pub open spec fn decode_outcome_spec(v: JsonV) -> Result<OutcomeV, DecodeError> {
    match v {
        JsonV::Obj(fs) => match obj_get(fs, "__typename"@) {
            Some(JsonV::Str(t)) => if t == "Tweet"@ {
                match decode_tweet_spec(fs) {
                    Some(tv) => Ok(OutcomeV::Present(tv)),
                    None => Err(DecodeError::MissingField),
                }
            } else if t == "TweetTombstone"@ {
                Ok(OutcomeV::Absent)
            } else {
                Err(DecodeError::UnknownShape)
            },
            Some(_) => Err(DecodeError::UnknownShape),
            None => match decode_tweet_spec(fs) {
                Some(tv) => Ok(OutcomeV::Present(tv)),
                None => Err(DecodeError::MissingField),
            },
        },
        _ => Err(DecodeError::UnknownShape),
    }
}

/// String field getter matching `jv_str` on the view.
fn get_str(fields: &Vec<(String, Json)>, key: &String) -> (r: Option<String>)
    ensures
        match r {
            Some(s) => jv_str(obj_get(jview_fields(fields@), key@)) == Some(s@),
            None => jv_str(obj_get(jview_fields(fields@), key@)) is None,
        },
{
    match get_field(fields, key) {
        Some(v) => match v {
            Json::Str(s) => Some(s.clone()),
            _ => None,
        },
        None => None,
    }
}

/// Number field getter matching `jv_u64` on the view.
fn get_u64(fields: &Vec<(String, Json)>, key: &String) -> (r: Option<u64>)
    ensures
        match r {
            Some(n) => jv_u64(obj_get(jview_fields(fields@), key@)) == Some(n),
            None => jv_u64(obj_get(jview_fields(fields@), key@)) is None,
        },
{
    match get_field(fields, key) {
        Some(v) => match v {
            Json::Num(n) => *n,
            _ => None,
        },
        None => None,
    }
}

/// Boolean field getter matching `jv_bool` on the view.
fn get_bool(fields: &Vec<(String, Json)>, key: &String) -> (r: Option<bool>)
    ensures
        match r {
            Some(b) => jv_bool(obj_get(jview_fields(fields@), key@)) == Some(b),
            None => jv_bool(obj_get(jview_fields(fields@), key@)) is None,
        },
{
    match get_field(fields, key) {
        Some(v) => match v {
            Json::Bool(b) => Some(*b),
            _ => None,
        },
        None => None,
    }
}

/// Decode one photo object.
fn decode_photo(j: &Json) -> (r: Option<Photo>)
    ensures
        match r {
            Some(p) => decode_photo_spec(jview(*j)) == Some(photo_view(p)),
            None => decode_photo_spec(jview(*j)) is None,
        },
{
    match j {
        Json::Obj(fields) => {
            let url = get_str(fields, &String::from_str("url"));
            let width = get_u64(fields, &String::from_str("width"));
            let height = get_u64(fields, &String::from_str("height"));
            match (url, width, height) {
                (Some(url), Some(width), Some(height)) => Some(Photo { url, width, height }),
                _ => None,
            }
        },
        _ => None,
    }
}

/// Decode a photo list element-wise; `None` if any element is bad.
fn decode_photos(elems: &Vec<Json>) -> (r: Option<Vec<Photo>>)
    ensures
        match r {
            Some(ps) => decode_photos_spec(jview_elems(elems@)) == Some(
                ps@.map_values(|p: Photo| photo_view(p)),
            ),
            None => decode_photos_spec(jview_elems(elems@)) is None,
        },
{
    let ghost es = jview_elems(elems@);
    let ghost pv = |p: Photo| photo_view(p);
    let mut acc: Vec<Photo> = Vec::new();
    proof {
        lemma_jview_elems(elems@);
        assert(es.skip(0) =~= es);
        assert(Seq::<Photo>::empty().map_values(pv) =~= Seq::<PhotoV>::empty());
    }
    let mut i: usize = 0;
    while i < elems.len()
        invariant
            i <= elems@.len(),
            es == jview_elems(elems@),
            es.len() == elems@.len(),
            forall|q: int| 0 <= q < elems@.len() ==> es[q] == jview(#[trigger] elems@[q]),
            pv == (|p: Photo| photo_view(p)),
            decode_photos_spec(es) == match decode_photos_spec(es.skip(i as int)) {
                Some(rest) => Some(acc@.map_values(pv) + rest),
                None => None::<Seq<PhotoV>>,
            },
        decreases elems@.len() - i,
    {
        let ghost accv = acc@.map_values(pv);
        let p = decode_photo(&elems[i]);
        proof {
            assert(es.skip(i as int)[0] == es[i as int]);
            assert(es.skip(i as int).drop_first() =~= es.skip(i + 1));
            assert(es.skip(i as int).len() > 0);
        }
        match p {
            Some(p) => {
                acc.push(p);
                proof {
                    assert(acc@.map_values(pv) =~= accv.push(photo_view(p)));
                    if decode_photos_spec(es.skip(i + 1)) is Some {
                        let rest = decode_photos_spec(es.skip(i + 1)).unwrap();
                        assert(accv + (seq![photo_view(p)] + rest) =~= accv.push(photo_view(p))
                            + rest);
                    }
                }
            },
            None => {
                proof {
                    assert(decode_photos_spec(es.skip(i as int)) is None);
                }
                return None;
            },
        }
        i = i + 1;
    }
    proof {
        assert(es.skip(i as int).len() == 0);
        assert(decode_photos_spec(es.skip(i as int)) == Some(Seq::<PhotoV>::empty()));
        assert(acc@.map_values(pv) + Seq::<PhotoV>::empty() =~= acc@.map_values(pv));
    }
    Some(acc)
}

/// Decode one playback-variant object.
fn decode_variant(j: &Json) -> (r: Option<VideoVariant>)
    ensures
        match r {
            Some(p) => decode_variant_spec(jview(*j)) == Some(variant_view(p)),
            None => decode_variant_spec(jview(*j)) is None,
        },
{
    match j {
        Json::Obj(fields) => {
            let kind = get_str(fields, &String::from_str("type"));
            let src = get_str(fields, &String::from_str("src"));
            match (kind, src) {
                (Some(kind), Some(src)) => Some(VideoVariant { kind, src }),
                _ => None,
            }
        },
        _ => None,
    }
}

/// Decode a variant list element-wise; `None` if any element is bad.
fn decode_variants(elems: &Vec<Json>) -> (r: Option<Vec<VideoVariant>>)
    ensures
        match r {
            Some(ps) => decode_variants_spec(jview_elems(elems@)) == Some(
                ps@.map_values(|p: VideoVariant| variant_view(p)),
            ),
            None => decode_variants_spec(jview_elems(elems@)) is None,
        },
{
    let ghost es = jview_elems(elems@);
    let ghost pv = |p: VideoVariant| variant_view(p);
    let mut acc: Vec<VideoVariant> = Vec::new();
    proof {
        lemma_jview_elems(elems@);
        assert(es.skip(0) =~= es);
        assert(Seq::<VideoVariant>::empty().map_values(pv) =~= Seq::<VariantV>::empty());
    }
    let mut i: usize = 0;
    while i < elems.len()
        invariant
            i <= elems@.len(),
            es == jview_elems(elems@),
            es.len() == elems@.len(),
            forall|q: int| 0 <= q < elems@.len() ==> es[q] == jview(#[trigger] elems@[q]),
            pv == (|p: VideoVariant| variant_view(p)),
            decode_variants_spec(es) == match decode_variants_spec(es.skip(i as int)) {
                Some(rest) => Some(acc@.map_values(pv) + rest),
                None => None::<Seq<VariantV>>,
            },
        decreases elems@.len() - i,
    {
        let ghost accv = acc@.map_values(pv);
        let p = decode_variant(&elems[i]);
        proof {
            assert(es.skip(i as int)[0] == es[i as int]);
            assert(es.skip(i as int).drop_first() =~= es.skip(i + 1));
            assert(es.skip(i as int).len() > 0);
        }
        match p {
            Some(p) => {
                acc.push(p);
                proof {
                    assert(acc@.map_values(pv) =~= accv.push(variant_view(p)));
                    if decode_variants_spec(es.skip(i + 1)) is Some {
                        let rest = decode_variants_spec(es.skip(i + 1)).unwrap();
                        assert(accv + (seq![variant_view(p)] + rest) =~= accv.push(variant_view(p))
                            + rest);
                    }
                }
            },
            None => {
                proof {
                    assert(decode_variants_spec(es.skip(i as int)) is None);
                }
                return None;
            },
        }
        i = i + 1;
    }
    proof {
        assert(es.skip(i as int).len() == 0);
        assert(decode_variants_spec(es.skip(i as int)) == Some(Seq::<VariantV>::empty()));
        assert(acc@.map_values(pv) + Seq::<VariantV>::empty() =~= acc@.map_values(pv));
    }
    Some(acc)
}

/// Decode one video object.
fn decode_video(j: &Json) -> (r: Option<Video>)
    ensures
        match r {
            Some(v) => decode_video_spec(jview(*j)) == Some(video_view(v)),
            None => decode_video_spec(jview(*j)) is None,
        },
{
    match j {
        Json::Obj(fields) => {
            let ar: Option<AspectRatio> = match get_field(fields, &String::from_str("aspectRatio")) {
                Some(v) => match v {
                    Json::Arr(a) => {
                        proof {
                            lemma_jview_elems(a@);
                        }
                        if a.len() == 2 {
                            match (&a[0], &a[1]) {
                                (Json::Num(w), Json::Num(h)) => match (w, h) {
                                    (Some(w), Some(h)) => Some(
                                        AspectRatio { width: *w, height: *h },
                                    ),
                                    _ => None,
                                },
                                _ => None,
                            }
                        } else {
                            None
                        }
                    },
                    _ => None,
                },
                None => None,
            };
            let vars: Option<Vec<VideoVariant>> = match get_field(
                fields,
                &String::from_str("variants"),
            ) {
                Some(v) => match v {
                    Json::Arr(elems) => decode_variants(elems),
                    _ => None,
                },
                None => None,
            };
            let duration = get_u64(fields, &String::from_str("durationMs"));
            let poster = get_str(fields, &String::from_str("poster"));
            match (ar, duration, poster, vars) {
                (Some(aspect_ratio), Some(duration_ms), Some(poster), Some(variants)) => Some(
                    Video { aspect_ratio, duration_ms, poster, variants },
                ),
                _ => None,
            }
        },
        _ => None,
    }
}

/// Decode the author object.
fn decode_user(j: &Json) -> (r: Option<User>)
    ensures
        match r {
            Some(u) => decode_user_spec(jview(*j)) == Some(user_view(u)),
            None => decode_user_spec(jview(*j)) is None,
        },
{
    match j {
        Json::Obj(fields) => {
            let id_str = get_str(fields, &String::from_str("id_str"));
            let name = get_str(fields, &String::from_str("name"));
            let profile = get_str(fields, &String::from_str("profile_image_url_https"));
            let screen_name = get_str(fields, &String::from_str("screen_name"));
            let verified = get_bool(fields, &String::from_str("verified"));
            let blue = get_bool(fields, &String::from_str("is_blue_verified"));
            match (id_str, name, profile, screen_name, verified, blue) {
                (Some(id_str), Some(name), Some(profile_image_url_https), Some(screen_name), Some(
                    verified,
                ), Some(is_blue_verified)) => Some(
                    User {
                        id_str,
                        name,
                        profile_image_url_https,
                        screen_name,
                        verified,
                        is_blue_verified,
                    },
                ),
                _ => None,
            }
        },
        _ => None,
    }
}

/// Decode the post record from an object's field list.
fn decode_tweet(fields: &Vec<(String, Json)>) -> (r: Option<Tweet>)
    ensures
        match r {
            Some(t) => decode_tweet_spec(jview_fields(fields@)) == Some(tweet_view(t)),
            None => decode_tweet_spec(jview_fields(fields@)) is None,
        },
{
    let created_at: String = match get_str(fields, &String::from_str("created_at")) {
        Some(c) => c,
        None => {
            let e = String::from_str("");
            proof {
                reveal_strlit("");
                assert(e@ =~= ""@);
            }
            e
        },
    };
    let photos: Option<Vec<Photo>> = match get_field(fields, &String::from_str("photos")) {
        None => Some(Vec::new()),
        Some(v) => match v {
            Json::Arr(elems) => decode_photos(elems),
            _ => None,
        },
    };
    proof {
        if photos is Some && obj_get(jview_fields(fields@), "photos"@) is None {
            assert(Seq::<Photo>::empty().map_values(|p: Photo| photo_view(p)) =~= Seq::<
                PhotoV,
            >::empty());
        }
    }
    let video: Option<Option<Video>> = match get_field(fields, &String::from_str("video")) {
        None => Some(None),
        Some(v) => match v {
            Json::Null => Some(None),
            other => match decode_video(other) {
                Some(x) => Some(Some(x)),
                None => None,
            },
        },
    };
    let user: Option<User> = match get_field(fields, &String::from_str("user")) {
        Some(uv) => decode_user(uv),
        None => None,
    };
    let lang = get_str(fields, &String::from_str("lang"));
    let conversation_count = get_u64(fields, &String::from_str("conversation_count"));
    let favorite_count = get_u64(fields, &String::from_str("favorite_count"));
    let id_str = get_str(fields, &String::from_str("id_str"));
    let text = get_str(fields, &String::from_str("text"));
    let is_edited = get_bool(fields, &String::from_str("isEdited"));
    let is_stale_edit = get_bool(fields, &String::from_str("isStaleEdit"));
    match (lang, conversation_count, favorite_count, id_str, text, is_edited, is_stale_edit, user,
        photos, video) {
        (Some(lang), Some(conversation_count), Some(favorite_count), Some(id_str), Some(text), Some(
            is_edited,
        ), Some(is_stale_edit), Some(user), Some(photos), Some(video)) => Some(
            Tweet {
                lang,
                conversation_count,
                created_at,
                favorite_count,
                id_str,
                text,
                is_edited,
                is_stale_edit,
                user,
                photos,
                video,
            },
        ),
        _ => None,
    }
}

/// Decode a response body's JSON value into the post-or-absent outcome.
///
/// A tombstone-shaped object decodes to `Absent` regardless of any other
/// fields present; a `"Tweet"`-tagged or untagged object decodes as a post
/// record; anything else fails with the exact error `decode_outcome_spec`
/// gives.
pub fn decode_outcome(j: &Json) -> (r: Result<FetchOutcome, DecodeError>)
    ensures
        match r {
            Ok(o) => decode_outcome_spec(jview(*j)) == Ok::<OutcomeV, DecodeError>(outcome_view(o)),
            Err(e) => decode_outcome_spec(jview(*j)) == Err::<OutcomeV, DecodeError>(e),
        },
{
    match j {
        Json::Obj(fields) => {
            match get_field(fields, &String::from_str("__typename")) {
                Some(v) => match v {
                    Json::Str(t) => {
                        if *t == String::from_str("Tweet") {
                            match decode_tweet(fields) {
                                Some(t) => Ok(FetchOutcome::Present(t)),
                                None => Err(DecodeError::MissingField),
                            }
                        } else if *t == String::from_str("TweetTombstone") {
                            Ok(FetchOutcome::Absent)
                        } else {
                            Err(DecodeError::UnknownShape)
                        }
                    },
                    _ => Err(DecodeError::UnknownShape),
                },
                None => match decode_tweet(fields) {
                    Some(t) => Ok(FetchOutcome::Present(t)),
                    None => Err(DecodeError::MissingField),
                },
            }
        },
        _ => Err(DecodeError::UnknownShape),
    }
}

/// A tombstone-shaped object decodes to Absent regardless of any other
/// fields it holds.
pub proof fn lemma_tombstone_absent(fs: Seq<(Seq<char>, JsonV)>)
    requires
        obj_get(fs, "__typename"@) == Some(JsonV::Str("TweetTombstone"@)),
    ensures
        decode_outcome_spec(JsonV::Obj(fs)) == Ok::<OutcomeV, DecodeError>(OutcomeV::Absent),
{
    reveal_strlit("Tweet");
    reveal_strlit("TweetTombstone");
    assert(("Tweet"@).len() == 5);
    assert(("TweetTombstone"@).len() == 14);
    assert("Tweet"@ != "TweetTombstone"@);
}

} // verus!
