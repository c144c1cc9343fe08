//! Encoding of a post record to the wire shape, and the round-trip law:
//! a record encoded to the wire shape and decoded back is unchanged, with or
//! without the `__typename` discriminator of the newer schema revision.

use vstd::prelude::*;
use vstd::string::*;

use crate::codec::{
    decode_outcome_spec, decode_photo_spec, decode_photos_spec, decode_tweet_spec,
    decode_user_spec, decode_variant_spec, decode_variants_spec, decode_video_spec,
};
use crate::json::{jview, jview_elems, jview_fields, lemma_jview_elems, lemma_jview_fields,
    obj_get, Json, JsonV};
use crate::tweet::{
    photo_view, tweet_view, user_view, variant_view, video_view, DecodeError, OutcomeV, Photo,
    PhotoV, Tweet, TweetV, User, UserV, VariantV, Video, VideoV, VideoVariant,
};

verus! {

pub open spec fn encode_photo_spec(p: PhotoV) -> JsonV {
    JsonV::Obj(
        seq![
            ("url"@, JsonV::Str(p.url)),
            ("width"@, JsonV::Num(Some(p.width))),
            ("height"@, JsonV::Num(Some(p.height))),
        ],
    )
}

pub open spec fn encode_variant_spec(v: VariantV) -> JsonV {
    JsonV::Obj(seq![("type"@, JsonV::Str(v.kind)), ("src"@, JsonV::Str(v.src))])
}

pub open spec fn encode_user_spec(u: UserV) -> JsonV {
    JsonV::Obj(
        seq![
            ("id_str"@, JsonV::Str(u.id_str)),
            ("name"@, JsonV::Str(u.name)),
            ("profile_image_url_https"@, JsonV::Str(u.profile_image_url_https)),
            ("screen_name"@, JsonV::Str(u.screen_name)),
            ("verified"@, JsonV::Bool(u.verified)),
            ("is_blue_verified"@, JsonV::Bool(u.is_blue_verified)),
        ],
    )
}

pub open spec fn encode_video_spec(v: VideoV) -> JsonV {
    JsonV::Obj(
        seq![
            (
                "aspectRatio"@,
                JsonV::Arr(
                    seq![
                        JsonV::Num(Some(v.aspect_ratio.width)),
                        JsonV::Num(Some(v.aspect_ratio.height)),
                    ],
                ),
            ),
            ("durationMs"@, JsonV::Num(Some(v.duration_ms))),
            ("poster"@, JsonV::Str(v.poster)),
            ("variants"@, JsonV::Arr(v.variants.map_values(|x: VariantV| encode_variant_spec(x)))),
        ],
    )
}

/// The post record's wire fields, without any discriminator.
pub open spec fn encode_tweet_fields(t: TweetV) -> Seq<(Seq<char>, JsonV)> {
    seq![
        ("lang"@, JsonV::Str(t.lang)),
        ("conversation_count"@, JsonV::Num(Some(t.conversation_count))),
        ("created_at"@, JsonV::Str(t.created_at)),
        ("favorite_count"@, JsonV::Num(Some(t.favorite_count))),
        ("id_str"@, JsonV::Str(t.id_str)),
        ("text"@, JsonV::Str(t.text)),
        ("isEdited"@, JsonV::Bool(t.is_edited)),
        ("isStaleEdit"@, JsonV::Bool(t.is_stale_edit)),
        ("user"@, encode_user_spec(t.user)),
        ("photos"@, JsonV::Arr(t.photos.map_values(|p: PhotoV| encode_photo_spec(p)))),
        (
            "video"@,
            match t.video {
                Some(v) => encode_video_spec(v),
                None => JsonV::Null,
            },
        ),
    ]
}

/// The wire shape of a post record: tagged with `__typename: "Tweet"` for
/// the newer schema revision, untagged for the earlier one.
pub open spec fn encode_tweet_spec(t: TweetV, tagged: bool) -> JsonV {
    if tagged {
        JsonV::Obj(seq![("__typename"@, JsonV::Str("Tweet"@))] + encode_tweet_fields(t))
    } else {
        JsonV::Obj(encode_tweet_fields(t))
    }
}

/// Encode one photo.
pub fn encode_photo(p: &Photo) -> (r: Json)
    ensures
        jview(r) == encode_photo_spec(photo_view(*p)),
{
    let mut fs: Vec<(String, Json)> = Vec::new();
    fs.push((String::from_str("url"), Json::Str(p.url.clone())));
    fs.push((String::from_str("width"), Json::Num(Some(p.width))));
    fs.push((String::from_str("height"), Json::Num(Some(p.height))));
    let ghost fsg = fs@;
    let r = Json::Obj(fs);
    proof {
        lemma_jview_fields(fsg);
        assert(fsg[0].0@ == "url"@ && fsg[1].0@ == "width"@ && fsg[2].0@ == "height"@);
        assert(jview_fields(fsg) =~~= encode_photo_spec(photo_view(*p))->Obj_0);
    }
    r
}

/// Encode one playback variant.
pub fn encode_variant(v: &VideoVariant) -> (r: Json)
    ensures
        jview(r) == encode_variant_spec(variant_view(*v)),
{
    let mut fs: Vec<(String, Json)> = Vec::new();
    fs.push((String::from_str("type"), Json::Str(v.kind.clone())));
    fs.push((String::from_str("src"), Json::Str(v.src.clone())));
    let ghost fsg = fs@;
    let r = Json::Obj(fs);
    proof {
        lemma_jview_fields(fsg);
        assert(fsg[0].0@ == "type"@ && fsg[1].0@ == "src"@);
        assert(jview_fields(fsg) =~~= encode_variant_spec(variant_view(*v))->Obj_0);
    }
    r
}

/// Encode the author.
pub fn encode_user(u: &User) -> (r: Json)
    ensures
        jview(r) == encode_user_spec(user_view(*u)),
{
    let mut fs: Vec<(String, Json)> = Vec::new();
    fs.push((String::from_str("id_str"), Json::Str(u.id_str.clone())));
    fs.push((String::from_str("name"), Json::Str(u.name.clone())));
    fs.push((
        String::from_str("profile_image_url_https"),
        Json::Str(u.profile_image_url_https.clone()),
    ));
    fs.push((String::from_str("screen_name"), Json::Str(u.screen_name.clone())));
    fs.push((String::from_str("verified"), Json::Bool(u.verified)));
    fs.push((String::from_str("is_blue_verified"), Json::Bool(u.is_blue_verified)));
    let ghost fsg = fs@;
    let r = Json::Obj(fs);
    proof {
        lemma_jview_fields(fsg);
        assert(fsg[0].0@ == "id_str"@ && fsg[1].0@ == "name"@ && fsg[2].0@
            == "profile_image_url_https"@ && fsg[3].0@ == "screen_name"@ && fsg[4].0@
            == "verified"@ && fsg[5].0@ == "is_blue_verified"@);
        assert(jview_fields(fsg) =~~= encode_user_spec(user_view(*u))->Obj_0);
    }
    r
}

/// Encode the video part.
pub fn encode_video(v: &Video) -> (r: Json)
    ensures
        jview(r) == encode_video_spec(video_view(*v)),
{
    let ghost vv = video_view(*v);
    let mut ar: Vec<Json> = Vec::new();
    ar.push(Json::Num(Some(v.aspect_ratio.width)));
    ar.push(Json::Num(Some(v.aspect_ratio.height)));
    let ghost arg = ar@;

    let mut vars: Vec<Json> = Vec::new();
    let mut i: usize = 0;
    while i < v.variants.len()
        invariant
            i <= v.variants@.len(),
            vars@.len() == i,
            forall|q: int|
                0 <= q < i ==> jview(#[trigger] vars@[q]) == encode_variant_spec(
                    variant_view(v.variants@[q]),
                ),
        decreases v.variants@.len() - i,
    {
        vars.push(encode_variant(&v.variants[i]));
        i = i + 1;
    }
    let ghost varsg = vars@;

    let mut fs: Vec<(String, Json)> = Vec::new();
    fs.push((String::from_str("aspectRatio"), Json::Arr(ar)));
    fs.push((String::from_str("durationMs"), Json::Num(Some(v.duration_ms))));
    fs.push((String::from_str("poster"), Json::Str(v.poster.clone())));
    fs.push((String::from_str("variants"), Json::Arr(vars)));
    let ghost fsg = fs@;
    let r = Json::Obj(fs);
    proof {
        lemma_jview_elems(arg);
        lemma_jview_elems(varsg);
        lemma_jview_fields(fsg);
        assert(fsg[0].0@ == "aspectRatio"@ && fsg[1].0@ == "durationMs"@ && fsg[2].0@
            == "poster"@ && fsg[3].0@ == "variants"@);
        assert(arg[0] == Json::Num(Some(v.aspect_ratio.width)) && arg[1] == Json::Num(
            Some(v.aspect_ratio.height),
        ));
        assert(jview_elems(arg) =~~= seq![
            JsonV::Num(Some(vv.aspect_ratio.width)),
            JsonV::Num(Some(vv.aspect_ratio.height)),
        ]);
        assert forall|q: int| 0 <= q < varsg.len() implies jview_elems(varsg)[q] == vv.variants
            .map_values(|x: VariantV| encode_variant_spec(x))[q] by {
            assert(jview(varsg[q]) == encode_variant_spec(variant_view(v.variants@[q])));
            assert(vv.variants[q] == variant_view(v.variants@[q]));
        }
        assert(jview_elems(varsg) =~~= vv.variants.map_values(|x: VariantV| encode_variant_spec(x)));
        assert(jview_fields(fsg) =~~= encode_video_spec(vv)->Obj_0);
    }
    r
}

/// Encode a post record to the wire shape, with or without the
/// `__typename` discriminator.
pub fn encode_tweet(t: &Tweet, tagged: bool) -> (r: Json)
    ensures
        jview(r) == encode_tweet_spec(tweet_view(*t), tagged),
{
    let ghost tv = tweet_view(*t);
    let mut photos: Vec<Json> = Vec::new();
    let mut i: usize = 0;
    while i < t.photos.len()
        invariant
            i <= t.photos@.len(),
            photos@.len() == i,
            forall|q: int|
                0 <= q < i ==> jview(#[trigger] photos@[q]) == encode_photo_spec(
                    photo_view(t.photos@[q]),
                ),
        decreases t.photos@.len() - i,
    {
        photos.push(encode_photo(&t.photos[i]));
        i = i + 1;
    }
    let ghost photosg = photos@;

    let video: Json = match &t.video {
        Some(v) => encode_video(v),
        None => Json::Null,
    };

    let mut fs: Vec<(String, Json)> = Vec::new();
    if tagged {
        fs.push((String::from_str("__typename"), Json::Str(String::from_str("Tweet"))));
    }
    fs.push((String::from_str("lang"), Json::Str(t.lang.clone())));
    fs.push((String::from_str("conversation_count"), Json::Num(Some(t.conversation_count))));
    fs.push((String::from_str("created_at"), Json::Str(t.created_at.clone())));
    fs.push((String::from_str("favorite_count"), Json::Num(Some(t.favorite_count))));
    fs.push((String::from_str("id_str"), Json::Str(t.id_str.clone())));
    fs.push((String::from_str("text"), Json::Str(t.text.clone())));
    fs.push((String::from_str("isEdited"), Json::Bool(t.is_edited)));
    fs.push((String::from_str("isStaleEdit"), Json::Bool(t.is_stale_edit)));
    fs.push((String::from_str("user"), encode_user(&t.user)));
    fs.push((String::from_str("photos"), Json::Arr(photos)));
    fs.push((String::from_str("video"), video));
    let ghost fsg = fs@;
    let r = Json::Obj(fs);
    proof {
        lemma_jview_elems(photosg);
        lemma_jview_fields(fsg);
        assert forall|q: int| 0 <= q < photosg.len() implies jview_elems(photosg)[q] == tv.photos
            .map_values(|p: PhotoV| encode_photo_spec(p))[q] by {
            assert(jview(photosg[q]) == encode_photo_spec(photo_view(t.photos@[q])));
            assert(tv.photos[q] == photo_view(t.photos@[q]));
        }
        assert(jview_elems(photosg) =~~= tv.photos.map_values(|p: PhotoV| encode_photo_spec(p)));
        if tagged {
            assert(fsg[0].0@ == "__typename"@ && fsg[1].0@ == "lang"@ && fsg[2].0@
                == "conversation_count"@ && fsg[3].0@ == "created_at"@ && fsg[4].0@
                == "favorite_count"@ && fsg[5].0@ == "id_str"@ && fsg[6].0@ == "text"@
                && fsg[7].0@ == "isEdited"@ && fsg[8].0@ == "isStaleEdit"@ && fsg[9].0@
                == "user"@ && fsg[10].0@ == "photos"@ && fsg[11].0@ == "video"@);
        } else {
            assert(fsg[0].0@ == "lang"@ && fsg[1].0@ == "conversation_count"@ && fsg[2].0@
                == "created_at"@ && fsg[3].0@ == "favorite_count"@ && fsg[4].0@ == "id_str"@
                && fsg[5].0@ == "text"@ && fsg[6].0@ == "isEdited"@ && fsg[7].0@
                == "isStaleEdit"@ && fsg[8].0@ == "user"@ && fsg[9].0@ == "photos"@
                && fsg[10].0@ == "video"@);
        }
        if tagged {
            assert(jview_fields(fsg) =~~= seq![("__typename"@, JsonV::Str("Tweet"@))]
                + encode_tweet_fields(tv));
        } else {
            assert(jview_fields(fsg) =~~= encode_tweet_fields(tv));
        }
    }
    r
}

/// Round trip for one photo.
pub proof fn lemma_photo_roundtrip(p: PhotoV)
    ensures
        decode_photo_spec(encode_photo_spec(p)) == Some(p),
{
    reveal_strlit("url");
    reveal_strlit("width");
    reveal_strlit("height");
    let fs = encode_photo_spec(p)->Obj_0;
    reveal_with_fuel(obj_get, 5);
    assert(("url"@).len() == 3 && ("width"@).len() == 5 && ("height"@).len() == 6);
    assert(fs.drop_first() =~= seq![
        ("width"@, JsonV::Num(Some(p.width))),
        ("height"@, JsonV::Num(Some(p.height))),
    ]);
    assert(fs.drop_first().drop_first() =~= seq![("height"@, JsonV::Num(Some(p.height)))]);
    assert(obj_get(fs, "url"@) == Some(JsonV::Str(p.url)));
    assert(obj_get(fs, "width"@) == Some(JsonV::Num(Some(p.width))));
    assert(obj_get(fs, "height"@) == Some(JsonV::Num(Some(p.height))));
    assert(p == PhotoV { url: p.url, width: p.width, height: p.height });
}

/// Round trip for one playback variant.
pub proof fn lemma_variant_roundtrip(v: VariantV)
    ensures
        decode_variant_spec(encode_variant_spec(v)) == Some(v),
{
    reveal_strlit("type");
    reveal_strlit("src");
    let fs = encode_variant_spec(v)->Obj_0;
    reveal_with_fuel(obj_get, 4);
    assert(("type"@).len() == 4 && ("src"@).len() == 3);
    assert(fs.drop_first() =~= seq![("src"@, JsonV::Str(v.src))]);
    assert(obj_get(fs, "type"@) == Some(JsonV::Str(v.kind)));
    assert(obj_get(fs, "src"@) == Some(JsonV::Str(v.src)));
    assert(v == VariantV { kind: v.kind, src: v.src });
}

/// Round trip for a variant list.
pub proof fn lemma_variants_roundtrip(vs: Seq<VariantV>)
    ensures
        decode_variants_spec(vs.map_values(|x: VariantV| encode_variant_spec(x))) == Some(vs),
    decreases vs.len(),
{
    let es = vs.map_values(|x: VariantV| encode_variant_spec(x));
    if vs.len() == 0 {
        assert(es.len() == 0);
        assert(Seq::<VariantV>::empty() =~= vs);
    } else {
        lemma_variant_roundtrip(vs[0]);
        lemma_variants_roundtrip(vs.drop_first());
        assert(es[0] == encode_variant_spec(vs[0]));
        assert(es.drop_first() =~= vs.drop_first().map_values(
            |x: VariantV| encode_variant_spec(x),
        ));
        assert(seq![vs[0]] + vs.drop_first() =~= vs);
    }
}

/// Round trip for a photo list.
pub proof fn lemma_photos_roundtrip(ps: Seq<PhotoV>)
    ensures
        decode_photos_spec(ps.map_values(|x: PhotoV| encode_photo_spec(x))) == Some(ps),
    decreases ps.len(),
{
    let es = ps.map_values(|x: PhotoV| encode_photo_spec(x));
    if ps.len() == 0 {
        assert(es.len() == 0);
        assert(Seq::<PhotoV>::empty() =~= ps);
    } else {
        lemma_photo_roundtrip(ps[0]);
        lemma_photos_roundtrip(ps.drop_first());
        assert(es[0] == encode_photo_spec(ps[0]));
        assert(es.drop_first() =~= ps.drop_first().map_values(|x: PhotoV| encode_photo_spec(x)));
        assert(seq![ps[0]] + ps.drop_first() =~= ps);
    }
}

/// Round trip for the author.
pub proof fn lemma_user_roundtrip(u: UserV)
    ensures
        decode_user_spec(encode_user_spec(u)) == Some(u),
{
    reveal_strlit("id_str");
    reveal_strlit("name");
    reveal_strlit("profile_image_url_https");
    reveal_strlit("screen_name");
    reveal_strlit("verified");
    reveal_strlit("is_blue_verified");
    let fs = encode_user_spec(u)->Obj_0;
    reveal_with_fuel(obj_get, 8);
    assert(("id_str"@).len() == 6 && ("name"@).len() == 4 && ("profile_image_url_https"@).len()
        == 23 && ("screen_name"@).len() == 11 && ("verified"@).len() == 8
        && ("is_blue_verified"@).len() == 16);
    let r1 = fs.drop_first();
    let r2 = r1.drop_first();
    let r3 = r2.drop_first();
    let r4 = r3.drop_first();
    let r5 = r4.drop_first();
    assert(r1 =~= fs.subrange(1, 6));
    assert(r2 =~= fs.subrange(2, 6));
    assert(r3 =~= fs.subrange(3, 6));
    assert(r4 =~= fs.subrange(4, 6));
    assert(r5 =~= fs.subrange(5, 6));
    assert(obj_get(fs, "id_str"@) == Some(JsonV::Str(u.id_str)));
    assert(obj_get(fs, "name"@) == Some(JsonV::Str(u.name)));
    assert(obj_get(fs, "profile_image_url_https"@) == Some(
        JsonV::Str(u.profile_image_url_https),
    ));
    assert(obj_get(fs, "screen_name"@) == Some(JsonV::Str(u.screen_name)));
    assert(obj_get(fs, "verified"@) == Some(JsonV::Bool(u.verified)));
    assert(obj_get(fs, "is_blue_verified"@) == Some(JsonV::Bool(u.is_blue_verified)));
    assert(u == UserV {
        id_str: u.id_str,
        name: u.name,
        profile_image_url_https: u.profile_image_url_https,
        screen_name: u.screen_name,
        verified: u.verified,
        is_blue_verified: u.is_blue_verified,
    });
}

/// Round trip for the video part.
pub proof fn lemma_video_roundtrip(v: VideoV)
    ensures
        decode_video_spec(encode_video_spec(v)) == Some(v),
{
    reveal_strlit("aspectRatio");
    reveal_strlit("durationMs");
    reveal_strlit("poster");
    reveal_strlit("variants");
    let fs = encode_video_spec(v)->Obj_0;
    reveal_with_fuel(obj_get, 6);
    assert(("aspectRatio"@).len() == 11 && ("durationMs"@).len() == 10 && ("poster"@).len() == 6
        && ("variants"@).len() == 8);
    let r1 = fs.drop_first();
    let r2 = r1.drop_first();
    let r3 = r2.drop_first();
    assert(r1 =~= fs.subrange(1, 4));
    assert(r2 =~= fs.subrange(2, 4));
    assert(r3 =~= fs.subrange(3, 4));
    let ar = JsonV::Arr(
        seq![JsonV::Num(Some(v.aspect_ratio.width)), JsonV::Num(Some(v.aspect_ratio.height))],
    );
    assert(obj_get(fs, "aspectRatio"@) == Some(ar));
    assert(obj_get(fs, "durationMs"@) == Some(JsonV::Num(Some(v.duration_ms))));
    assert(obj_get(fs, "poster"@) == Some(JsonV::Str(v.poster)));
    assert(obj_get(fs, "variants"@) == Some(
        JsonV::Arr(v.variants.map_values(|x: VariantV| encode_variant_spec(x))),
    ));
    lemma_variants_roundtrip(v.variants);
    assert(v.aspect_ratio == crate::tweet::AspectRatio {
        width: v.aspect_ratio.width,
        height: v.aspect_ratio.height,
    });
    assert(v == VideoV {
        aspect_ratio: v.aspect_ratio,
        duration_ms: v.duration_ms,
        poster: v.poster,
        variants: v.variants,
    });
}

/// Round trip for the post record's field list.
pub proof fn lemma_tweet_fields_roundtrip(t: TweetV)
    ensures
        decode_tweet_spec(encode_tweet_fields(t)) == Some(t),
{
    reveal_strlit("lang");
    reveal_strlit("conversation_count");
    reveal_strlit("created_at");
    reveal_strlit("favorite_count");
    reveal_strlit("id_str");
    reveal_strlit("text");
    reveal_strlit("isEdited");
    reveal_strlit("isStaleEdit");
    reveal_strlit("user");
    reveal_strlit("photos");
    reveal_strlit("video");
    assert(("lang"@).len() == 4 && ("conversation_count"@).len() == 18 && ("created_at"@).len()
        == 10 && ("favorite_count"@).len() == 14 && ("id_str"@).len() == 6 && ("text"@).len() == 4
        && ("isEdited"@).len() == 8 && ("isStaleEdit"@).len() == 11 && ("user"@).len() == 4
        && ("photos"@).len() == 6 && ("video"@).len() == 5);
    assert("lang"@ != "text"@) by {
        assert(("lang"@)[0] == 'l' && ("text"@)[0] == 't');
    }
    assert("lang"@ != "user"@) by {
        assert(("lang"@)[0] == 'l' && ("user"@)[0] == 'u');
    }
    assert("text"@ != "user"@) by {
        assert(("text"@)[0] == 't' && ("user"@)[0] == 'u');
    }
    assert("id_str"@ != "photos"@) by {
        assert(("id_str"@)[0] == 'i' && ("photos"@)[0] == 'p');
    }
    let fs = encode_tweet_fields(t);
    reveal_with_fuel(obj_get, 13);
    let r1 = fs.drop_first();
    let r2 = r1.drop_first();
    let r3 = r2.drop_first();
    let r4 = r3.drop_first();
    let r5 = r4.drop_first();
    let r6 = r5.drop_first();
    let r7 = r6.drop_first();
    let r8 = r7.drop_first();
    let r9 = r8.drop_first();
    let r10 = r9.drop_first();
    assert(r1 =~= fs.subrange(1, 11));
    assert(r2 =~= fs.subrange(2, 11));
    assert(r3 =~= fs.subrange(3, 11));
    assert(r4 =~= fs.subrange(4, 11));
    assert(r5 =~= fs.subrange(5, 11));
    assert(r6 =~= fs.subrange(6, 11));
    assert(r7 =~= fs.subrange(7, 11));
    assert(r8 =~= fs.subrange(8, 11));
    assert(r9 =~= fs.subrange(9, 11));
    assert(r10 =~= fs.subrange(10, 11));
    assert(obj_get(fs, "lang"@) == Some(JsonV::Str(t.lang)));
    assert(obj_get(fs, "conversation_count"@) == Some(JsonV::Num(Some(t.conversation_count))));
    assert(obj_get(fs, "created_at"@) == Some(JsonV::Str(t.created_at)));
    assert(obj_get(fs, "favorite_count"@) == Some(JsonV::Num(Some(t.favorite_count))));
    assert(obj_get(fs, "id_str"@) == Some(JsonV::Str(t.id_str)));
    assert(obj_get(fs, "text"@) == Some(JsonV::Str(t.text)));
    assert(obj_get(fs, "isEdited"@) == Some(JsonV::Bool(t.is_edited)));
    assert(obj_get(fs, "isStaleEdit"@) == Some(JsonV::Bool(t.is_stale_edit)));
    assert(obj_get(fs, "user"@) == Some(encode_user_spec(t.user)));
    assert(obj_get(fs, "photos"@) == Some(
        JsonV::Arr(t.photos.map_values(|p: PhotoV| encode_photo_spec(p))),
    ));
    assert(obj_get(fs, "video"@) == Some(
        match t.video {
            Some(v) => encode_video_spec(v),
            None => JsonV::Null,
        },
    ));
    lemma_user_roundtrip(t.user);
    lemma_photos_roundtrip(t.photos);
    match t.video {
        Some(v) => {
            lemma_video_roundtrip(v);
            assert(!(encode_video_spec(v) is Null));
        },
        None => {},
    }
    assert(t == TweetV {
        lang: t.lang,
        conversation_count: t.conversation_count,
        created_at: t.created_at,
        favorite_count: t.favorite_count,
        id_str: t.id_str,
        text: t.text,
        is_edited: t.is_edited,
        is_stale_edit: t.is_stale_edit,
        user: t.user,
        photos: t.photos,
        video: t.video,
    });
}

/// The round-trip law: a post record encoded to the wire shape and decoded
/// back is unchanged, with or without the `__typename` discriminator.
pub proof fn lemma_encode_decode_roundtrip(t: TweetV, tagged: bool)
    ensures
        decode_outcome_spec(encode_tweet_spec(t, tagged)) == Ok::<OutcomeV, DecodeError>(
            OutcomeV::Present(t),
        ),
{
    lemma_tweet_fields_roundtrip(t);
    let fields = encode_tweet_fields(t);
    reveal_strlit("__typename");
    reveal_strlit("Tweet");
    reveal_strlit("lang");
    reveal_strlit("conversation_count");
    reveal_strlit("created_at");
    reveal_strlit("favorite_count");
    reveal_strlit("id_str");
    reveal_strlit("text");
    reveal_strlit("isEdited");
    reveal_strlit("isStaleEdit");
    reveal_strlit("user");
    reveal_strlit("photos");
    reveal_strlit("video");
    assert(("__typename"@).len() == 10);
    assert(("lang"@).len() == 4 && ("conversation_count"@).len() == 18 && ("created_at"@).len()
        == 10 && ("favorite_count"@).len() == 14 && ("id_str"@).len() == 6 && ("text"@).len() == 4
        && ("isEdited"@).len() == 8 && ("isStaleEdit"@).len() == 11 && ("user"@).len() == 4
        && ("photos"@).len() == 6 && ("video"@).len() == 5);
    assert("__typename"@ != "created_at"@) by {
        assert(("__typename"@)[0] == '_' && ("created_at"@)[0] == 'c');
    }
    if tagged {
        let full = seq![("__typename"@, JsonV::Str("Tweet"@))] + fields;
        assert(full.drop_first() =~= fields);
        assert(full[0].0 == "__typename"@);
        assert(obj_get(full, "__typename"@) == Some(JsonV::Str("Tweet"@)));
        assert(obj_get(full, "lang"@) == obj_get(fields, "lang"@));
        assert(obj_get(full, "conversation_count"@) == obj_get(fields, "conversation_count"@));
        assert(obj_get(full, "created_at"@) == obj_get(fields, "created_at"@));
        assert(obj_get(full, "favorite_count"@) == obj_get(fields, "favorite_count"@));
        assert(obj_get(full, "id_str"@) == obj_get(fields, "id_str"@));
        assert(obj_get(full, "text"@) == obj_get(fields, "text"@));
        assert(obj_get(full, "isEdited"@) == obj_get(fields, "isEdited"@));
        assert(obj_get(full, "isStaleEdit"@) == obj_get(fields, "isStaleEdit"@));
        assert(obj_get(full, "user"@) == obj_get(fields, "user"@));
        assert(obj_get(full, "photos"@) == obj_get(fields, "photos"@));
        assert(obj_get(full, "video"@) == obj_get(fields, "video"@));
        assert(decode_tweet_spec(full) == decode_tweet_spec(fields));
        assert(encode_tweet_spec(t, tagged) == JsonV::Obj(full));
    } else {
        // No discriminator: the lookup walks every field and finds none.
        reveal_with_fuel(obj_get, 13);
        let r1 = fields.drop_first();
        let r2 = r1.drop_first();
        let r3 = r2.drop_first();
        let r4 = r3.drop_first();
        let r5 = r4.drop_first();
        let r6 = r5.drop_first();
        let r7 = r6.drop_first();
        let r8 = r7.drop_first();
        let r9 = r8.drop_first();
        let r10 = r9.drop_first();
        assert(r1 =~= fields.subrange(1, 11));
        assert(r2 =~= fields.subrange(2, 11));
        assert(r3 =~= fields.subrange(3, 11));
        assert(r4 =~= fields.subrange(4, 11));
        assert(r5 =~= fields.subrange(5, 11));
        assert(r6 =~= fields.subrange(6, 11));
        assert(r7 =~= fields.subrange(7, 11));
        assert(r8 =~= fields.subrange(8, 11));
        assert(r9 =~= fields.subrange(9, 11));
        assert(r10 =~= fields.subrange(10, 11));
        assert(obj_get(fields, "__typename"@) is None);
    }
}

} // verus!
