use tweet_fetcher::client::{decode_response, request_url};
use tweet_fetcher::tweet::{DecodeError, FetchError, FetchOutcome, TransportError};

fn tweet_json(id: u64, photos: &str, video: &str) -> String {
    format!(
        "{{\"__typename\":\"Tweet\",\"lang\":\"en\",\"conversation_count\":3,\"created_at\":\"2024-01-01T00:00:00.000Z\",\"favorite_count\":7,\"id_str\":\"{}\",\"text\":\"hello world\",\"isEdited\":false,\"isStaleEdit\":false,\"user\":{{\"id_str\":\"12\",\"name\":\"Ann\",\"profile_image_url_https\":\"https://img.example/a.jpg\",\"screen_name\":\"ann\",\"verified\":false,\"is_blue_verified\":true}}{}{}}}",
        id, photos, video
    )
}

#[test]
fn photos() {
    let tweet_id: u64 = 1079631553641164802;
    let photos = ",\"photos\":[{\"url\":\"https://img.example/1.jpg\",\"width\":1170,\"height\":1157},{\"url\":\"https://img.example/2.jpg\",\"width\":1170,\"height\":1126},{\"url\":\"https://img.example/3.jpg\",\"width\":1170,\"height\":1120}]";
    let body = tweet_json(tweet_id, photos, ",\"video\":null");
    match decode_response(200, body.as_bytes()).unwrap() {
        FetchOutcome::Absent => panic!(),
        FetchOutcome::Present(tweet) => {
            assert!(!tweet.text.is_empty());
            assert_eq!(tweet_id.to_string(), tweet.id_str);
            assert_eq!(3, tweet.photos.len());
            assert!(tweet.video.is_none());
        }
    }
}

#[test]
fn youtube_live_link() {
    let tweet_id: u64 = 1753365478318416281;
    let body = tweet_json(tweet_id, ",\"photos\":[]", "");
    match decode_response(200, body.as_bytes()).unwrap() {
        FetchOutcome::Absent => panic!(),
        FetchOutcome::Present(tweet) => {
            assert!(!tweet.text.is_empty());
            assert_eq!(tweet_id.to_string(), tweet.id_str);
            assert_eq!(0, tweet.photos.len());
            assert!(tweet.video.is_none());
        }
    }
}

#[test]
fn video() {
    let tweet_id: u64 = 1727250580131750107;
    let video = ",\"video\":{\"aspectRatio\":[16,9],\"durationMs\":30500,\"poster\":\"https://img.example/poster.jpg\",\"variants\":[{\"type\":\"application/x-mpegURL\",\"src\":\"https://v.example/pl.m3u8\"},{\"type\":\"video/mp4\",\"src\":\"https://v.example/v.mp4\"}]}";
    // The photos array is omitted entirely, as the server does for empty lists.
    let body = tweet_json(tweet_id, "", video);
    match decode_response(200, body.as_bytes()).unwrap() {
        FetchOutcome::Absent => panic!(),
        FetchOutcome::Present(tweet) => {
            assert!(!tweet.text.is_empty());
            assert_eq!(tweet_id.to_string(), tweet.id_str);
            assert_eq!(0, tweet.photos.len());
            assert!(tweet.video.is_some());
            let v = tweet.video.unwrap();
            assert!(v.variants.len() >= 1);
            assert_eq!(v.aspect_ratio.width, 16);
            assert_eq!(v.aspect_ratio.height, 9);
        }
    }
}

#[test]
fn problematic() {
    let tweet_id: u64 = 1733455117977112615;
    let body = tweet_json(tweet_id, "", "");
    assert!(matches!(
        decode_response(200, body.as_bytes()).unwrap(),
        FetchOutcome::Present(_)
    ));
}

#[test]
fn tombstone() {
    let body = "{\"__typename\":\"TweetTombstone\",\"tombstone\":{\"text\":{\"text\":\"Age-restricted.\",\"entities\":[]}}}";
    assert!(matches!(
        decode_response(200, body.as_bytes()).unwrap(),
        FetchOutcome::Absent
    ));
}

#[test]
fn missing_photos_is_empty_list() {
    let body = tweet_json(1, "", "");
    match decode_response(200, body.as_bytes()).unwrap() {
        FetchOutcome::Present(tweet) => assert_eq!(tweet.photos.len(), 0),
        FetchOutcome::Absent => panic!(),
    }
}

#[test]
fn missing_created_at_tolerated() {
    // An earlier schema revision has no created_at; decoding must not fail.
    let body = "{\"lang\":\"en\",\"conversation_count\":0,\"favorite_count\":0,\"id_str\":\"5\",\"text\":\"t\",\"isEdited\":false,\"isStaleEdit\":false,\"user\":{\"id_str\":\"1\",\"name\":\"n\",\"profile_image_url_https\":\"https://img\",\"screen_name\":\"s\",\"verified\":true,\"is_blue_verified\":false}}";
    match decode_response(200, body.as_bytes()).unwrap() {
        FetchOutcome::Present(tweet) => {
            assert_eq!(tweet.created_at, "");
            assert_eq!(tweet.lang, "en");
        }
        FetchOutcome::Absent => panic!(),
    }
}

#[test]
fn untagged_revision_decodes_as_tweet() {
    let mut body = tweet_json(42, "", "");
    body = body.replacen("\"__typename\":\"Tweet\",", "", 1);
    assert!(matches!(
        decode_response(200, body.as_bytes()).unwrap(),
        FetchOutcome::Present(_)
    ));
}

#[test]
fn tombstone_ignores_other_fields() {
    let body = "{\"lang\":\"en\",\"unrelated\":7,\"text\":\"x\",\"__typename\":\"TweetTombstone\"}";
    assert!(matches!(
        decode_response(200, body.as_bytes()).unwrap(),
        FetchOutcome::Absent
    ));
}

#[test]
fn non_success_status_is_transport_error() {
    // A valid body must not be looked at when the status is not a success.
    let body = tweet_json(7, "", "");
    let err = decode_response(404, body.as_bytes()).unwrap_err();
    assert_eq!(
        err,
        FetchError::Transport(TransportError::Status(404))
    );
    let err = decode_response(500, b"not json at all").unwrap_err();
    assert_eq!(
        err,
        FetchError::Transport(TransportError::Status(500))
    );
}

#[test]
fn invalid_json_error() {
    let err = decode_response(200, b"{\"lang\": ").unwrap_err();
    assert_eq!(err, FetchError::Decode(DecodeError::InvalidJson));
}

#[test]
fn unknown_shape_error() {
    let err = decode_response(200, b"{\"__typename\":\"Banner\"}").unwrap_err();
    assert_eq!(err, FetchError::Decode(DecodeError::UnknownShape));
    let err = decode_response(200, b"[1,2,3]").unwrap_err();
    assert_eq!(err, FetchError::Decode(DecodeError::UnknownShape));
}

#[test]
fn missing_field_error() {
    // lang is required for the post shape.
    let mut body = tweet_json(9, "", "");
    body = body.replacen("\"lang\":\"en\",", "", 1);
    let err = decode_response(200, body.as_bytes()).unwrap_err();
    assert_eq!(err, FetchError::Decode(DecodeError::MissingField));
}

#[test]
fn request_url_shape() {
    assert_eq!(
        request_url(1079631553641164802),
        "https://cdn.syndication.twimg.com/tweet-result?id=1079631553641164802&token=2m7rg9vs6bh"
    );
    assert_eq!(
        request_url(0),
        "https://cdn.syndication.twimg.com/tweet-result?id=0&token=0"
    );
}
