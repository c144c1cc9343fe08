use tweet_fetcher::codec::decode_outcome;
use tweet_fetcher::encode::encode_tweet;
use tweet_fetcher::tweet::{
    AspectRatio, FetchOutcome, Photo, Tweet, User, Video, VideoVariant,
};

fn sample_tweet() -> Tweet {
    Tweet {
        lang: "en".to_string(),
        conversation_count: 12,
        created_at: "2024-01-01T00:00:00.000Z".to_string(),
        favorite_count: 34,
        id_str: "1079631553641164802".to_string(),
        text: "hello world".to_string(),
        is_edited: true,
        is_stale_edit: false,
        user: User {
            id_str: "12".to_string(),
            name: "Ann".to_string(),
            profile_image_url_https: "https://img.example/a.jpg".to_string(),
            screen_name: "ann".to_string(),
            verified: false,
            is_blue_verified: true,
        },
        photos: vec![
            Photo {
                url: "https://img.example/1.jpg".to_string(),
                width: 1170,
                height: 1157,
            },
            Photo {
                url: "https://img.example/2.jpg".to_string(),
                width: 640,
                height: 480,
            },
        ],
        video: Some(Video {
            aspect_ratio: AspectRatio {
                width: 16,
                height: 9,
            },
            duration_ms: 30500,
            poster: "https://img.example/poster.jpg".to_string(),
            variants: vec![VideoVariant {
                kind: "video/mp4".to_string(),
                src: "https://v.example/v.mp4".to_string(),
            }],
        }),
    }
}

#[test]
fn roundtrip_tagged() {
    let t = sample_tweet();
    let wire = encode_tweet(&t, true);
    match decode_outcome(&wire).unwrap() {
        FetchOutcome::Present(back) => assert_eq!(back, t),
        FetchOutcome::Absent => panic!(),
    }
}

#[test]
fn roundtrip_untagged() {
    let t = sample_tweet();
    let wire = encode_tweet(&t, false);
    match decode_outcome(&wire).unwrap() {
        FetchOutcome::Present(back) => assert_eq!(back, t),
        FetchOutcome::Absent => panic!(),
    }
}

#[test]
fn roundtrip_minimal() {
    let mut t = sample_tweet();
    t.photos = vec![];
    t.video = None;
    let wire = encode_tweet(&t, true);
    match decode_outcome(&wire).unwrap() {
        FetchOutcome::Present(back) => assert_eq!(back, t),
        FetchOutcome::Absent => panic!(),
    }
}
