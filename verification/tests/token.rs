use tweet_fetcher::token::calc_token;

#[test]
fn token() {
    assert_eq!(calc_token(1079631553641164802), "2m7rg9vs6bh");
    assert_eq!(calc_token(1753365478318416281), "49cyp3d8ng");
    assert_eq!(calc_token(1727250580131750107), "46qbfs66quq");
    assert_eq!(calc_token(1757965341978956071), "49et726opy");
}

#[test]
fn token_idempotent() {
    let ids: [u64; 4] =
        [1079631553641164802, 1753365478318416281, 1, 18446744073709551615];
    for id in ids {
        assert_eq!(calc_token(id), calc_token(id));
    }
}

#[test]
fn token_alphabet() {
    let ids: [u64; 8] = [
        1079631553641164802,
        1753365478318416281,
        1727250580131750107,
        1757965341978956071,
        1733455117977112615,
        36,
        999999999999999999,
        18446744073709551615,
    ];
    for id in ids {
        let tok = calc_token(id);
        assert!(!tok.is_empty());
        for c in tok.chars() {
            assert!(c.is_ascii_digit() || c.is_ascii_lowercase());
        }
        if tok != "0" {
            assert!(!tok.contains('0'));
        }
    }
}

#[test]
fn token_zero_fallback() {
    // All digits of the scaled value are zero for these inputs, so the
    // deleted-digit fallback applies.
    assert_eq!(calc_token(0), "0");
    assert_eq!(calc_token(1), "0");
}
