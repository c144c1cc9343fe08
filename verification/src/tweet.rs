//! The post metadata model: the record a successful fetch yields, its
//! embedded author, photo and video parts, the post-or-absent outcome, and
//! the error channel. Each executable type has a spec-level view used by the
//! decoding contracts.

use vstd::prelude::*;

verus! {

/// The post's author.
#[derive(Debug, Clone, PartialEq)]
pub struct User {
    pub id_str: String,
    pub name: String,
    pub profile_image_url_https: String,
    pub screen_name: String,
    pub verified: bool,
    pub is_blue_verified: bool,
}

/// One attached photo.
#[derive(Debug, Clone, PartialEq)]
pub struct Photo {
    pub url: String,
    pub width: u64,
    pub height: u64,
}

/// One playback variant of an attached video; `kind` carries the wire field
/// `type` (a reserved word), a MIME-type-like tag.
#[derive(Debug, Clone, PartialEq)]
pub struct VideoVariant {
    pub kind: String,
    pub src: String,
}

/// A (width, height) ratio pair, as the wire's two-element array.
#[derive(Debug, Clone, Copy, PartialEq, Eq, Structural)]
pub struct AspectRatio {
    pub width: u64,
    pub height: u64,
}

/// An attached video: (width, height) aspect ratio, duration, poster frame,
/// and its playback variants in wire order.
#[derive(Debug, Clone, PartialEq)]
pub struct Video {
    pub aspect_ratio: AspectRatio,
    pub duration_ms: u64,
    pub poster: String,
    pub variants: Vec<VideoVariant>,
}

/// A decoded post record. `created_at` is a minor field that comes and goes
/// across server revisions: it decodes best-effort and is empty when absent.
#[derive(Debug, Clone, PartialEq)]
pub struct Tweet {
    pub lang: String,
    pub conversation_count: u64,
    pub created_at: String,
    pub favorite_count: u64,
    pub id_str: String,
    pub text: String,
    pub is_edited: bool,
    pub is_stale_edit: bool,
    pub user: User,
    pub photos: Vec<Photo>,
    pub video: Option<Video>,
}

/// The outcome of a successful round trip: the post, or a tombstone for a
/// withdrawn/restricted post.
#[derive(Debug, Clone, PartialEq)]
pub enum FetchOutcome {
    Present(Tweet),
    Absent,
}

/// Why a response body could not be decoded.
#[derive(Debug, Clone, Copy, PartialEq, Eq, Structural)]
pub enum DecodeError {
    /// The body is not valid JSON.
    InvalidJson,
    /// The body matches neither the post shape nor the tombstone shape.
    UnknownShape,
    /// A required field of the matched shape is missing or has a wrong type.
    MissingField,
}

/// Why no decodable response was obtained.
#[derive(Debug, Clone, PartialEq)]
pub enum TransportError {
    /// The server answered with a non-success HTTP status.
    Status(u16),
    /// The request itself failed (connection failure, timeout), with the
    /// transport's message.
    Network(String),
}

/// The failure channel of a fetch.
#[derive(Debug, Clone, PartialEq)]
pub enum FetchError {
    Transport(TransportError),
    Decode(DecodeError),
}

/// Spec view of `User`.
pub struct UserV {
    pub id_str: Seq<char>,
    pub name: Seq<char>,
    pub profile_image_url_https: Seq<char>,
    pub screen_name: Seq<char>,
    pub verified: bool,
    pub is_blue_verified: bool,
}

/// Spec view of `Photo`.
pub struct PhotoV {
    pub url: Seq<char>,
    pub width: u64,
    pub height: u64,
}

/// Spec view of `VideoVariant`.
pub struct VariantV {
    pub kind: Seq<char>,
    pub src: Seq<char>,
}

/// Spec view of `Video`.
pub struct VideoV {
    pub aspect_ratio: AspectRatio,
    pub duration_ms: u64,
    pub poster: Seq<char>,
    pub variants: Seq<VariantV>,
}

/// Spec view of `Tweet`.
pub struct TweetV {
    pub lang: Seq<char>,
    pub conversation_count: u64,
    pub created_at: Seq<char>,
    pub favorite_count: u64,
    pub id_str: Seq<char>,
    pub text: Seq<char>,
    pub is_edited: bool,
    pub is_stale_edit: bool,
    pub user: UserV,
    pub photos: Seq<PhotoV>,
    pub video: Option<VideoV>,
}

/// Spec view of `FetchOutcome`.
pub enum OutcomeV {
    Present(TweetV),
    Absent,
}

pub open spec fn user_view(u: User) -> UserV {
    UserV {
        id_str: u.id_str@,
        name: u.name@,
        profile_image_url_https: u.profile_image_url_https@,
        screen_name: u.screen_name@,
        verified: u.verified,
        is_blue_verified: u.is_blue_verified,
    }
}

pub open spec fn photo_view(p: Photo) -> PhotoV {
    PhotoV { url: p.url@, width: p.width, height: p.height }
}

pub open spec fn variant_view(v: VideoVariant) -> VariantV {
    VariantV { kind: v.kind@, src: v.src@ }
}

pub open spec fn video_view(v: Video) -> VideoV {
    VideoV {
        aspect_ratio: v.aspect_ratio,
        duration_ms: v.duration_ms,
        poster: v.poster@,
        variants: v.variants@.map_values(|x: VideoVariant| variant_view(x)),
    }
}

pub open spec fn tweet_view(t: Tweet) -> TweetV {
    TweetV {
        lang: t.lang@,
        conversation_count: t.conversation_count,
        created_at: t.created_at@,
        favorite_count: t.favorite_count,
        id_str: t.id_str@,
        text: t.text@,
        is_edited: t.is_edited,
        is_stale_edit: t.is_stale_edit,
        user: user_view(t.user),
        photos: t.photos@.map_values(|p: Photo| photo_view(p)),
        video: match t.video {
            Some(v) => Some(video_view(v)),
            None => None,
        },
    }
}

pub open spec fn outcome_view(o: FetchOutcome) -> OutcomeV {
    match o {
        FetchOutcome::Present(t) => OutcomeV::Present(tweet_view(t)),
        FetchOutcome::Absent => OutcomeV::Absent,
    }
}

} // verus!
