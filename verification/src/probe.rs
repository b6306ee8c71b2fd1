//! Normalization of analyzer reports into one canonical track schema.
//!
//! Two incompatible backends report streams: a generic analyzer (per-stream
//! codec/disposition/tag fields) and a Matroska analyzer (per-track
//! properties). Both are decoded by the caller into the plain structures
//! here, and the functions of this module reconcile them into
//! [`TrackInfoResponse`] values: filtering by the requested kind, resolving
//! codec and language with their fallback chains, deriving display names and
//! free-form attribute strings, and rendering the shared container name and
//! file size.

use vstd::prelude::*;
use crate::bytesize::{format_bytes_spec, format_bytes_readable};
use crate::decimal::{dec_spec, parse_u64_spec, parse_u64, u32_to_dec};
use crate::language::{language_name_spec, map_language_name};
use crate::text::{join_spec, join_strings, lit_string, lower_spec, lower_string, str_eq,
    strings_view};

verus! {

/// One normalized track, in the schema shared by both backends.
pub struct TrackInfoResponse {
    pub track_id: String,
    pub codec: String,
    pub lang: Option<String>,
    pub language_name: Option<String>,
    pub track_name: Option<String>,
    pub is_default: Option<bool>,
    pub is_forced: Option<bool>,
    pub charset: Option<String>,
    pub attributes: Option<String>,
    pub container: Option<String>,
    pub file_size: Option<String>,
}

/// The tracks found by one probe call, in backend order.
pub struct TrackParseResponse {
    pub tracks: Vec<TrackInfoResponse>,
}

/// The mathematical value of an optional string.
pub open spec fn opt_view(o: Option<String>) -> Option<Seq<char>> {
    match o {
        Some(s) => Some(s@),
        None => None,
    }
}

/// The mathematical value of one normalized track.
pub struct TrackModel {
    pub track_id: Seq<char>,
    pub codec: Seq<char>,
    pub lang: Option<Seq<char>>,
    pub language_name: Option<Seq<char>>,
    pub track_name: Option<Seq<char>>,
    pub is_default: Option<bool>,
    pub is_forced: Option<bool>,
    pub charset: Option<Seq<char>>,
    pub attributes: Option<Seq<char>>,
    pub container: Option<Seq<char>>,
    pub file_size: Option<Seq<char>>,
}

impl View for TrackInfoResponse {
    type V = TrackModel;

    open spec fn view(&self) -> TrackModel {
        TrackModel {
            track_id: self.track_id@,
            codec: self.codec@,
            lang: opt_view(self.lang),
            language_name: opt_view(self.language_name),
            track_name: opt_view(self.track_name),
            is_default: self.is_default,
            is_forced: self.is_forced,
            charset: opt_view(self.charset),
            attributes: opt_view(self.attributes),
            container: opt_view(self.container),
            file_size: opt_view(self.file_size),
        }
    }
}

/// The models of a vector of normalized tracks.
pub open spec fn tracks_model(v: Seq<TrackInfoResponse>) -> Seq<TrackModel> {
    v.map_values(|t: TrackInfoResponse| t@)
}

/// Tag-level metadata of one generic-analyzer stream.
pub struct StreamTags {
    pub language: Option<String>,
    pub title: Option<String>,
    pub encoding: Option<String>,
    pub charset: Option<String>,
}

/// Disposition integers of one generic-analyzer stream.
pub struct StreamDisposition {
    pub default_flag: Option<i32>,
    pub forced_flag: Option<i32>,
}

/// One stream as the generic analyzer reports it.
pub struct GenericStream {
    pub index: Option<u32>,
    pub codec_name: Option<String>,
    pub codec_type: Option<String>,
    pub width: Option<u32>,
    pub height: Option<u32>,
    pub r_frame_rate: Option<String>,
    pub channels: Option<u32>,
    pub channel_layout: Option<String>,
    pub disposition: Option<StreamDisposition>,
    pub tags: Option<StreamTags>,
}

/// A whole generic-analyzer report: format-level metadata plus streams.
pub struct GenericReport {
    pub format_name: Option<String>,
    pub size: Option<String>,
    pub streams: Vec<GenericStream>,
}

/// Properties of one Matroska-analyzer track.
pub struct MatroskaTrackProperties {
    pub language: Option<String>,
    pub language_ietf: Option<String>,
    pub track_name: Option<String>,
    pub default_track: Option<bool>,
    pub forced_track: Option<bool>,
    pub codec_name: Option<String>,
    pub codec_id: Option<String>,
    pub encoding: Option<String>,
    pub pixel_dimensions: Option<String>,
    pub audio_channels: Option<u32>,
    pub audio_sampling_hz: Option<u64>,
}

/// One track as the Matroska analyzer reports it.
pub struct MatroskaTrack {
    pub id: u32,
    pub track_type: Option<String>,
    pub codec: Option<String>,
    pub properties: Option<MatroskaTrackProperties>,
}

/// A whole Matroska-analyzer report.
pub struct MatroskaReport {
    pub container_type: Option<String>,
    pub file_size: Option<u64>,
    pub tracks: Vec<MatroskaTrack>,
}

/// The attribute parts of a generic video stream: a "WxH" resolution when
/// both dimensions are present, then the frame rate unless it is the
/// placeholder "0/0".
pub open spec fn generic_video_parts(s: GenericStream) -> Seq<Seq<char>> {
    let res: Seq<Seq<char>> = if s.width is Some && s.height is Some {
        seq![dec_spec(s.width->0 as nat) + seq!['x'] + dec_spec(s.height->0 as nat)]
    } else {
        Seq::empty()
    };
    let rate: Seq<Seq<char>> = match s.r_frame_rate {
        Some(r) => if r@ != "0/0"@ {
            seq![r@]
        } else {
            Seq::empty()
        },
        None => Seq::empty(),
    };
    res + rate
}

/// The attribute parts of a generic audio stream: an "Nch" channel count,
/// then the channel layout.
pub open spec fn generic_audio_parts(s: GenericStream) -> Seq<Seq<char>> {
    let ch: Seq<Seq<char>> = match s.channels {
        Some(c) => seq![dec_spec(c as nat) + seq!['c', 'h']],
        None => Seq::empty(),
    };
    let layout: Seq<Seq<char>> = match s.channel_layout {
        Some(l) => seq![l@],
        None => Seq::empty(),
    };
    ch + layout
}

/// The free-form attribute string of a generic stream: the present video or
/// audio parts joined with spaces; other kinds fall back to the title tag.
pub open spec fn generic_attributes_spec(s: GenericStream) -> Option<Seq<char>> {
    if opt_view(s.codec_type) == Some("video"@) {
        let parts = generic_video_parts(s);
        if parts.len() == 0 {
            None
        } else {
            Some(join_spec(parts, seq![' ']))
        }
    } else if opt_view(s.codec_type) == Some("audio"@) {
        let parts = generic_audio_parts(s);
        if parts.len() == 0 {
            None
        } else {
            Some(join_spec(parts, seq![' ']))
        }
    } else {
        match s.tags {
            Some(t) => opt_view(t.title),
            None => None,
        }
    }
}

fn clone_opt_string(o: &Option<String>) -> (r: Option<String>)
    ensures
        opt_view(r) == opt_view(*o),
{
    match o {
        Some(s) => Some(s.clone()),
        None => None,
    }
}

fn concat_string(a: String, b: &str) -> (r: String)
    ensures
        r@ == a@ + b@,
{
    a.concat(b)
}

/// Build the free-form attribute string of a generic stream.
pub fn build_attributes(stream: &GenericStream) -> (r: Option<String>)
    ensures
        opt_view(r) == generic_attributes_spec(*stream),
{
    let is_video = match &stream.codec_type {
        Some(ct) => str_eq(ct.as_str(), "video"),
        None => false,
    };
    let is_audio = match &stream.codec_type {
        Some(ct) => str_eq(ct.as_str(), "audio"),
        None => false,
    };
    if is_video {
        let mut parts: Vec<String> = Vec::new();
        match (&stream.width, &stream.height) {
            (Some(w), Some(h)) => {
                let res = concat_string(concat_string(u32_to_dec(*w), "x"), u32_to_dec(*h).as_str());
                proof {
                    reveal_strlit("x");
                    assert(res@ =~= dec_spec(stream.width->0 as nat) + seq!['x'] + dec_spec(
                        stream.height->0 as nat,
                    ));
                }
                parts.push(res);
            },
            _ => {},
        }
        match &stream.r_frame_rate {
            Some(rate) => {
                if !str_eq(rate.as_str(), "0/0") {
                    parts.push(rate.clone());
                }
            },
            None => {},
        }
        proof {
            assert(strings_view(parts@) =~= generic_video_parts(*stream));
        }
        if parts.len() == 0 {
            None
        } else {
            let joined = join_strings(&parts, " ");
            proof {
                reveal_strlit(" ");
                assert(" "@ =~= seq![' ']);
            }
            Some(joined)
        }
    } else if is_audio {
        let mut parts: Vec<String> = Vec::new();
        match &stream.channels {
            Some(c) => {
                let t = concat_string(u32_to_dec(*c), "ch");
                proof {
                    reveal_strlit("ch");
                    assert(t@ =~= dec_spec(stream.channels->0 as nat) + seq!['c', 'h']);
                }
                parts.push(t);
            },
            None => {},
        }
        match &stream.channel_layout {
            Some(l) => {
                parts.push(l.clone());
            },
            None => {},
        }
        proof {
            assert(strings_view(parts@) =~= generic_audio_parts(*stream));
        }
        if parts.len() == 0 {
            None
        } else {
            let joined = join_strings(&parts, " ");
            proof {
                reveal_strlit(" ");
                assert(" "@ =~= seq![' ']);
            }
            Some(joined)
        }
    } else {
        match &stream.tags {
            Some(t) => clone_opt_string(&t.title),
            None => None,
        }
    }
}

/// The free-form attribute string of a Matroska track of the given
/// (lowercased) kind: pixel dimensions for video; channel count and a
/// rounded "N Hz" sample rate for audio; nothing otherwise.
pub open spec fn matroska_attributes_spec(p: MatroskaTrackProperties, kind: Seq<char>) -> Option<
    Seq<char>,
> {
    if kind == "video"@ {
        opt_view(p.pixel_dimensions)
    } else if kind == "audio"@ {
        let ch: Seq<Seq<char>> = match p.audio_channels {
            Some(c) => seq![dec_spec(c as nat) + seq!['c', 'h']],
            None => Seq::empty(),
        };
        let hz: Seq<Seq<char>> = match p.audio_sampling_hz {
            Some(f) => seq![dec_spec(f as nat) + seq![' ', 'H', 'z']],
            None => Seq::empty(),
        };
        if ch.len() + hz.len() == 0 {
            None
        } else {
            Some(join_spec(ch + hz, seq![' ']))
        }
    } else {
        None
    }
}

/// Build the free-form attribute string of a Matroska track.
pub fn build_mkvmerge_attributes(props: &MatroskaTrackProperties, kind: &str) -> (r: Option<
    String,
>)
    ensures
        opt_view(r) == matroska_attributes_spec(*props, kind@),
{
    if str_eq(kind, "video") {
        clone_opt_string(&props.pixel_dimensions)
    } else if str_eq(kind, "audio") {
        let mut parts: Vec<String> = Vec::new();
        match &props.audio_channels {
            Some(c) => {
                let t = concat_string(u32_to_dec(*c), "ch");
                proof {
                    reveal_strlit("ch");
                    assert(t@ =~= dec_spec(props.audio_channels->0 as nat) + seq!['c', 'h']);
                }
                parts.push(t);
            },
            None => {},
        }
        match &props.audio_sampling_hz {
            Some(f) => {
                let t = concat_string(crate::decimal::u64_to_dec(*f), " Hz");
                proof {
                    reveal_strlit(" Hz");
                    assert(" Hz"@ =~= seq![' ', 'H', 'z']);
                    assert(t@ =~= dec_spec(props.audio_sampling_hz->0 as nat) + seq![' ', 'H', 'z']);
                }
                parts.push(t);
            },
            None => {},
        }
        if parts.len() == 0 {
            proof {
                assert(matroska_attributes_spec(*props, kind@) is None);
            }
            None
        } else {
            proof {
                let ch: Seq<Seq<char>> = match props.audio_channels {
                    Some(c) => seq![dec_spec(c as nat) + seq!['c', 'h']],
                    None => Seq::empty(),
                };
                let hz: Seq<Seq<char>> = match props.audio_sampling_hz {
                    Some(f) => seq![dec_spec(f as nat) + seq![' ', 'H', 'z']],
                    None => Seq::empty(),
                };
                assert(strings_view(parts@) =~= ch + hz);
            }
            let joined = join_strings(&parts, " ");
            proof {
                reveal_strlit(" ");
                assert(" "@ =~= seq![' ']);
            }
            Some(joined)
        }
    } else {
        None
    }
}

/// Whether a Matroska track is kept for the requested (lowercased) kind:
/// subtitle requests accept both the singular and plural type spellings.
pub open spec fn matroska_keep(t: MatroskaTrack, kind: Seq<char>) -> bool {
    let tt = match t.track_type {
        Some(s) => s@,
        None => Seq::<char>::empty(),
    };
    if kind == "subtitle"@ {
        tt == "subtitles"@ || tt == "subtitle"@
    } else {
        tt == kind
    }
}

/// The language of a Matroska track: the IETF-style tag is preferred over
/// the legacy three-letter code.
pub open spec fn matroska_lang(t: MatroskaTrack) -> Option<Seq<char>> {
    match t.properties {
        Some(p) => if p.language_ietf is Some {
            opt_view(p.language_ietf)
        } else {
            opt_view(p.language)
        },
        None => None,
    }
}

/// The codec of a Matroska track: the explicit codec name, else the track's
/// generic codec field, else the codec id, else "unknown".
pub open spec fn matroska_codec(t: MatroskaTrack) -> Seq<char> {
    match t.properties {
        Some(p) => if p.codec_name is Some {
            p.codec_name->0@
        } else if t.codec is Some {
            t.codec->0@
        } else if p.codec_id is Some {
            p.codec_id->0@
        } else {
            "unknown"@
        },
        None => if t.codec is Some {
            t.codec->0@
        } else {
            "unknown"@
        },
    }
}

/// The normalized form of one kept Matroska track.
pub open spec fn matroska_model(
    t: MatroskaTrack,
    kind: Seq<char>,
    container: Option<Seq<char>>,
    file_size: Option<Seq<char>>,
) -> TrackModel {
    TrackModel {
        track_id: dec_spec(t.id as nat),
        codec: matroska_codec(t),
        lang: matroska_lang(t),
        language_name: match matroska_lang(t) {
            Some(l) => language_name_spec(l),
            None => None,
        },
        track_name: match t.properties {
            Some(p) => opt_view(p.track_name),
            None => None,
        },
        is_default: match t.properties {
            Some(p) => p.default_track,
            None => None,
        },
        is_forced: match t.properties {
            Some(p) => p.forced_track,
            None => None,
        },
        charset: match t.properties {
            Some(p) => opt_view(p.encoding),
            None => None,
        },
        attributes: match t.properties {
            Some(p) => matroska_attributes_spec(p, kind),
            None => None,
        },
        container: container,
        file_size: file_size,
    }
}

/// The rendered file size of a Matroska report, if it carries one.
pub open spec fn matroska_file_size(r: MatroskaReport) -> Option<Seq<char>> {
    match r.file_size {
        Some(b) => Some(format_bytes_spec(b as nat)),
        None => None,
    }
}

/// All normalized tracks of a Matroska report for a (lowercased) kind, in
/// report order.
pub open spec fn matroska_models(r: MatroskaReport, kind: Seq<char>) -> Seq<TrackModel> {
    r.tracks@.filter_map(
        |t: MatroskaTrack|
            if matroska_keep(t, kind) {
                Some(matroska_model(t, kind, opt_view(r.container_type), matroska_file_size(r)))
            } else {
                None
            },
    )
}

fn matroska_track_info(
    t: &MatroskaTrack,
    kind: &str,
    container: &Option<String>,
    file_size: &Option<String>,
) -> (r: TrackInfoResponse)
    ensures
        r@ == matroska_model(*t, kind@, opt_view(*container), opt_view(*file_size)),
{
    let lang: Option<String> = match &t.properties {
        Some(p) => match &p.language_ietf {
            Some(l) => Some(l.clone()),
            None => clone_opt_string(&p.language),
        },
        None => None,
    };
    let language_name: Option<String> = match &lang {
        Some(l) => map_language_name(l.as_str()),
        None => None,
    };
    let codec: String = match &t.properties {
        Some(p) => match &p.codec_name {
            Some(c) => c.clone(),
            None => match &t.codec {
                Some(c) => c.clone(),
                None => match &p.codec_id {
                    Some(c) => c.clone(),
                    None => lit_string("unknown"),
                },
            },
        },
        None => match &t.codec {
            Some(c) => c.clone(),
            None => lit_string("unknown"),
        },
    };
    let attributes: Option<String> = match &t.properties {
        Some(p) => build_mkvmerge_attributes(p, kind),
        None => None,
    };
    TrackInfoResponse {
        track_id: u32_to_dec(t.id),
        codec,
        lang,
        language_name,
        track_name: match &t.properties {
            Some(p) => clone_opt_string(&p.track_name),
            None => None,
        },
        is_default: match &t.properties {
            Some(p) => p.default_track,
            None => None,
        },
        is_forced: match &t.properties {
            Some(p) => p.forced_track,
            None => None,
        },
        charset: match &t.properties {
            Some(p) => clone_opt_string(&p.encoding),
            None => None,
        },
        attributes,
        container: clone_opt_string(container),
        file_size: clone_opt_string(file_size),
    }
}

/// Normalize a Matroska-analyzer report: keep the tracks of the requested
/// kind (matched case-insensitively; subtitles under both spellings) and map
/// each into the canonical track schema, in report order.
pub fn parse_matroska_report(report: &MatroskaReport, kind: &str) -> (r: TrackParseResponse)
    ensures
        tracks_model(r.tracks@) == matroska_models(*report, lower_spec(kind@)),
{
    let kind_l = lower_string(kind);
    let container = clone_opt_string(&report.container_type);
    let file_size: Option<String> = match &report.file_size {
        Some(b) => Some(format_bytes_readable(*b)),
        None => None,
    };
    let ghost f = |t: MatroskaTrack|
        if matroska_keep(t, kind_l@) {
            Some(
                matroska_model(
                    t,
                    kind_l@,
                    opt_view(report.container_type),
                    matroska_file_size(*report),
                ),
            )
        } else {
            None
        };
    let is_sub = str_eq(kind_l.as_str(), "subtitle");
    let mut out: Vec<TrackInfoResponse> = Vec::new();
    let n = report.tracks.len();
    for i in 0..n
        invariant
            n == report.tracks@.len(),
            kind_l@ == lower_spec(kind@),
            is_sub == (kind_l@ == "subtitle"@),
            opt_view(container) == opt_view(report.container_type),
            opt_view(file_size) == matroska_file_size(*report),
            f == (|t: MatroskaTrack|
                if matroska_keep(t, kind_l@) {
                    Some(
                        matroska_model(
                            t,
                            kind_l@,
                            opt_view(report.container_type),
                            matroska_file_size(*report),
                        ),
                    )
                } else {
                    None
                }),
            tracks_model(out@) =~= report.tracks@.take(i as int).filter_map(f),
    {
        let t = &report.tracks[i];
        let keep: bool = match &t.track_type {
            Some(s) => {
                if is_sub {
                    str_eq(s.as_str(), "subtitles") || str_eq(s.as_str(), "subtitle")
                } else {
                    str_eq(s.as_str(), kind_l.as_str())
                }
            },
            None => {
                if is_sub {
                    false
                } else {
                    kind_l.as_str().unicode_len() == 0
                }
            },
        };
        proof {
            if t.track_type is None {
                assert(keep == matroska_keep(*t, kind_l@)) by {
                    reveal_strlit("subtitles");
                    reveal_strlit("subtitle");
                    if kind_l@.len() == 0 {
                        assert(Seq::<char>::empty() =~= kind_l@);
                    }
                }
            }
            assert(keep == matroska_keep(*t, kind_l@));
        }
        if keep {
            let info = matroska_track_info(t, kind_l.as_str(), &container, &file_size);
            out.push(info);
        }
        proof {
            report.tracks@.lemma_filter_map_take_succ(f, i as int);
            assert(tracks_model(out@) =~= report.tracks@.take(i + 1).filter_map(f));
        }
    }
    proof {
        assert(report.tracks@.take(n as int) =~= report.tracks@);
    }
    TrackParseResponse { tracks: out }
}

/// Whether a generic stream is kept: its type must equal the requested
/// (lowercased) kind exactly.
pub open spec fn generic_keep(s: GenericStream, kind: Seq<char>) -> bool {
    opt_view(s.codec_type) == Some(kind)
}

/// The normalized form of one kept generic stream.
pub open spec fn generic_model(
    s: GenericStream,
    container: Option<Seq<char>>,
    file_size: Option<Seq<char>>,
) -> TrackModel {
    let lang = match s.tags {
        Some(t) => opt_view(t.language),
        None => None,
    };
    TrackModel {
        track_id: dec_spec(
            match s.index {
                Some(i) => i as nat,
                None => 0,
            },
        ),
        codec: match s.codec_name {
            Some(c) => c@,
            None => "unknown"@,
        },
        lang: lang,
        language_name: match lang {
            Some(l) => language_name_spec(l),
            None => None,
        },
        track_name: match s.tags {
            Some(t) => opt_view(t.title),
            None => None,
        },
        is_default: match s.disposition {
            Some(d) => match d.default_flag {
                Some(v) => Some(v == 1),
                None => None,
            },
            None => None,
        },
        is_forced: match s.disposition {
            Some(d) => match d.forced_flag {
                Some(v) => Some(v == 1),
                None => None,
            },
            None => None,
        },
        charset: match s.tags {
            Some(t) => if t.charset is Some {
                opt_view(t.charset)
            } else {
                opt_view(t.encoding)
            },
            None => None,
        },
        attributes: generic_attributes_spec(s),
        container: container,
        file_size: file_size,
    }
}

/// The rendered file size of a generic report: its size field parsed as a
/// decimal byte count, when that succeeds.
pub open spec fn generic_file_size(r: GenericReport) -> Option<Seq<char>> {
    match r.size {
        Some(s) => match parse_u64_spec(s@) {
            Some(b) => Some(format_bytes_spec(b as nat)),
            None => None,
        },
        None => None,
    }
}

/// All normalized tracks of a generic report for a (lowercased) kind, in
/// report order.
pub open spec fn generic_models(r: GenericReport, kind: Seq<char>) -> Seq<TrackModel> {
    r.streams@.filter_map(
        |s: GenericStream|
            if generic_keep(s, kind) {
                Some(generic_model(s, opt_view(r.format_name), generic_file_size(r)))
            } else {
                None
            },
    )
}

fn generic_track_info(
    s: &GenericStream,
    container: &Option<String>,
    file_size: &Option<String>,
) -> (r: TrackInfoResponse)
    ensures
        r@ == generic_model(*s, opt_view(*container), opt_view(*file_size)),
{
    let lang: Option<String> = match &s.tags {
        Some(t) => clone_opt_string(&t.language),
        None => None,
    };
    let language_name: Option<String> = match &lang {
        Some(l) => map_language_name(l.as_str()),
        None => None,
    };
    TrackInfoResponse {
        track_id: u32_to_dec(
            match &s.index {
                Some(i) => *i,
                None => 0,
            },
        ),
        codec: match &s.codec_name {
            Some(c) => c.clone(),
            None => lit_string("unknown"),
        },
        lang,
        language_name,
        track_name: match &s.tags {
            Some(t) => clone_opt_string(&t.title),
            None => None,
        },
        is_default: match &s.disposition {
            Some(d) => match d.default_flag {
                Some(v) => Some(v == 1),
                None => None,
            },
            None => None,
        },
        is_forced: match &s.disposition {
            Some(d) => match d.forced_flag {
                Some(v) => Some(v == 1),
                None => None,
            },
            None => None,
        },
        charset: match &s.tags {
            Some(t) => match &t.charset {
                Some(c) => Some(c.clone()),
                None => clone_opt_string(&t.encoding),
            },
            None => None,
        },
        attributes: build_attributes(s),
        container: clone_opt_string(container),
        file_size: clone_opt_string(file_size),
    }
}

/// Normalize a generic-analyzer report: keep the streams whose type equals
/// the requested kind (matched case-insensitively) and map each into the
/// canonical track schema, in report order.
pub fn parse_generic_report(report: &GenericReport, kind: &str) -> (r: TrackParseResponse)
    ensures
        tracks_model(r.tracks@) == generic_models(*report, lower_spec(kind@)),
{
    let kind_l = lower_string(kind);
    let container = clone_opt_string(&report.format_name);
    let file_size: Option<String> = match &report.size {
        Some(s) => match parse_u64(s.as_str()) {
            Some(b) => Some(format_bytes_readable(b)),
            None => None,
        },
        None => None,
    };
    let ghost f = |s: GenericStream|
        if generic_keep(s, kind_l@) {
            Some(generic_model(s, opt_view(report.format_name), generic_file_size(*report)))
        } else {
            None
        };
    let mut out: Vec<TrackInfoResponse> = Vec::new();
    let n = report.streams.len();
    for i in 0..n
        invariant
            n == report.streams@.len(),
            kind_l@ == lower_spec(kind@),
            opt_view(container) == opt_view(report.format_name),
            opt_view(file_size) == generic_file_size(*report),
            f == (|s: GenericStream|
                if generic_keep(s, kind_l@) {
                    Some(
                        generic_model(s, opt_view(report.format_name), generic_file_size(*report)),
                    )
                } else {
                    None
                }),
            tracks_model(out@) =~= report.streams@.take(i as int).filter_map(f),
    {
        let s = &report.streams[i];
        let keep: bool = match &s.codec_type {
            Some(ct) => str_eq(ct.as_str(), kind_l.as_str()),
            None => false,
        };
        proof {
            assert(keep == generic_keep(*s, kind_l@));
        }
        if keep {
            let info = generic_track_info(s, &container, &file_size);
            out.push(info);
        }
        proof {
            report.streams@.lemma_filter_map_take_succ(f, i as int);
            assert(tracks_model(out@) =~= report.streams@.take(i + 1).filter_map(f));
        }
    }
    proof {
        assert(report.streams@.take(n as int) =~= report.streams@);
    }
    TrackParseResponse { tracks: out }
}

} // verus!
