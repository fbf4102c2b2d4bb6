//! Reading ffprobe's JSON report of a recording into [`MediaInfo`].
//!
//! The report is decoded from text elsewhere into the plain records below; what this module
//! decides is which stream is the video, how audio streams are numbered, and how the decimal
//! and rational fields become integer units.

use vstd::prelude::*;
use vstd::string::StrSliceExecFns;
use crate::media::{opt_seq, AudioStreamInfo, AudioStreamModel, MediaInfo, MediaModel};
use crate::numbers::{parse_decimal, parse_decimal_spec, parse_decimal_trimmed, round_div, round_div_i128};
use crate::text::{chars_of, first_where, lemma_first_where_prefix, lemma_first_where_step, lemma_split_on_len, parse_i64, parse_i64_spec, split_chars, split_on, str_eq, string_from, trim_str, trim_ws};

verus! {

/// A single stream entry as produced by `ffprobe -show_streams -print_format json`.
/// `tags` holds the stream's tag map as pairs in report order; no key occurs twice in a
/// well-formed stream (see [`stream_wf`]).
#[derive(Debug, Clone, PartialEq, Eq)]
pub struct FfprobeStream {
    pub index: i64,
    pub codec_type: Option<String>,
    pub codec_name: Option<String>,
    pub width: Option<i64>,
    pub height: Option<i64>,
    pub channels: Option<i64>,
    pub r_frame_rate: Option<String>,
    pub avg_frame_rate: Option<String>,
    pub tags: Option<Vec<(String, String)>>,
}

pub struct FfprobeStreamModel {
    pub index: i64,
    pub codec_type: Option<Seq<char>>,
    pub codec_name: Option<Seq<char>>,
    pub width: Option<i64>,
    pub height: Option<i64>,
    pub channels: Option<i64>,
    pub r_frame_rate: Option<Seq<char>>,
    pub avg_frame_rate: Option<Seq<char>>,
    pub tags: Option<Seq<(Seq<char>, Seq<char>)>>,
}

pub open spec fn pairs_model(v: Seq<(String, String)>) -> Seq<(Seq<char>, Seq<char>)> {
    Seq::new(v.len(), |i: int| (v[i].0@, v[i].1@))
}

pub open spec fn tags_model(t: Option<Vec<(String, String)>>) -> Option<Seq<(Seq<char>, Seq<char>)>> {
    match t {
        Some(v) => Some(pairs_model(v@)),
        None => None,
    }
}

impl View for FfprobeStream {
    type V = FfprobeStreamModel;

    open spec fn view(&self) -> FfprobeStreamModel {
        FfprobeStreamModel {
            index: self.index,
            codec_type: opt_seq(self.codec_type),
            codec_name: opt_seq(self.codec_name),
            width: self.width,
            height: self.height,
            channels: self.channels,
            r_frame_rate: opt_seq(self.r_frame_rate),
            avg_frame_rate: opt_seq(self.avg_frame_rate),
            tags: tags_model(self.tags),
        }
    }
}

impl Default for FfprobeStream {
    fn default() -> (r: Self)
        ensures
            r.index == 0,
            r.codec_type is None,
            r.codec_name is None,
            r.width is None,
            r.height is None,
            r.channels is None,
            r.r_frame_rate is None,
            r.avg_frame_rate is None,
            r.tags is None,
    {
        FfprobeStream {
            index: 0,
            codec_type: None,
            codec_name: None,
            width: None,
            height: None,
            channels: None,
            r_frame_rate: None,
            avg_frame_rate: None,
            tags: None,
        }
    }
}

#[derive(Debug, Clone, PartialEq, Eq)]
pub struct FfprobeFormat {
    pub duration: Option<String>,
    pub size: Option<String>,
}

pub struct FfprobeFormatModel {
    pub duration: Option<Seq<char>>,
    pub size: Option<Seq<char>>,
}

impl View for FfprobeFormat {
    type V = FfprobeFormatModel;

    open spec fn view(&self) -> FfprobeFormatModel {
        FfprobeFormatModel { duration: opt_seq(self.duration), size: opt_seq(self.size) }
    }
}

impl Default for FfprobeFormat {
    fn default() -> (r: Self)
        ensures
            r.duration is None,
            r.size is None,
    {
        FfprobeFormat { duration: None, size: None }
    }
}

/// The relevant subset of ffprobe's JSON output.
#[derive(Debug, Clone, PartialEq, Eq)]
pub struct FfprobeOutput {
    pub streams: Option<Vec<FfprobeStream>>,
    pub format: Option<FfprobeFormat>,
}

pub struct FfprobeOutputModel {
    pub streams: Option<Seq<FfprobeStreamModel>>,
    pub format: Option<FfprobeFormatModel>,
}

pub open spec fn streams_model(v: Seq<FfprobeStream>) -> Seq<FfprobeStreamModel> {
    Seq::new(v.len(), |i: int| v[i]@)
}

impl View for FfprobeOutput {
    type V = FfprobeOutputModel;

    open spec fn view(&self) -> FfprobeOutputModel {
        FfprobeOutputModel {
            streams: match self.streams {
                Some(v) => Some(streams_model(v@)),
                None => None,
            },
            format: match self.format {
                Some(f) => Some(f@),
                None => None,
            },
        }
    }
}

impl Default for FfprobeOutput {
    fn default() -> (r: Self)
        ensures
            r.streams is None,
            r.format is None,
    {
        FfprobeOutput { streams: None, format: None }
    }
}

/// No two tag pairs share a key: the tags are a map.
pub open spec fn distinct_keys(ps: Seq<(Seq<char>, Seq<char>)>) -> bool {
    forall|i: int, j: int| 0 <= i < j < ps.len() ==> (#[trigger] ps[i]).0 != (#[trigger] ps[j]).0
}

/// A well-formed stream: its tags, where present, have distinct keys.
pub open spec fn stream_wf(s: FfprobeStreamModel) -> bool {
    match s.tags {
        Some(ps) => distinct_keys(ps),
        None => true,
    }
}

/// A well-formed report: every stream is well formed.
pub open spec fn output_wf(d: FfprobeOutputModel) -> bool {
    match d.streams {
        Some(ss) => streams_wf(ss),
        None => true,
    }
}

pub open spec fn streams_wf(ss: Seq<FfprobeStreamModel>) -> bool {
    forall|i: int| 0 <= i < ss.len() ==> stream_wf(#[trigger] ss[i])
}

proof fn lemma_output_wf(d: FfprobeOutputModel, sm: Seq<FfprobeStreamModel>, i: int)
    requires
        d.streams == Some(sm),
        0 <= i < sm.len(),
        output_wf(d),
    ensures
        stream_wf(sm[i]),
{
    assert(streams_wf(sm));
}

fn tags_distinct(ps: &Vec<(String, String)>) -> (r: bool)
    ensures
        r == distinct_keys(pairs_model(ps@)),
{
    let ghost m = pairs_model(ps@);
    let mut j: usize = 0;
    while j < ps.len()
        invariant
            j <= ps.len(),
            m == pairs_model(ps@),
            forall|a: int, b: int| 0 <= a < b < j ==> (#[trigger] m[a]).0 != (#[trigger] m[b]).0,
        decreases ps.len() - j,
    {
        let mut i: usize = 0;
        while i < j
            invariant
                i <= j < ps.len(),
                m == pairs_model(ps@),
                forall|a: int| 0 <= a < i ==> (#[trigger] m[a]).0 != m[j as int].0,
            decreases j - i,
        {
            if crate::text::str_eq(ps[i].0.as_str(), ps[j].0.as_str()) {
                assert(m[i as int].0 == m[j as int].0);
                return false;
            }
            i += 1;
        }
        j += 1;
    }
    true
}

/// Whether a report is well formed (see [`output_wf`]).
pub fn ffprobe_output_wf(data: &FfprobeOutput) -> (r: bool)
    ensures
        r == output_wf(data@),
{
    match &data.streams {
        None => true,
        Some(ss) => {
            let ghost sm = streams_model(ss@);
            assert(data@.streams == Some(sm));
            let mut i: usize = 0;
            while i < ss.len()
                invariant
                    i <= ss.len(),
                    sm == streams_model(ss@),
                    data@.streams == Some(sm),
                    forall|k: int| 0 <= k < i ==> stream_wf(#[trigger] sm[k]),
                decreases ss.len() - i,
            {
                assert(sm.len() == ss@.len());
                assert(sm[i as int] == ss@[i as int]@);
                match &ss[i].tags {
                    Some(ps) => {
                        if !tags_distinct(ps) {
                            assert(sm[i as int].tags == Some(pairs_model(ps@)));
                            assert(!stream_wf(sm[i as int]));
                            assert(!(forall|k: int| 0 <= k < sm.len() ==> stream_wf(#[trigger] sm[k])));
                            proof {
                                if output_wf(data@) {
                                    lemma_output_wf(data@, sm, i as int);
                                }
                            }
                            return false;
                        }
                    },
                    None => {},
                }
                i += 1;
            }
            assert(data@.streams == Some(sm));
            true
        },
    }
}

/// The ffprobe argument list that produces parseable JSON for a file.
pub open spec fn probe_args_spec(input: Seq<char>) -> Seq<Seq<char>> {
    seq!["-v"@, "error"@, "-print_format"@, "json"@, "-show_format"@, "-show_streams"@, input]
}

/// Build the ffprobe argument list that produces parseable JSON for a file.
pub fn build_probe_args(input_path: &str) -> (r: Vec<String>)
    ensures
        r@.len() == 7,
        forall|i: int| 0 <= i < 7 ==> #[trigger] r@[i]@ == probe_args_spec(input_path@)[i],
{
    let mut v: Vec<String> = Vec::new();
    v.push("-v".to_string());
    v.push("error".to_string());
    v.push("-print_format".to_string());
    v.push("json".to_string());
    v.push("-show_format".to_string());
    v.push("-show_streams".to_string());
    v.push(input_path.to_string());
    v
}

/// One field of a rate, in millionths: blank text is 0, a finite number (exponent forms
/// included) is its value, anything else is not a number (`None`).
pub open spec fn js_number_micros(s: Seq<char>) -> Option<int> {
    let t = trim_ws(s);
    if t.len() == 0 {
        Some(0)
    } else {
        match parse_decimal_spec(t, 6) {
            Some(x) => Some(x as int),
            None => None,
        }
    }
}

pub open spec fn in_i64(x: int) -> bool {
    i64::MIN <= x <= i64::MAX
}

/// A frame rate such as `30000/1001`, in thousandths of a frame per second, rounded to the
/// nearest: empty text is 0; a numerator that is not a number gives 0; a missing, unreadable
/// or zero denominator gives the numerator itself. A quotient outside `i64` gives 0.
pub open spec fn frame_rate_milli(rate: Seq<char>) -> i64 {
    if rate.len() == 0 {
        0
    } else {
        let parts = split_on(rate, '/');
        let num = js_number_micros(parts[0]);
        let den = if parts.len() > 1 {
            js_number_micros(parts[1])
        } else {
            None
        };
        match num {
            None => 0,
            Some(n) => if den is Some && den->0 != 0 {
                let q = round_div(n * 1000, den->0);
                if in_i64(q) {
                    q as i64
                } else {
                    0
                }
            } else {
                round_div(n, 1000) as i64
            },
        }
    }
}

pub open spec fn frame_rate_opt(rate: Option<Seq<char>>) -> i64 {
    match rate {
        Some(r) => frame_rate_milli(r),
        None => 0,
    }
}

fn js_number(s: &str) -> (r: Option<i64>)
    ensures
        r == (match js_number_micros(s@) {
            Some(x) => Some(x as i64),
            None => None,
        }),
{
    let t = trim_str(s);
    if t.len() == 0 {
        Some(0)
    } else {
        parse_decimal(&t, 6)
    }
}

/// Convert an ffmpeg rational frame rate like `30000/1001` into thousandths of a frame per
/// second (see [`frame_rate_milli`]); no rate gives 0.
pub fn parse_frame_rate(rate: Option<&str>) -> (r: i64)
    ensures
        r == frame_rate_opt(match rate {
            Some(s) => Some(s@),
            None => None,
        }),
{
    let text = match rate {
        Some(t) => t,
        None => {
            return 0;
        },
    };
    let v = chars_of(text);
    if v.len() == 0 {
        return 0;
    }
    let parts = split_chars(&v, '/');
    proof {
        lemma_split_on_len(v@, '/');
    }
    let num = js_number(string_from(&parts[0]).as_str());
    let den = if parts.len() > 1 {
        js_number(string_from(&parts[1]).as_str())
    } else {
        None
    };
    match num {
        None => 0,
        Some(n) => {
            let d: i64 = match den {
                Some(d) => d,
                None => 0,
            };
            if d != 0 {
                let q = round_div_i128((n as i128) * 1000, d as i128);
                if -9223372036854775808i128 <= q && q <= 9223372036854775807i128 {
                    q as i64
                } else {
                    0
                }
            } else {
                round_div_i128(n as i128, 1000) as i64
            }
        },
    }
}

// ---------------------------------------------------------------------------------------------
// From the report to `MediaInfo`
// ---------------------------------------------------------------------------------------------

pub open spec fn is_kind(s: FfprobeStreamModel, kind: Seq<char>) -> bool {
    s.codec_type == Some(kind)
}

pub open spec fn video_pred() -> spec_fn(FfprobeStreamModel) -> bool {
    |s: FfprobeStreamModel| is_kind(s, "video"@)
}

pub open spec fn key_pred(key: Seq<char>) -> spec_fn((Seq<char>, Seq<char>)) -> bool {
    |p: (Seq<char>, Seq<char>)| p.0 == key
}

/// The value of the first tag pair with this key.
pub open spec fn tag_value(tags: Option<Seq<(Seq<char>, Seq<char>)>>, key: Seq<char>) -> Option<Seq<char>> {
    match tags {
        Some(ps) => {
            let i = first_where(ps, key_pred(key));
            if i >= 0 {
                Some(ps[i].1)
            } else {
                None
            }
        },
        None => None,
    }
}

pub open spec fn or_zero(o: Option<i64>) -> i64 {
    match o {
        Some(x) => x,
        None => 0,
    }
}

pub open spec fn or_unknown(o: Option<Seq<char>>) -> Seq<char> {
    match o {
        Some(x) => x,
        None => "unknown"@,
    }
}

/// The `i`-th audio stream's description.
pub open spec fn audio_info(s: FfprobeStreamModel, i: i64) -> AudioStreamModel {
    AudioStreamModel {
        stream_index: s.index,
        index: i,
        codec: or_unknown(s.codec_name),
        channels: or_zero(s.channels),
        language: tag_value(s.tags, "language"@),
        title: tag_value(s.tags, "title"@),
    }
}

/// The audio streams, in report order, numbered from 0 among themselves.
pub open spec fn audio_streams_spec(ss: Seq<FfprobeStreamModel>) -> Seq<AudioStreamModel>
    decreases ss.len(),
{
    if ss.len() == 0 {
        Seq::empty()
    } else {
        let prev = audio_streams_spec(ss.drop_last());
        if is_kind(ss.last(), "audio"@) {
            prev.push(audio_info(ss.last(), prev.len() as i64))
        } else {
            prev
        }
    }
}

pub open spec fn stream_list(d: FfprobeOutputModel) -> Seq<FfprobeStreamModel> {
    match d.streams {
        Some(s) => s,
        None => Seq::empty(),
    }
}

/// The first stream whose type is `video`.
pub open spec fn video_of(d: FfprobeOutputModel) -> Option<FfprobeStreamModel> {
    let ss = stream_list(d);
    let i = first_where(ss, video_pred());
    if i >= 0 {
        Some(ss[i])
    } else {
        None
    }
}

/// `r_frame_rate`, or `avg_frame_rate` where that is absent.
pub open spec fn video_rate(v: Option<FfprobeStreamModel>) -> Option<Seq<char>> {
    match v {
        Some(s) => if s.r_frame_rate is Some {
            s.r_frame_rate
        } else {
            s.avg_frame_rate
        },
        None => None,
    }
}

/// The duration in microseconds: the format's seconds as a finite number (exponent forms
/// included), 0 when absent, empty or unreadable.
pub open spec fn duration_us_spec(f: Option<FfprobeFormatModel>) -> i64 {
    match f {
        Some(fm) => match fm.duration {
            Some(t) => if t.len() > 0 {
                match parse_decimal_spec(trim_ws(t), 6) {
                    Some(x) => x,
                    None => 0,
                }
            } else {
                0
            },
            None => 0,
        },
        None => 0,
    }
}

/// The file size: the format's integer text, when present, non-empty and readable.
pub open spec fn size_spec(f: Option<FfprobeFormatModel>) -> Option<i64> {
    match f {
        Some(fm) => match fm.size {
            Some(t) => if t.len() > 0 {
                parse_i64_spec(trim_ws(t))
            } else {
                None
            },
            None => None,
        },
        None => None,
    }
}

/// What a report says of the recording: the first video stream gives size, codec and rate
/// (0 and `unknown` without one), every audio stream is listed, the format gives duration
/// and file size.
pub open spec fn media_spec(d: FfprobeOutputModel) -> MediaModel {
    let v = video_of(d);
    MediaModel {
        duration_us: duration_us_spec(d.format),
        width: match v {
            Some(s) => or_zero(s.width),
            None => 0,
        },
        height: match v {
            Some(s) => or_zero(s.height),
            None => 0,
        },
        video_codec: match v {
            Some(s) => or_unknown(s.codec_name),
            None => "unknown"@,
        },
        fps_milli: frame_rate_opt(video_rate(v)),
        audio_streams: audio_streams_spec(stream_list(d)),
        size_bytes: size_spec(d.format),
    }
}

fn kind_is(s: &FfprobeStream, kind: &str) -> (r: bool)
    ensures
        r == is_kind(s@, kind@),
{
    match &s.codec_type {
        Some(t) => str_eq(t.as_str(), kind),
        None => false,
    }
}

fn text_or_unknown(o: &Option<String>) -> (r: String)
    ensures
        r@ == or_unknown(opt_seq(*o)),
{
    match o {
        Some(s) => s.clone(),
        None => "unknown".to_string(),
    }
}

fn tag_lookup(tags: &Option<Vec<(String, String)>>, key: &str) -> (r: Option<String>)
    ensures
        opt_seq(r) == tag_value(tags_model(*tags), key@),
{
    match tags {
        None => None,
        Some(ps) => {
            let ghost m = pairs_model(ps@);
            assert(tags_model(*tags) == Some(m));
            let mut i: usize = 0;
            while i < ps.len()
                invariant
                    i <= ps.len(),
                    m == pairs_model(ps@),
                    tags_model(*tags) == Some(m),
                    first_where(m.take(i as int), key_pred(key@)) == -1,
                decreases ps.len() - i,
            {
                proof {
                    lemma_first_where_step(m, i as int, key_pred(key@));
                }
                assert(m[i as int] == (ps@[i as int].0@, ps@[i as int].1@));
                if str_eq(ps[i].0.as_str(), key) {
                    proof {
                        lemma_first_where_prefix(m, i as int + 1, key_pred(key@));
                    }
                    let value = ps[i].1.clone();
                    assert(value@ == m[i as int].1);
                    return Some(value);
                }
                i += 1;
            }
            assert(m.take(ps.len() as int) =~= m);
            None
        },
    }
}

fn find_video(streams: &Vec<FfprobeStream>) -> (r: Option<usize>)
    ensures
        match r {
            Some(k) => k < streams.len() && k as int == first_where(streams_model(streams@), video_pred()),
            None => first_where(streams_model(streams@), video_pred()) == -1,
        },
{
    let ghost m = streams_model(streams@);
    let mut i: usize = 0;
    while i < streams.len()
        invariant
            i <= streams.len(),
            m == streams_model(streams@),
            first_where(m.take(i as int), video_pred()) == -1,
        decreases streams.len() - i,
    {
        proof {
            lemma_first_where_step(m, i as int, video_pred());
        }
        if kind_is(&streams[i], "video") {
            proof {
                lemma_first_where_prefix(m, i as int + 1, video_pred());
            }
            return Some(i);
        }
        i += 1;
    }
    assert(m.take(streams.len() as int) =~= m);
    None
}

fn audio_info_of(s: &FfprobeStream, i: i64) -> (r: AudioStreamInfo)
    ensures
        r@ == audio_info(s@, i),
{
    AudioStreamInfo {
        stream_index: s.index,
        index: i,
        codec: text_or_unknown(&s.codec_name),
        channels: match s.channels {
            Some(c) => c,
            None => 0,
        },
        language: tag_lookup(&s.tags, "language"),
        title: tag_lookup(&s.tags, "title"),
    }
}

pub open spec fn audio_models(v: Seq<AudioStreamInfo>) -> Seq<AudioStreamModel> {
    Seq::new(v.len(), |i: int| v[i]@)
}

fn collect_audio(streams: &Vec<FfprobeStream>) -> (r: Vec<AudioStreamInfo>)
    ensures
        audio_models(r@) == audio_streams_spec(streams_model(streams@)),
{
    let ghost m = streams_model(streams@);
    let mut out: Vec<AudioStreamInfo> = Vec::new();
    let mut i: usize = 0;
    while i < streams.len()
        invariant
            i <= streams.len(),
            m == streams_model(streams@),
            audio_models(out@) == audio_streams_spec(m.take(i as int)),
        decreases streams.len() - i,
    {
        assert(m.take(i as int + 1).drop_last() =~= m.take(i as int));
        assert(m.take(i as int + 1).last() == streams@[i as int]@);
        if kind_is(&streams[i], "audio") {
            let info = audio_info_of(&streams[i], out.len() as i64);
            out.push(info);
            assert(audio_models(out@) =~= audio_streams_spec(m.take(i as int + 1)));
        }
        i += 1;
    }
    assert(m.take(streams.len() as int) =~= m);
    out
}

fn duration_of(f: &Option<FfprobeFormat>) -> (r: i64)
    ensures
        r == duration_us_spec(match f {
            Some(x) => Some(x@),
            None => None,
        }),
{
    match f {
        Some(fm) => match &fm.duration {
            Some(t) => if t.as_str().unicode_len() > 0 {
                match parse_decimal_trimmed(t.as_str(), 6) {
                    Some(x) => x,
                    None => 0,
                }
            } else {
                0
            },
            None => 0,
        },
        None => 0,
    }
}

fn size_of(f: &Option<FfprobeFormat>) -> (r: Option<i64>)
    ensures
        r == size_spec(match f {
            Some(x) => Some(x@),
            None => None,
        }),
{
    match f {
        Some(fm) => match &fm.size {
            Some(t) => if t.as_str().unicode_len() > 0 {
                parse_i64(&trim_str(t.as_str()))
            } else {
                None
            },
            None => None,
        },
        None => None,
    }
}

/// Parse already-deserialized ffprobe output into a [`MediaInfo`] (see [`media_spec`]).
pub fn parse_ffprobe_output(data: &FfprobeOutput) -> (r: MediaInfo)
    requires
        output_wf(data@),
    ensures
        r@ == media_spec(data@),
{
    let empty: Vec<FfprobeStream> = Vec::new();
    let streams: &Vec<FfprobeStream> = match &data.streams {
        Some(s) => s,
        None => &empty,
    };
    assert(streams_model(streams@) =~= stream_list(data@));
    let video = find_video(streams);
    let audio_streams = collect_audio(streams);
    let (width, height, video_codec, fps_milli) = match video {
        Some(k) => {
            let v = &streams[k];
            let rate: Option<&str> = match &v.r_frame_rate {
                Some(r) => Some(r.as_str()),
                None => match &v.avg_frame_rate {
                    Some(a) => Some(a.as_str()),
                    None => None,
                },
            };
            (
                match v.width {
                    Some(w) => w,
                    None => 0,
                },
                match v.height {
                    Some(h) => h,
                    None => 0,
                },
                text_or_unknown(&v.codec_name),
                parse_frame_rate(rate),
            )
        },
        None => (0, 0, "unknown".to_string(), 0),
    };
    let r = MediaInfo {
        duration_us: duration_of(&data.format),
        width,
        height,
        video_codec,
        fps_milli,
        audio_streams,
        size_bytes: size_of(&data.format),
    };
    assert(r@.audio_streams =~= media_spec(data@).audio_streams);
    r
}

} // verus!
