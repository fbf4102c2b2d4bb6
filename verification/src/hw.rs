//! Hardware-encoder planning: maps the persisted quality model (designed around x264's
//! CRF/preset/bitrate) onto a hardware encoder plus its rate-control options, picking the first
//! encoder that actually opens on this machine (NVENC, then AMF, then QSV) through an injected
//! `usable` probe, so a vendor that is listed but unusable is skipped.
//!
//! The CRF to constant-quality mapping is intentionally approximate: the user's CRF is carried
//! straight through as the encoder's CQ/QP and per-vendor rate control does the rest.

use vstd::prelude::*;
use crate::args::{preset_crf, preset_crf_spec};
use crate::config::{OutputSettings, OutputSettingsModel, QualityMode, VideoCodecChoice};
use crate::text::{dec_i64, dec_int, str_eq, string_from};

verus! {

/// A resolved hardware-encode plan: which encoder to open, its private options, and bitrate caps.
#[derive(Debug, Clone, PartialEq, Eq)]
pub struct HwVideo {
    /// libavcodec encoder name, e.g. `"hevc_nvenc"`.
    pub encoder: String,
    /// 10-bit pixel format (`p010le`) required (HDR or a 10-bit source) vs 8-bit (`nv12`).
    pub ten_bit: bool,
    /// Encoder-private options: preset, rate-control mode, constant-quality level.
    pub opts: Vec<(&'static str, String)>,
    /// Target average bitrate (kbps), set when rate control uses a bitrate.
    pub bitrate_kbps: Option<i64>,
    /// Max bitrate cap (kbps) for constrained quality (CQ plus a ceiling).
    pub maxrate_kbps: Option<i64>,
}

pub struct HwVideoModel {
    pub encoder: Seq<char>,
    pub ten_bit: bool,
    pub opts: Seq<(Seq<char>, Seq<char>)>,
    pub bitrate_kbps: Option<i64>,
    pub maxrate_kbps: Option<i64>,
}

/// The option pairs as pairs of character sequences.
pub open spec fn opts_model(v: Seq<(&'static str, String)>) -> Seq<(Seq<char>, Seq<char>)> {
    Seq::new(v.len(), |i: int| (v[i].0@, v[i].1@))
}

impl View for HwVideo {
    type V = HwVideoModel;

    open spec fn view(&self) -> HwVideoModel {
        HwVideoModel {
            encoder: self.encoder@,
            ten_bit: self.ten_bit,
            opts: opts_model(self.opts@),
            bitrate_kbps: self.bitrate_kbps,
            maxrate_kbps: self.maxrate_kbps,
        }
    }
}

/// Hardware encoder families, in the order they are tried.
#[derive(Debug, Clone, Copy, PartialEq, Eq, Structural)]
pub enum Vendor {
    Nvenc,
    Amf,
    Qsv,
}

/// x264-style preset to NVENC `p1`..`p7` (p1 fastest, p7 slowest); anything else is `p5`.
pub open spec fn nvenc_preset_spec(x: Seq<char>) -> Seq<char> {
    if x == "ultrafast"@ || x == "superfast"@ {
        "p1"@
    } else if x == "veryfast"@ {
        "p2"@
    } else if x == "faster"@ {
        "p3"@
    } else if x == "fast"@ {
        "p4"@
    } else if x == "medium"@ {
        "p5"@
    } else if x == "slow"@ {
        "p6"@
    } else if x == "slower"@ || x == "veryslow"@ {
        "p7"@
    } else {
        "p5"@
    }
}

/// x264-style preset to the AMF `quality` usage bucket.
pub open spec fn amf_quality_spec(x: Seq<char>) -> Seq<char> {
    if x == "ultrafast"@ || x == "superfast"@ || x == "veryfast"@ || x == "faster"@ {
        "speed"@
    } else if x == "slow"@ || x == "slower"@ || x == "veryslow"@ {
        "quality"@
    } else {
        "balanced"@
    }
}

fn nvenc_preset(x264: &str) -> (r: &'static str)
    ensures
        r@ == nvenc_preset_spec(x264@),
{
    if str_eq(x264, "ultrafast") || str_eq(x264, "superfast") {
        "p1"
    } else if str_eq(x264, "veryfast") {
        "p2"
    } else if str_eq(x264, "faster") {
        "p3"
    } else if str_eq(x264, "fast") {
        "p4"
    } else if str_eq(x264, "medium") {
        "p5"
    } else if str_eq(x264, "slow") {
        "p6"
    } else if str_eq(x264, "slower") || str_eq(x264, "veryslow") {
        "p7"
    } else {
        "p5"
    }
}

fn amf_quality(x264: &str) -> (r: &'static str)
    ensures
        r@ == amf_quality_spec(x264@),
{
    if str_eq(x264, "ultrafast") || str_eq(x264, "superfast") || str_eq(x264, "veryfast")
        || str_eq(x264, "faster") {
        "speed"
    } else if str_eq(x264, "slow") || str_eq(x264, "slower") || str_eq(x264, "veryslow") {
        "quality"
    } else {
        "balanced"
    }
}

/// The quality model as `(constant quality, bitrate kbps)`, either of which may be unset.
pub open spec fn quality_intent_spec(s: OutputSettingsModel) -> (Option<i64>, Option<i64>) {
    match s.quality_mode {
        QualityMode::Bitrate => (None, Some(s.video_bitrate_kbps)),
        QualityMode::Vbr => (Some(s.crf), Some(s.video_bitrate_kbps)),
        QualityMode::Crf => (Some(s.crf), None),
        QualityMode::Preset => (Some(preset_crf_spec(s.quality_preset)), None),
    }
}

fn quality_intent(s: &OutputSettings) -> (r: (Option<i64>, Option<i64>))
    ensures
        r == quality_intent_spec(s@),
{
    match s.quality_mode {
        QualityMode::Bitrate => (None, Some(s.video_bitrate_kbps)),
        QualityMode::Vbr => (Some(s.crf), Some(s.video_bitrate_kbps)),
        QualityMode::Crf => (Some(s.crf), None),
        QualityMode::Preset => (Some(preset_crf(s.quality_preset)), None),
    }
}

/// Per-vendor rate control: `(private options, average bitrate, max bitrate)`.
pub open spec fn rate_control_spec(vendor: Vendor, s: OutputSettingsModel) -> (
    Seq<(Seq<char>, Seq<char>)>,
    Option<i64>,
    Option<i64>,
) {
    let (cq, bitrate) = quality_intent_spec(s);
    match vendor {
        Vendor::Nvenc => {
            let head = seq![("preset"@, nvenc_preset_spec(s.encoder_preset))];
            match (cq, bitrate) {
                (Some(c), Some(b)) => (
                    head + seq![("rc"@, "vbr"@), ("cq"@, dec_int(c as int))],
                    None,
                    Some(b),
                ),
                (Some(c), None) => (head + seq![("rc"@, "vbr"@), ("cq"@, dec_int(c as int))], None, None),
                (None, Some(b)) => (head + seq![("rc"@, "vbr"@)], Some(b), None),
                (None, None) => (head, None, None),
            }
        },
        Vendor::Amf => {
            let head = seq![("quality"@, amf_quality_spec(s.encoder_preset))];
            match (cq, bitrate) {
                (Some(c), _) => (
                    head + seq![
                        ("rc"@, "cqp"@),
                        ("qp_i"@, dec_int(c as int)),
                        ("qp_p"@, dec_int(c as int)),
                    ],
                    None,
                    bitrate,
                ),
                (None, Some(b)) => (head + seq![("rc"@, "vbr_peak"@)], Some(b), None),
                (None, None) => (head, None, None),
            }
        },
        Vendor::Qsv => match (cq, bitrate) {
            (Some(c), _) => (seq![("global_quality"@, dec_int(c as int))], None, bitrate),
            (None, Some(b)) => (Seq::empty(), Some(b), None),
            (None, None) => (Seq::empty(), None, None),
        },
    }
}

fn int_text(i: i64) -> (r: String)
    ensures
        r@ == dec_int(i as int),
{
    string_from(&dec_i64(i))
}

fn rate_control(vendor: Vendor, s: &OutputSettings) -> (r: (Vec<(&'static str, String)>, Option<i64>, Option<i64>))
    ensures
        (opts_model(r.0@), r.1, r.2) == rate_control_spec(vendor, s@),
{
    let (cq, bitrate) = quality_intent(s);
    let mut opts: Vec<(&'static str, String)> = Vec::new();
    let mut br: Option<i64> = None;
    let mut maxr: Option<i64> = None;
    match vendor {
        Vendor::Nvenc => {
            opts.push(("preset", nvenc_preset(s.encoder_preset.as_str()).to_string()));
            match (cq, bitrate) {
                (Some(c), Some(b)) => {
                    opts.push(("rc", "vbr".to_string()));
                    opts.push(("cq", int_text(c)));
                    maxr = Some(b);
                },
                (Some(c), None) => {
                    opts.push(("rc", "vbr".to_string()));
                    opts.push(("cq", int_text(c)));
                },
                (None, Some(b)) => {
                    opts.push(("rc", "vbr".to_string()));
                    br = Some(b);
                },
                (None, None) => {},
            }
        },
        Vendor::Amf => {
            opts.push(("quality", amf_quality(s.encoder_preset.as_str()).to_string()));
            match (cq, bitrate) {
                (Some(c), _) => {
                    opts.push(("rc", "cqp".to_string()));
                    opts.push(("qp_i", int_text(c)));
                    opts.push(("qp_p", int_text(c)));
                    maxr = bitrate;
                },
                (None, Some(b)) => {
                    opts.push(("rc", "vbr_peak".to_string()));
                    br = Some(b);
                },
                (None, None) => {},
            }
        },
        Vendor::Qsv => match (cq, bitrate) {
            (Some(c), _) => {
                opts.push(("global_quality", int_text(c)));
                maxr = bitrate;
            },
            (None, Some(b)) => {
                br = Some(b);
            },
            (None, None) => {},
        },
    }
    assert(opts_model(opts@) =~= rate_control_spec(vendor, s@).0);
    (opts, br, maxr)
}

/// HEVC is required for a 10-bit output (NVENC H.264 has no 10-bit profile) or when chosen.
pub open spec fn wants_hevc(s: OutputSettingsModel, ten_bit: bool) -> bool {
    ten_bit || s.video_codec == VideoCodecChoice::Libx265
}

/// The `i`-th encoder tried (0: NVENC, 1: AMF, 2: QSV) for the codec family.
pub open spec fn candidate_name(hevc: bool, i: int) -> Seq<char> {
    if hevc {
        if i == 0 {
            "hevc_nvenc"@
        } else if i == 1 {
            "hevc_amf"@
        } else {
            "hevc_qsv"@
        }
    } else {
        if i == 0 {
            "h264_nvenc"@
        } else if i == 1 {
            "h264_amf"@
        } else {
            "h264_qsv"@
        }
    }
}

pub open spec fn candidate_vendor(i: int) -> Vendor {
    if i == 0 {
        Vendor::Nvenc
    } else if i == 1 {
        Vendor::Amf
    } else {
        Vendor::Qsv
    }
}

/// The plan for settings when the `i`-th candidate is the encoder that opened.
pub open spec fn hw_plan_spec(s: OutputSettingsModel, ten_bit: bool, i: int) -> HwVideoModel {
    let rc = rate_control_spec(candidate_vendor(i), s);
    HwVideoModel {
        encoder: candidate_name(wants_hevc(s, ten_bit), i),
        ten_bit,
        opts: rc.0,
        bitrate_kbps: rc.1,
        maxrate_kbps: rc.2,
    }
}

fn candidate(hevc: bool, i: usize) -> (r: &'static str)
    requires
        i < 3,
    ensures
        r@ == candidate_name(hevc, i as int),
{
    if hevc {
        if i == 0 {
            "hevc_nvenc"
        } else if i == 1 {
            "hevc_amf"
        } else {
            "hevc_qsv"
        }
    } else {
        if i == 0 {
            "h264_nvenc"
        } else if i == 1 {
            "h264_amf"
        } else {
            "h264_qsv"
        }
    }
}

/// The plan for these settings once the `index`-th candidate encoder (0: NVENC, 1: AMF, 2: QSV)
/// has been found usable.
pub fn plan_for_candidate(s: &OutputSettings, ten_bit: bool, index: usize) -> (r: HwVideo)
    requires
        index < 3,
    ensures
        r@ == hw_plan_spec(s@, ten_bit, index as int),
{
    let hevc = ten_bit || s.video_codec == VideoCodecChoice::Libx265;
    let vendor = if index == 0 {
        Vendor::Nvenc
    } else if index == 1 {
        Vendor::Amf
    } else {
        Vendor::Qsv
    };
    let (opts, bitrate_kbps, maxrate_kbps) = rate_control(vendor, s);
    HwVideo { encoder: candidate(hevc, index).to_string(), ten_bit, opts, bitrate_kbps, maxrate_kbps }
}

/// The probe answered `answer` when asked about an encoder with this name.
pub open spec fn probe_said<F: Fn(&str) -> bool>(usable: F, name: Seq<char>, answer: bool) -> bool {
    exists|n: &str| n@ == name && #[trigger] call_ensures(usable, (n,), answer)
}

/// The plan viewed as a value.
pub open spec fn plan_view(r: Option<HwVideo>) -> Option<HwVideoModel> {
    match r {
        Some(p) => Some(p@),
        None => None,
    }
}

/// What [`plan_hw_video`] returns for a probe: the plan for a candidate the probe accepted,
/// every earlier candidate refused; `None` only when the probe refused all three.
pub open spec fn plan_outcome<F: Fn(&str) -> bool>(s: OutputSettingsModel, ten_bit: bool, usable: F, r: Option<HwVideoModel>) -> bool {
    match r {
        Some(p) => exists|i: int|
            0 <= i < 3 && p == hw_plan_spec(s, ten_bit, i) && probe_said(
                usable,
                candidate_name(wants_hevc(s, ten_bit), i),
                true,
            ) && forall|j: int|
                0 <= j < i ==> probe_said(usable, #[trigger] candidate_name(wants_hevc(s, ten_bit), j), false),
        None => forall|j: int|
            0 <= j < 3 ==> probe_said(usable, #[trigger] candidate_name(wants_hevc(s, ten_bit), j), false),
    }
}

/// The first of the three candidates (NVENC, AMF, QSV) that `usable` accepts, from `from` on;
/// 3 when none does.
pub open spec fn first_usable(hevc: bool, usable: spec_fn(Seq<char>) -> bool, from: int) -> int
    decreases 3 - from,
{
    if from >= 3 {
        3
    } else if usable(candidate_name(hevc, from)) {
        from
    } else {
        first_usable(hevc, usable, from + 1)
    }
}

/// The plan for the first usable candidate, `None` when none is usable.
pub open spec fn first_usable_plan(s: OutputSettingsModel, ten_bit: bool, usable: spec_fn(Seq<char>) -> bool) -> Option<HwVideoModel> {
    let k = first_usable(wants_hevc(s, ten_bit), usable, 0);
    if k < 3 {
        Some(hw_plan_spec(s, ten_bit, k))
    } else {
        None
    }
}

/// With a probe that answers every name by a fixed predicate, the plan is the one for the first
/// candidate (NVENC, then AMF, then QSV) the predicate accepts, carrying the asked bit depth,
/// and `None` exactly when it accepts none.
pub proof fn law_plan_is_first_usable<F: Fn(&str) -> bool>(
    s: OutputSettingsModel,
    ten_bit: bool,
    usable: F,
    pred: spec_fn(Seq<char>) -> bool,
    r: Option<HwVideoModel>,
)
    requires
        forall|n: &str, b: bool| #[trigger] call_ensures(usable, (n,), b) ==> b == pred(n@),
        plan_outcome(s, ten_bit, usable, r),
    ensures
        r == first_usable_plan(s, ten_bit, pred),
        r matches Some(p) ==> p.ten_bit == ten_bit,
        r is None <==> (forall|j: int| 0 <= j < 3 ==> !pred(#[trigger] candidate_name(wants_hevc(s, ten_bit), j))),
{
    let hevc = wants_hevc(s, ten_bit);
    assert forall|j: int, b: bool| #[trigger] probe_said(usable, candidate_name(hevc, j), b) implies pred(
        candidate_name(hevc, j),
    ) == b by {
        let n = choose|n: &str| n@ == candidate_name(hevc, j) && #[trigger] call_ensures(usable, (n,), b);
    }
    match r {
        Some(p) => {
            let i = choose|i: int|
                0 <= i < 3 && p == hw_plan_spec(s, ten_bit, i) && probe_said(usable, candidate_name(hevc, i), true)
                    && forall|j: int| 0 <= j < i ==> probe_said(usable, #[trigger] candidate_name(hevc, j), false);
            assert(pred(candidate_name(hevc, i)));
            assert forall|j: int| 0 <= j < i implies !pred(#[trigger] candidate_name(hevc, j)) by {
                assert(probe_said(usable, candidate_name(hevc, j), false));
            }
            if i == 0 {
                assert(first_usable(hevc, pred, 0) == 0);
            } else if i == 1 {
                assert(!pred(candidate_name(hevc, 0)));
                assert(first_usable(hevc, pred, 1) == 1);
                assert(first_usable(hevc, pred, 0) == 1);
            } else {
                assert(!pred(candidate_name(hevc, 0)));
                assert(!pred(candidate_name(hevc, 1)));
                assert(first_usable(hevc, pred, 2) == 2);
                assert(first_usable(hevc, pred, 1) == 2);
                assert(first_usable(hevc, pred, 0) == 2);
            }
            assert(hw_plan_spec(s, ten_bit, i).ten_bit == ten_bit);
        },
        None => {
            assert(!pred(candidate_name(hevc, 0)) && !pred(candidate_name(hevc, 1)) && !pred(candidate_name(hevc, 2))) by {
                assert(probe_said(usable, candidate_name(hevc, 0), false));
                assert(probe_said(usable, candidate_name(hevc, 1), false));
                assert(probe_said(usable, candidate_name(hevc, 2), false));
            }
            assert(first_usable(hevc, pred, 3) == 3);
            assert(first_usable(hevc, pred, 2) == 3);
            assert(first_usable(hevc, pred, 1) == 3);
            assert(first_usable(hevc, pred, 0) == 3);
        },
    }
    if r is Some {
        let i = first_usable(hevc, pred, 0);
        assert(i < 3);
        assert(pred(candidate_name(hevc, i))) by {
            if i == 0 {} else if i == 1 {} else {}
        }
    }
}

/// Plan a hardware video encode for these settings. `ten_bit` (HDR or a 10-bit source) forces
/// HEVC. `usable(name)` reports whether an encoder actually opens on this machine; candidates
/// are asked in order (NVENC, AMF, QSV) and the first usable one is planned. `None` when no
/// hardware encoder is usable, so the caller can keep the software path.
pub fn plan_hw_video<F: Fn(&str) -> bool>(s: &OutputSettings, ten_bit: bool, usable: F) -> (r: Option<HwVideo>)
    requires
        forall|n: &str| call_requires(usable, (n,)),
    ensures
        plan_outcome(s@, ten_bit, usable, plan_view(r)),
{
    let hevc = ten_bit || s.video_codec == VideoCodecChoice::Libx265;
    let mut i: usize = 0;
    while i < 3
        invariant
            i <= 3,
            hevc == wants_hevc(s@, ten_bit),
            forall|n: &str| call_requires(usable, (n,)),
            forall|j: int| 0 <= j < i ==> probe_said(usable, #[trigger] candidate_name(hevc, j), false),
        decreases 3 - i,
    {
        let name = candidate(hevc, i);
        let ok = usable(name);
        if ok {
            assert(probe_said(usable, candidate_name(hevc, i as int), true));
            let plan = plan_for_candidate(s, ten_bit, i);
            return Some(plan);
        }
        assert(probe_said(usable, candidate_name(hevc, i as int), false));
        i = i + 1;
    }
    None
}

} // verus!
