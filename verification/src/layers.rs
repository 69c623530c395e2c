//! Render-time multi-note plans: the same 4OP patch at N, N+12, N−12, …
//!
//! This is **not** `[fx.chorus] intervals` (a delayed pitch-shift of the mono
//! bus) and **not** reallocating operators inside a preset.
use vstd::prelude::*;

use crate::algorithm::same_result;
use crate::error::{is_invalid_param, Error, Result};
use crate::paths::{preset_stem, preset_stem_of, split_on, lemma_split_on_nonempty};
use crate::text::{
    all_digits, digits_value, is_plain_word, is_white_space, lemma_plain_word, lemma_two_digits,
    nat_digits, parse_decimal, trim_end, trim_start,
    chars_of, decimal, decimal_string, eq_chars, eq_chars_ignore_case, eq_ignore_case, lower,
    lower_chars, parse_i16, parse_i16_chars, signed_decimal, signed_decimal_string,
    starts_with, starts_with_chars, string_from, string_of, trim, trim_chars,
    unsigned_decimal_string,
};

verus! {

/// One extra full-patch voice, expressed as a musical interval from the root.
#[derive(Clone, Copy, Debug, PartialEq, Eq, Structural, PartialOrd, Ord, Hash)]
pub enum LayerInterval {
    /// +12 semitones (2× frequency). Also accepts `octave-up` in TOML/CLI.
    Octave,
    /// +7 semitones (perfect fifth).
    Fifth,
    /// −12 semitones (½×). `octave-down` / `-12`.
    OctaveDown,
    /// −24 semitones (¼×). `octave-down-2` / `-24`.
    OctaveDown2,
    /// −36 semitones (⅛×). `octave-down-3` / `-36`.
    OctaveDown3,
    /// +24 semitones (4×). `octave-2` / `24`.
    Octave2,
}

/// The six intervals in their declared (and sorted) order.
pub open spec fn all_intervals() -> Seq<LayerInterval> {
    seq![
        LayerInterval::Octave,
        LayerInterval::Fifth,
        LayerInterval::OctaveDown,
        LayerInterval::OctaveDown2,
        LayerInterval::OctaveDown3,
        LayerInterval::Octave2,
    ]
}

/// The interval `st` semitones from the root, if it is one of the six.
pub open spec fn interval_with_semitones(st: int) -> Option<LayerInterval> {
    if st == 12 {
        Some(LayerInterval::Octave)
    } else if st == 7 {
        Some(LayerInterval::Fifth)
    } else if st == -12 {
        Some(LayerInterval::OctaveDown)
    } else if st == -24 {
        Some(LayerInterval::OctaveDown2)
    } else if st == -36 {
        Some(LayerInterval::OctaveDown3)
    } else if st == 24 {
        Some(LayerInterval::Octave2)
    } else {
        None
    }
}

/// The interval a (trimmed, lower-cased) word names, if any.
pub open spec fn interval_named(s: Seq<char>) -> Option<LayerInterval> {
    if s == "octave"@ || s == "octave-up"@ {
        Some(LayerInterval::Octave)
    } else if s == "fifth"@ {
        Some(LayerInterval::Fifth)
    } else if s == "octave-down"@ {
        Some(LayerInterval::OctaveDown)
    } else if s == "octave-down-2"@ || s == "octave-down2"@ {
        Some(LayerInterval::OctaveDown2)
    } else if s == "octave-down-3"@ || s == "octave-down3"@ {
        Some(LayerInterval::OctaveDown3)
    } else if s == "octave-2"@ || s == "octave2"@ {
        Some(LayerInterval::Octave2)
    } else {
        None
    }
}

/// What one layer token parses to: a name (any ASCII case, surrounding white
/// space ignored) or a semitone count, else the error text.
pub open spec fn parse_layer_token(raw: Seq<char>) -> std::result::Result<LayerInterval, Seq<char>> {
    let s = lower(trim(raw));
    match interval_named(s) {
        Some(i) => Ok(i),
        None => match parse_i16(s) {
            Some(st) => match interval_with_semitones(st) {
                Some(i) => Ok(i),
                None => Err(
                    "unsupported layer semitones "@ + decimal(st) + " (use 12, 7, -12, -24, -36)"@,
                ),
            },
            None => Err("unknown layer `"@ + s
                + "` (use auto, none, octave, fifth, octave-down, octave-down-2, octave-down-3, or 0,-12,-24)"@),
        },
    }
}

/// Whether an exec result with a library error matches a spec result whose
/// error is the text of an `InvalidParam`.
pub open spec fn same_outcome<T>(r: Result<T>, s: std::result::Result<T, Seq<char>>) -> bool {
    match r {
        Ok(a) => s == Ok::<T, Seq<char>>(a),
        Err(e) => match s {
            Ok(_) => false,
            Err(m) => is_invalid_param(e, m),
        },
    }
}

/// What an integer in a preset file gives as a layer interval.
pub open spec fn interval_from_number(v: int) -> std::result::Result<LayerInterval, Seq<char>> {
    match interval_with_semitones(v) {
        Some(i) => Ok(i),
        None => Err("unsupported layer semitones "@ + decimal(v)),
    }
}

impl LayerInterval {
    pub open spec fn spec_semitones(self) -> int {
        match self {
            LayerInterval::Octave => 12,
            LayerInterval::Fifth => 7,
            LayerInterval::OctaveDown => -12,
            LayerInterval::OctaveDown2 => -24,
            LayerInterval::OctaveDown3 => -36,
            LayerInterval::Octave2 => 24,
        }
    }

    pub open spec fn spec_label(self) -> Seq<char> {
        match self {
            LayerInterval::Octave => "octave"@,
            LayerInterval::Fifth => "fifth"@,
            LayerInterval::OctaveDown => "octave-down"@,
            LayerInterval::OctaveDown2 => "octave-down-2"@,
            LayerInterval::OctaveDown3 => "octave-down-3"@,
            LayerInterval::Octave2 => "octave-2"@,
        }
    }

    /// Position in the declared order, which is also the sort order.
    pub open spec fn rank(self) -> int {
        match self {
            LayerInterval::Octave => 0,
            LayerInterval::Fifth => 1,
            LayerInterval::OctaveDown => 2,
            LayerInterval::OctaveDown2 => 3,
            LayerInterval::OctaveDown3 => 4,
            LayerInterval::Octave2 => 5,
        }
    }

    pub fn semitones(self) -> (r: i16)
        ensures
            r as int == self.spec_semitones(),
    {
        match self {
            LayerInterval::Octave => 12,
            LayerInterval::Fifth => 7,
            LayerInterval::OctaveDown => -12,
            LayerInterval::OctaveDown2 => -24,
            LayerInterval::OctaveDown3 => -36,
            LayerInterval::Octave2 => 24,
        }
    }

    pub fn label(self) -> (r: &'static str)
        ensures
            r@ == self.spec_label(),
    {
        match self {
            LayerInterval::Octave => "octave",
            LayerInterval::Fifth => "fifth",
            LayerInterval::OctaveDown => "octave-down",
            LayerInterval::OctaveDown2 => "octave-down-2",
            LayerInterval::OctaveDown3 => "octave-down-3",
            LayerInterval::Octave2 => "octave-2",
        }
    }

    pub fn from_semitones(st: i16) -> (r: Option<Self>)
        ensures
            r == interval_with_semitones(st as int),
    {
        match st {
            12 => Some(LayerInterval::Octave),
            7 => Some(LayerInterval::Fifth),
            -12 => Some(LayerInterval::OctaveDown),
            -24 => Some(LayerInterval::OctaveDown2),
            -36 => Some(LayerInterval::OctaveDown3),
            24 => Some(LayerInterval::Octave2),
            _ => None,
        }
    }

    /// A signed semitone count read from a preset file as a layer.
    pub fn from_signed(v: i64) -> (r: std::result::Result<Self, String>)
        ensures
            same_result(r, interval_from_number(v as int)),
    {
        if -36 <= v && v <= 24 {
            if let Some(i) = LayerInterval::from_semitones(v as i16) {
                return Ok(i);
            }
        }
        let mut m = string_from("unsupported layer semitones ");
        m.append(decimal_string(v).as_str());
        Err(m)
    }

    /// An unsigned semitone count read from a preset file as a layer.
    pub fn from_unsigned(v: u64) -> (r: std::result::Result<Self, String>)
        ensures
            same_result(r, interval_from_number(v as int)),
    {
        if v <= 24 {
            return LayerInterval::from_signed(v as i64);
        }
        let mut m = string_from("unsupported layer semitones ");
        m.append(unsigned_decimal_string(v).as_str());
        Err(m)
    }

    /// Parses one layer: a name (`octave`, `octave-up`, `octave-2`, `fifth`,
    /// `octave-down`, `octave-down-2`, `octave-down-3`, …) or a semitone count
    /// (`24`, `12`, `-24`, …).
    pub fn parse_token(raw: &str) -> (r: Result<Self>)
        ensures
            same_outcome(r, parse_layer_token(raw@)),
    {
        let s = lower_chars(&trim_chars(&chars_of(raw)));
        if eq_chars(&s, "octave") || eq_chars(&s, "octave-up") {
            return Ok(LayerInterval::Octave);
        }
        if eq_chars(&s, "fifth") {
            return Ok(LayerInterval::Fifth);
        }
        if eq_chars(&s, "octave-down") {
            return Ok(LayerInterval::OctaveDown);
        }
        if eq_chars(&s, "octave-down-2") || eq_chars(&s, "octave-down2") {
            return Ok(LayerInterval::OctaveDown2);
        }
        if eq_chars(&s, "octave-down-3") || eq_chars(&s, "octave-down3") {
            return Ok(LayerInterval::OctaveDown3);
        }
        if eq_chars(&s, "octave-2") || eq_chars(&s, "octave2") {
            return Ok(LayerInterval::Octave2);
        }
        match parse_i16_chars(&s) {
            Some(st) => match LayerInterval::from_semitones(st) {
                Some(i) => Ok(i),
                None => {
                    let mut message = string_from("unsupported layer semitones ");
                    message.append(decimal_string(st as i64).as_str());
                    message.append(" (use 12, 7, -12, -24, -36)");
                    Err(Error::InvalidParam { message })
                },
            },
            None => {
                let mut message = string_from("unknown layer `");
                message.append(string_of(&s).as_str());
                message.append(
                    "` (use auto, none, octave, fifth, octave-down, octave-down-2, octave-down-3, or 0,-12,-24)",
                );
                Err(Error::InvalidParam { message })
            },
        }
    }
}

/// How `render` / `analyze` choose extra full-patch voices.
#[derive(Clone, Debug, PartialEq, Eq)]
pub enum LayerMode {
    /// Factory leads: +12, plus +7 when the octave mix still looks thin.
    /// Factory pitched FX: −12 and −24, plus −36 when still thin.
    /// Other factory FX: a single −12 body (except already-sub shots).
    /// Sparkle pads and airy fresh pads: +12 and −12, plus +7 and +24 when thin.
    /// Other banks stay single-note unless the preset sets `render_layers`.
    Auto,
    /// Single-note render (the historical `render()` behavior).
    Off,
    /// Always mix these intervals on top of the unison root.
    Explicit(Vec<LayerInterval>),
}

/// A layer mode as a value: the explicit intervals as a sequence.
pub enum LayerModeView {
    Auto,
    Off,
    Explicit(Seq<LayerInterval>),
}

impl View for LayerMode {
    type V = LayerModeView;

    open spec fn view(&self) -> LayerModeView {
        match self {
            LayerMode::Auto => LayerModeView::Auto,
            LayerMode::Off => LayerModeView::Off,
            LayerMode::Explicit(v) => LayerModeView::Explicit(v@),
        }
    }
}

impl Default for LayerMode {
    fn default() -> (r: Self)
        ensures
            r is Auto,
    {
        LayerMode::Auto
    }
}

/// A comma-separated part that adds no voice: empty, `unison`, `root`, `0`, `+0`.
pub open spec fn is_root_part(p: Seq<char>) -> bool {
    ||| p.len() == 0
    ||| eq_ignore_case(p, "unison"@)
    ||| eq_ignore_case(p, "root"@)
    ||| p == "0"@
    ||| p == "+0"@
}

/// The intervals the parts name, in order, or the text of the first bad part.
pub open spec fn parse_parts(parts: Seq<Seq<char>>) -> std::result::Result<
    Seq<LayerInterval>,
    Seq<char>,
>
    decreases parts.len(),
{
    if parts.len() == 0 {
        Ok(Seq::empty())
    } else {
        let p = trim(parts[0]);
        if is_root_part(p) {
            parse_parts(parts.drop_first())
        } else {
            match parse_layer_token(p) {
                Err(m) => Err(m),
                Ok(i) => match parse_parts(parts.drop_first()) {
                    Ok(rest) => Ok(seq![i] + rest),
                    Err(m) => Err(m),
                },
            }
        }
    }
}

/// The members of `order` that occur in `v`, in the order of `order`.
pub open spec fn present_in_order(order: Seq<LayerInterval>, v: Seq<LayerInterval>) -> Seq<
    LayerInterval,
>
    decreases order.len(),
{
    if order.len() == 0 {
        Seq::empty()
    } else {
        present_in_order(order.drop_last(), v) + if v.contains(order.last()) {
            seq![order.last()]
        } else {
            Seq::empty()
        }
    }
}

/// `v` sorted and without repeats.
pub open spec fn sorted_unique(v: Seq<LayerInterval>) -> Seq<LayerInterval> {
    present_in_order(all_intervals(), v)
}

/// What `LayerMode::parse` makes of `spec`.
pub open spec fn parse_layer_mode(spec: Seq<char>) -> std::result::Result<
    LayerModeView,
    Seq<char>,
> {
    let t = trim(spec);
    if t.len() == 0 || eq_ignore_case(t, "auto"@) {
        Ok(LayerModeView::Auto)
    } else if eq_ignore_case(t, "none"@) || eq_ignore_case(t, "off"@) {
        Ok(LayerModeView::Off)
    } else {
        match parse_parts(split_on(t, ',')) {
            Err(m) => Err(m),
            Ok(v) => if v.len() == 0 {
                Ok(LayerModeView::Off)
            } else {
                Ok(LayerModeView::Explicit(sorted_unique(v)))
            },
        }
    }
}

/// `v` split at every comma, each piece as its own vector.
fn split_commas(v: &Vec<char>) -> (parts: Vec<Vec<char>>)
    ensures
        parts@.len() == split_on(v@, ',').len(),
        forall|k: int| 0 <= k < parts@.len() ==> #[trigger] parts@[k]@ == split_on(v@, ',')[k],
{
    let mut parts: Vec<Vec<char>> = Vec::new();
    parts.push(Vec::new());
    let mut i: usize = 0;
    assert(split_on(v@.subrange(0, 0), ',') =~= seq![Seq::<char>::empty()]);
    while i < v.len()
        invariant
            i <= v.len(),
            parts@.len() == split_on(v@.subrange(0, i as int), ',').len(),
            parts@.len() >= 1,
            forall|k: int|
                0 <= k < parts@.len() ==> #[trigger] parts@[k]@ == split_on(
                    v@.subrange(0, i as int),
                    ',',
                )[k],
        decreases v.len() - i,
    {
        let ghost pre = v@.subrange(0, i as int);
        let ghost next = v@.subrange(0, i + 1);
        assert(next.drop_last() == pre);
        proof {
            lemma_split_on_nonempty(pre, ',');
        }
        let ghost old_parts = parts@;
        if v[i] == ',' {
            parts.push(Vec::new());
            assert forall|k: int| 0 <= k < parts@.len() implies #[trigger] parts@[k]@ == split_on(
                next,
                ',',
            )[k] by {
                if k < old_parts.len() {
                    assert(parts@[k] == old_parts[k]);
                }
            }
        } else {
            let last = parts.len() - 1;
            let mut piece = parts.pop().unwrap();
            piece.push(v[i]);
            parts.push(piece);
            assert forall|k: int| 0 <= k < parts@.len() implies #[trigger] parts@[k]@ == split_on(
                next,
                ',',
            )[k] by {
                if k < last {
                    assert(parts@[k] == old_parts[k]);
                }
            }
        }
        i = i + 1;
    }
    assert(v@.subrange(0, v.len() as int) == v@);
    parts
}

/// Whether `v` holds `x`.
fn holds(v: &Vec<LayerInterval>, x: LayerInterval) -> (b: bool)
    ensures
        b == v@.contains(x),
{
    let mut i: usize = 0;
    while i < v.len()
        invariant
            i <= v.len(),
            forall|k: int| 0 <= k < i ==> v@[k] != x,
        decreases v.len() - i,
    {
        if v[i] == x {
            assert(v@[i as int] == x);
            return true;
        }
        i = i + 1;
    }
    false
}

/// `v` sorted into the declared order of the intervals, repeats removed.
pub fn sort_unique(v: &Vec<LayerInterval>) -> (r: Vec<LayerInterval>)
    ensures
        r@ == sorted_unique(v@),
{
    let order: [LayerInterval; 6] = [
        LayerInterval::Octave,
        LayerInterval::Fifth,
        LayerInterval::OctaveDown,
        LayerInterval::OctaveDown2,
        LayerInterval::OctaveDown3,
        LayerInterval::Octave2,
    ];
    assert(order@ == all_intervals());
    let mut r: Vec<LayerInterval> = Vec::new();
    let mut k: usize = 0;
    while k < 6
        invariant
            k <= 6,
            order@ == all_intervals(),
            r@ == present_in_order(order@.subrange(0, k as int), v@),
        decreases 6 - k,
    {
        let x = order[k];
        assert(order@.subrange(0, k + 1).drop_last() == order@.subrange(0, k as int));
        if holds(v, x) {
            r.push(x);
        }
        k = k + 1;
        assert(r@ =~= present_in_order(order@.subrange(0, k as int), v@));
    }
    assert(order@.subrange(0, 6) == order@);
    r
}

impl LayerMode {
    /// Parse CLI `--layers` values: `auto`, `none`, `octave`, `octave-down`,
    /// `octave-down,octave-down-2`, `0,-12,-24`.
    pub fn parse(spec: &str) -> (r: Result<Self>)
        ensures
            match r {
                Ok(m) => parse_layer_mode(spec@) == Ok::<LayerModeView, Seq<char>>(m@),
                Err(e) => match parse_layer_mode(spec@) {
                    Ok(_) => false,
                    Err(msg) => is_invalid_param(e, msg),
                },
            },
    {
        let t = trim_chars(&chars_of(spec));
        if t.len() == 0 || eq_chars_ignore_case(&t, "auto") {
            return Ok(LayerMode::Auto);
        }
        if eq_chars_ignore_case(&t, "none") || eq_chars_ignore_case(&t, "off") {
            return Ok(LayerMode::Off);
        }
        let parts = split_commas(&t);
        let ghost all_parts = split_on(t@, ',');
        let mut intervals: Vec<LayerInterval> = Vec::new();
        let mut i: usize = 0;
        proof {
            assert(all_parts.subrange(0, all_parts.len() as int) == all_parts);
            match parse_parts(all_parts) {
                Ok(rest) => {
                    assert(intervals@ + rest =~= rest);
                },
                Err(m) => {},
            }
        }
        while i < parts.len()
            invariant
                i <= parts.len(),
                t@ == trim(spec@),
                !(t@.len() == 0 || eq_ignore_case(t@, "auto"@)),
                !(eq_ignore_case(t@, "none"@) || eq_ignore_case(t@, "off"@)),
                all_parts == split_on(t@, ','),
                parts@.len() == all_parts.len(),
                forall|k: int| 0 <= k < parts@.len() ==> #[trigger] parts@[k]@ == all_parts[k],
                parse_parts(all_parts) == (match parse_parts(all_parts.subrange(i as int, all_parts.len() as int)) {
                    Ok(rest) => Ok::<Seq<LayerInterval>, Seq<char>>(intervals@ + rest),
                    Err(m) => Err(m),
                }),
            decreases parts.len() - i,
        {
            let ghost tail = all_parts.subrange(i as int, all_parts.len() as int);
            assert(tail.drop_first() == all_parts.subrange(i + 1, all_parts.len() as int));
            assert(tail[0] == parts@[i as int]@);
            let part = trim_chars(&parts[i]);
            if part.len() == 0 || eq_chars_ignore_case(&part, "unison") || eq_chars_ignore_case(
                &part,
                "root",
            ) || eq_chars(&part, "0") || eq_chars(&part, "+0") {
                i = i + 1;
                continue;
            }
            let text = string_of(&part);
            match LayerInterval::parse_token(text.as_str()) {
                Ok(x) => {
                    let ghost before = intervals@;
                    intervals.push(x);
                    proof {
                        match parse_parts(tail.drop_first()) {
                            Ok(rest) => {
                                assert(intervals@ + rest =~= before + (seq![x] + rest));
                            },
                            Err(m) => {},
                        }
                    }
                },
                Err(e) => {
                    return Err(e);
                },
            }
            i = i + 1;
        }
        assert(all_parts.subrange(parts.len() as int, all_parts.len() as int) =~= Seq::<
            Seq<char>,
        >::empty());
        assert(intervals@ + Seq::<LayerInterval>::empty() =~= intervals@);
        if intervals.len() == 0 {
            return Ok(LayerMode::Off);
        }
        Ok(LayerMode::Explicit(sort_unique(&intervals)))
    }
}

/// Extra interval that Auto may append after the first mix.
#[derive(Clone, Copy, Debug, PartialEq, Eq, Structural)]
pub enum AutoLayerExtra {
    /// No follow-up interval.
    NoExtra,
    /// Factory-lead thin check → +7.
    Fifth,
    /// Pitched-FX thin check → −36.
    OctaveDown3,
    /// Sparkle / airy pad thin check → +7 and +24.
    FifthAndOctave2,
}

/// Resolved mix list plus an optional Auto follow-up interval.
#[derive(Clone, Debug, PartialEq, Eq)]
pub struct LayerPlan {
    pub intervals: Vec<LayerInterval>,
    pub extra: AutoLayerExtra,
}


/// Factory lead bank: `ld-*`, `lead-*`, and the older shots that live in `presets/ld/`.
pub open spec fn is_lead_stem(s: Seq<char>) -> bool {
    ||| starts_with(s, "ld-"@)
    ||| starts_with(s, "lead-"@)
    ||| s == "stab-fm-fifth"@
    ||| s == "stab-fm-major"@
    ||| s == "filter-pluck"@
    ||| s == "stab-pluck"@
}

/// Factory FX bank: `fx-*` plus the older `fm-riser` / `zap` / `hp-air` ids.
pub open spec fn is_fx_stem(s: Seq<char>) -> bool {
    ||| starts_with(s, "fx-"@)
    ||| s == "fm-riser"@
    ||| s == "zap"@
    ||| s == "hp-air"@
}

/// Lasers, zaps, pitched risers, falls, stabs.
pub open spec fn is_pitched_fx_stem(s: Seq<char>) -> bool {
    ||| s == "fx-laser"@
    ||| s == "fx-laser-fall"@
    ||| s == "fx-zap"@
    ||| s == "zap"@
    ||| s == "fx-blip"@
    ||| s == "fx-alarm"@
    ||| s == "fx-siren"@
    ||| s == "fx-riser-pitch"@
    ||| s == "fx-riser-saw"@
    ||| s == "fx-uplifter"@
    ||| s == "fm-riser"@
    ||| s == "fx-downlifter"@
    ||| s == "fx-fall"@
    ||| s == "fx-hoover-fall"@
    ||| s == "fx-tape-stop"@
    ||| s == "fx-down-to-kick"@
    ||| s == "fx-formant-ah"@
    ||| s == "fx-formant-oh"@
    ||| s == "fx-gabber-stab"@
    ||| s == "fx-radio-stab"@
    ||| s == "fx-sweep-bp"@
    ||| s == "fx-passby"@
    ||| s == "fx-trans-fill"@
}

/// Impacts / clangs that take a single octave-down body.
pub open spec fn is_impact_fx_stem(s: Seq<char>) -> bool {
    ||| s == "fx-boom"@
    ||| s == "fx-impact"@
    ||| s == "fx-impact-mid"@
    ||| s == "fx-impact-dnb"@
    ||| s == "fx-clang"@
}

/// Already a falling sub; another −12 would sit under ~20 Hz.
pub open spec fn skips_fx_auto_stem(s: Seq<char>) -> bool {
    s == "fx-sub-drop"@
}

/// Factory sparkle pad bank: `ps-*`.
pub open spec fn is_sparkle_pad_stem(s: Seq<char>) -> bool {
    starts_with(s, "ps-"@)
}

/// The wind-bodied fresh pads (flute, choir air, silk) that take the same
/// ±octave stack as the sparkle bank; the rest of `pf-*` stays single-note.
pub open spec fn is_airy_fresh_pad_stem(s: Seq<char>) -> bool {
    ||| s == "pf-flute-pad"@
    ||| s == "pf-choir-air"@
    ||| s == "pf-silk"@
}

/// Pads that Auto stacks at ±12: the sparkle bank and the airy fresh pads.
pub open spec fn is_pad_stack_stem(s: Seq<char>) -> bool {
    is_sparkle_pad_stem(s) || is_airy_fresh_pad_stem(s)
}

fn stem_chars(id: &str) -> (v: Vec<char>)
    ensures
        v@ == preset_stem_of(id@),
{
    chars_of(preset_stem(id).as_str())
}

/// Factory lead bank: `ld-*`, `lead-*`, and the older shots that live in `presets/ld/`.
pub fn is_factory_lead_id(id: &str) -> (b: bool)
    ensures
        b == is_lead_stem(preset_stem_of(id@)),
{
    let s = stem_chars(id);
    starts_with_chars(&s, "ld-") || starts_with_chars(&s, "lead-") || eq_chars(&s, "stab-fm-fifth")
        || eq_chars(&s, "stab-fm-major") || eq_chars(&s, "filter-pluck") || eq_chars(
        &s,
        "stab-pluck",
    )
}

/// Factory FX bank: `fx-*` plus the older `fm-riser` / `zap` / `hp-air` ids.
pub fn is_factory_fx_id(id: &str) -> (b: bool)
    ensures
        b == is_fx_stem(preset_stem_of(id@)),
{
    let s = stem_chars(id);
    starts_with_chars(&s, "fx-") || eq_chars(&s, "fm-riser") || eq_chars(&s, "zap") || eq_chars(
        &s,
        "hp-air",
    )
}

fn pitched_stem(s: &Vec<char>) -> (b: bool)
    ensures
        b == is_pitched_fx_stem(s@),
{
    eq_chars(s, "fx-laser") || eq_chars(s, "fx-laser-fall") || eq_chars(s, "fx-zap") || eq_chars(
        s,
        "zap",
    ) || eq_chars(s, "fx-blip") || eq_chars(s, "fx-alarm") || eq_chars(s, "fx-siren") || eq_chars(
        s,
        "fx-riser-pitch",
    ) || eq_chars(s, "fx-riser-saw") || eq_chars(s, "fx-uplifter") || eq_chars(s, "fm-riser")
        || eq_chars(s, "fx-downlifter") || eq_chars(s, "fx-fall") || eq_chars(s, "fx-hoover-fall")
        || eq_chars(s, "fx-tape-stop") || eq_chars(s, "fx-down-to-kick") || eq_chars(
        s,
        "fx-formant-ah",
    ) || eq_chars(s, "fx-formant-oh") || eq_chars(s, "fx-gabber-stab") || eq_chars(
        s,
        "fx-radio-stab",
    ) || eq_chars(s, "fx-sweep-bp") || eq_chars(s, "fx-passby") || eq_chars(s, "fx-trans-fill")
}

/// Lasers, zaps, pitched risers, falls, stabs — want a multi-octave-down stack.
pub fn is_pitched_fx_id(id: &str) -> (b: bool)
    ensures
        b == is_pitched_fx_stem(preset_stem_of(id@)),
{
    pitched_stem(&stem_chars(id))
}

/// Impacts / clangs that benefit from a single octave-down body (not a full stack).
pub fn is_impact_fx_id(id: &str) -> (b: bool)
    ensures
        b == is_impact_fx_stem(preset_stem_of(id@)),
{
    let s = stem_chars(id);
    eq_chars(&s, "fx-boom") || eq_chars(&s, "fx-impact") || eq_chars(&s, "fx-impact-mid")
        || eq_chars(&s, "fx-impact-dnb") || eq_chars(&s, "fx-clang")
}

/// Already a falling sub; another −12 would sit under ~20 Hz.
pub fn skips_fx_auto_layers(id: &str) -> (b: bool)
    ensures
        b == skips_fx_auto_stem(preset_stem_of(id@)),
{
    eq_chars(&stem_chars(id), "fx-sub-drop")
}

/// Factory sparkle pad bank: `ps-*`.
pub fn is_factory_sparkle_pad_id(id: &str) -> (b: bool)
    ensures
        b == is_sparkle_pad_stem(preset_stem_of(id@)),
{
    starts_with_chars(&stem_chars(id), "ps-")
}

fn airy_stem(s: &Vec<char>) -> (b: bool)
    ensures
        b == is_airy_fresh_pad_stem(s@),
{
    eq_chars(s, "pf-flute-pad") || eq_chars(s, "pf-choir-air") || eq_chars(s, "pf-silk")
}

/// Airy fresh pads (`pf-flute-pad`, `pf-choir-air`, `pf-silk`) that stack like
/// the sparkle bank.
pub fn is_airy_fresh_pad_id(id: &str) -> (b: bool)
    ensures
        b == is_airy_fresh_pad_stem(preset_stem_of(id@)),
{
    airy_stem(&stem_chars(id))
}

/// Sparkle or airy pad: Auto mixes N, N+12 and N−12.
pub fn is_factory_pad_stack_id(id: &str) -> (b: bool)
    ensures
        b == is_pad_stack_stem(preset_stem_of(id@)),
{
    let s = stem_chars(id);
    starts_with_chars(&s, "ps-") || airy_stem(&s)
}

/// The plan `resolve_layer_plan` gives, as values.
pub open spec fn layer_plan(
    id: Seq<char>,
    render_layers: Option<Seq<LayerInterval>>,
    mode: LayerModeView,
) -> (Seq<LayerInterval>, AutoLayerExtra) {
    match mode {
        LayerModeView::Off => (Seq::empty(), AutoLayerExtra::NoExtra),
        LayerModeView::Explicit(v) => (v, AutoLayerExtra::NoExtra),
        LayerModeView::Auto => match render_layers {
            Some(v) => (v, AutoLayerExtra::NoExtra),
            None => {
                let s = preset_stem_of(id);
                if is_lead_stem(s) {
                    (seq![LayerInterval::Octave], AutoLayerExtra::Fifth)
                } else if is_pitched_fx_stem(s) {
                    (
                        seq![LayerInterval::OctaveDown, LayerInterval::OctaveDown2],
                        AutoLayerExtra::OctaveDown3,
                    )
                } else if is_fx_stem(s) && !skips_fx_auto_stem(s) {
                    (seq![LayerInterval::OctaveDown], AutoLayerExtra::NoExtra)
                } else if is_pad_stack_stem(s) {
                    (
                        seq![LayerInterval::Octave, LayerInterval::OctaveDown],
                        AutoLayerExtra::FifthAndOctave2,
                    )
                } else {
                    (Seq::empty(), AutoLayerExtra::NoExtra)
                }
            },
        },
    }
}

pub open spec fn layers_view(render_layers: Option<Vec<LayerInterval>>) -> Option<Seq<LayerInterval>> {
    match render_layers {
        Some(v) => Some(v@),
        None => None,
    }
}

fn copy_intervals(v: &Vec<LayerInterval>) -> (r: Vec<LayerInterval>)
    ensures
        r@ == v@,
{
    let mut r: Vec<LayerInterval> = Vec::new();
    let mut i: usize = 0;
    while i < v.len()
        invariant
            i <= v.len(),
            r@ == v@.subrange(0, i as int),
        decreases v.len() - i,
    {
        r.push(v[i]);
        i = i + 1;
    }
    r
}

/// The `--layers` mode wins when it is not `auto`. Otherwise the preset's own
/// `render_layers`, then the factory-lead / factory-FX / sparkle-and-airy-pad
/// default.
pub fn resolve_layer_plan(
    preset_id: &str,
    render_layers: &Option<Vec<LayerInterval>>,
    mode: &LayerMode,
) -> (p: LayerPlan)
    ensures
        (p.intervals@, p.extra) == layer_plan(preset_id@, layers_view(*render_layers), mode@),
{
    match mode {
        LayerMode::Off => LayerPlan { intervals: Vec::new(), extra: AutoLayerExtra::NoExtra },
        LayerMode::Explicit(intervals) => LayerPlan {
            intervals: copy_intervals(intervals),
            extra: AutoLayerExtra::NoExtra,
        },
        LayerMode::Auto => {
            if let Some(intervals) = render_layers {
                return LayerPlan {
                    intervals: copy_intervals(intervals),
                    extra: AutoLayerExtra::NoExtra,
                };
            }
            let s = stem_chars(preset_id);
            let lead = starts_with_chars(&s, "ld-") || starts_with_chars(&s, "lead-") || eq_chars(
                &s,
                "stab-fm-fifth",
            ) || eq_chars(&s, "stab-fm-major") || eq_chars(&s, "filter-pluck") || eq_chars(
                &s,
                "stab-pluck",
            );
            if lead {
                let mut v = Vec::new();
                v.push(LayerInterval::Octave);
                assert(v@ =~= seq![LayerInterval::Octave]);
                return LayerPlan { intervals: v, extra: AutoLayerExtra::Fifth };
            }
            if pitched_stem(&s) {
                let mut v = Vec::new();
                v.push(LayerInterval::OctaveDown);
                v.push(LayerInterval::OctaveDown2);
                assert(v@ =~= seq![LayerInterval::OctaveDown, LayerInterval::OctaveDown2]);
                return LayerPlan { intervals: v, extra: AutoLayerExtra::OctaveDown3 };
            }
            let fx = starts_with_chars(&s, "fx-") || eq_chars(&s, "fm-riser") || eq_chars(&s, "zap")
                || eq_chars(&s, "hp-air");
            if fx && !eq_chars(&s, "fx-sub-drop") {
                let mut v = Vec::new();
                v.push(LayerInterval::OctaveDown);
                assert(v@ =~= seq![LayerInterval::OctaveDown]);
                return LayerPlan { intervals: v, extra: AutoLayerExtra::NoExtra };
            }
            if starts_with_chars(&s, "ps-") || airy_stem(&s) {
                let mut v = Vec::new();
                v.push(LayerInterval::Octave);
                v.push(LayerInterval::OctaveDown);
                assert(v@ =~= seq![LayerInterval::Octave, LayerInterval::OctaveDown]);
                return LayerPlan { intervals: v, extra: AutoLayerExtra::FifthAndOctave2 };
            }
            LayerPlan { intervals: Vec::new(), extra: AutoLayerExtra::NoExtra }
        },
    }
}

/// The text one mixed semitone offset is listed with in a render report.
pub open spec fn offset_text(st: int) -> Seq<char> {
    if st == 0 {
        "0"@
    } else {
        signed_decimal(st)
    }
}

pub open spec fn offsets_text(s: Seq<i16>) -> Seq<Seq<char>> {
    Seq::new(s.len(), |i: int| offset_text(s[i] as int))
}

/// The layer list of a render report: `unison` for a single root note,
/// otherwise the offsets joined by commas (`0,+12,+7`).
pub open spec fn layers_text(s: Seq<i16>) -> Seq<char> {
    if s.len() == 0 || (s.len() == 1 && s[0] == 0) {
        "unison"@
    } else {
        crate::error::join(offsets_text(s), ","@)
    }
}

/// `unison`, or the mixed offsets joined by commas.
pub fn format_layers(semitones: &[i16]) -> (r: String)
    ensures
        r@ == layers_text(semitones@),
{
    if semitones.len() == 0 || (semitones.len() == 1 && semitones[0] == 0) {
        return string_from("unison");
    }
    let mut texts: Vec<String> = Vec::new();
    let mut i: usize = 0;
    while i < semitones.len()
        invariant
            i <= semitones.len(),
            texts@.len() == i,
            forall|k: int|
                0 <= k < i ==> #[trigger] texts@[k]@ == offset_text(semitones@[k] as int),
        decreases semitones.len() - i,
    {
        let st = semitones[i];
        let t = if st == 0 {
            string_from("0")
        } else {
            signed_decimal_string(st as i64)
        };
        texts.push(t);
        i = i + 1;
    }
    let mut r = String::new();
    crate::error::append_joined(&mut r, &texts, ",");
    assert(crate::error::views(texts@) =~= offsets_text(semitones@));
    r
}

/// The name a mixed semitone offset is shown with: `unison` for the root,
/// the interval's label, or the signed count for any other offset.
pub open spec fn offset_label(st: int) -> Seq<char> {
    if st == 0 {
        "unison"@
    } else {
        match interval_with_semitones(st) {
            Some(i) => i.spec_label(),
            None => signed_decimal(st),
        }
    }
}

/// The name a mixed semitone offset is shown with.
pub fn semitone_label(st: i16) -> (r: String)
    ensures
        r@ == offset_label(st as int),
{
    if st == 0 {
        return string_from("unison");
    }
    match LayerInterval::from_semitones(st) {
        Some(i) => string_from(i.label()),
        None => signed_decimal_string(st as i64),
    }
}


/// The mode words of `--layers`: `auto` (or nothing at all) asks for the
/// automatic plan, and `none` or `off` for a single-note render, in any ASCII
/// case and with surrounding white space; any explicit list comes out sorted,
/// without repeats and never empty.
pub proof fn lemma_layer_mode_words(spec: Seq<char>)
    ensures
        trim(spec).len() == 0 || eq_ignore_case(trim(spec), "auto"@) ==> parse_layer_mode(spec)
            == Ok::<LayerModeView, Seq<char>>(LayerModeView::Auto),
        eq_ignore_case(trim(spec), "none"@) || eq_ignore_case(trim(spec), "off"@)
            ==> parse_layer_mode(spec) == Ok::<LayerModeView, Seq<char>>(LayerModeView::Off),
        parse_layer_mode(spec) matches Ok(LayerModeView::Explicit(v)) ==> v.len() > 0 && (forall|
            a: int,
            b: int,
        | 0 <= a < b < v.len() ==> v[a].rank() < v[b].rank()),
{
    reveal_strlit("auto");
    reveal_strlit("none");
    reveal_strlit("off");
    let t = trim(spec);
    if eq_ignore_case(t, "none"@) || eq_ignore_case(t, "off"@) {
        assert(lower(t).len() == t.len());
        assert(t.len() > 0);
        if eq_ignore_case(t, "auto"@) {
            assert(lower(t)[0] == lower("auto"@)[0]);
            assert(lower("auto"@)[0] == 'a');
            if eq_ignore_case(t, "none"@) {
                assert(lower(t)[0] == lower("none"@)[0]);
            } else {
                assert(lower(t)[0] == lower("off"@)[0]);
            }
        }
    }
    match parse_parts(split_on(t, ',')) {
        Ok(v) => lemma_sorted_unique(v),
        Err(_) => {},
    }
}

/// Semitone counts round-trip: each interval is found again from its count
/// (also when a preset file gives the count), and a count names at most the
/// interval that has it.
pub proof fn lemma_semitones_round_trip(i: LayerInterval, st: int)
    ensures
        interval_with_semitones(i.spec_semitones()) == Some(i),
        interval_with_semitones(st) matches Some(j) ==> j.spec_semitones() == st,
        interval_from_number(i.spec_semitones()) == Ok::<LayerInterval, Seq<char>>(i),
{
}

proof fn lemma_label_facts(i: LayerInterval)
    ensures
        is_plain_word(i.spec_label()),
        interval_named(i.spec_label()) == Some(i),
{
    reveal_strlit("octave");
    reveal_strlit("octave-up");
    reveal_strlit("fifth");
    reveal_strlit("octave-down");
    reveal_strlit("octave-down-2");
    reveal_strlit("octave-down2");
    reveal_strlit("octave-down-3");
    reveal_strlit("octave-down3");
    reveal_strlit("octave-2");
    reveal_strlit("octave2");
    assert("octave-2"@.len() == 8 && "octave2"@.len() == 7);
    assert("octave"@.len() == 6 && "octave-up"@.len() == 9 && "fifth"@.len() == 5
        && "octave-down"@.len() == 11 && "octave-down-2"@.len() == 13 && "octave-down2"@.len()
        == 12 && "octave-down-3"@.len() == 13 && "octave-down3"@.len() == 12);
    assert("octave-down-3"@[12] != "octave-down-2"@[12]);
}

/// A number that names no interval word: its first character is a digit or
/// a sign, which no interval name starts with.
proof fn lemma_number_is_no_name(s: Seq<char>)
    requires
        s.len() > 0,
        s[0] == '-' || ('0' <= s[0] && s[0] <= '9'),
    ensures
        interval_named(s) is None,
{
    reveal_strlit("octave");
    reveal_strlit("octave-up");
    reveal_strlit("fifth");
    reveal_strlit("octave-down");
    reveal_strlit("octave-down-2");
    reveal_strlit("octave-down2");
    reveal_strlit("octave-down-3");
    reveal_strlit("octave-down3");
    reveal_strlit("octave-2");
    reveal_strlit("octave2");
    assert(s[0] != "octave-2"@[0] && s[0] != "octave2"@[0]);
    assert(s[0] != "octave"@[0] && s[0] != "octave-up"@[0] && s[0] != "fifth"@[0]
        && s[0] != "octave-down"@[0] && s[0] != "octave-down-2"@[0] && s[0]
        != "octave-down2"@[0] && s[0] != "octave-down-3"@[0] && s[0] != "octave-down3"@[0]);
}

/// Tokens round-trip: an interval's label and its semitone count both parse
/// back to it.
pub proof fn lemma_token_round_trip(i: LayerInterval)
    ensures
        parse_layer_token(i.spec_label()) == Ok::<LayerInterval, Seq<char>>(i),
        parse_layer_token(decimal(i.spec_semitones())) == Ok::<LayerInterval, Seq<char>>(i),
{
    lemma_label_facts(i);
    lemma_plain_word(i.spec_label());
    let st = i.spec_semitones();
    let d = decimal(st);
    if st == 7 {
        crate::text::lemma_one_digit(7);
        assert(d == nat_digits(7));
        assert(d.len() == 1);
        assert('0' <= d[0] && d[0] <= '9');
    } else {
        let mag: nat = if st < 0 {
            (-st) as nat
        } else {
            st as nat
        };
        lemma_two_digits(mag);
        if st < 0 {
            assert(d == seq!['-'] + nat_digits(mag));
            assert(d.drop_first() =~= nat_digits(mag));
            assert(d[0] == '-');
            assert(d.last() == nat_digits(mag).last());
        } else {
            assert(d == nat_digits(mag));
        }
    }
    assert(!is_white_space(d[0]));
    assert(!is_white_space(d.last()));
    assert(trim_start(d) == d);
    assert(trim_end(d) == d);
    assert(lower(d) =~= d);
    lemma_number_is_no_name(d);
    assert(parse_decimal(d, true) == Some(st));
}

/// The position of each interval in the declared order is its rank.
proof fn lemma_all_intervals_rank()
    ensures
        all_intervals().len() == 6,
        forall|k: int| 0 <= k < 6 ==> (#[trigger] all_intervals()[k]).rank() == k,
        forall|x: LayerInterval| #[trigger] all_intervals()[x.rank()] == x,
{
}

proof fn lemma_present_in_order(k: int, v: Seq<LayerInterval>)
    requires
        0 <= k <= 6,
    ensures
        ({
            let r = present_in_order(all_intervals().subrange(0, k), v);
            &&& forall|x: LayerInterval| r.contains(x) <==> (v.contains(x) && x.rank() < k)
            &&& forall|a: int, b: int| 0 <= a < b < r.len() ==> r[a].rank() < r[b].rank()
            &&& forall|a: int| 0 <= a < r.len() ==> r[a].rank() < k
        }),
    decreases k,
{
    lemma_all_intervals_rank();
    let order = all_intervals().subrange(0, k);
    let r = present_in_order(order, v);
    if k == 0 {
        assert(r =~= Seq::<LayerInterval>::empty());
    } else {
        lemma_present_in_order(k - 1, v);
        assert(order.drop_last() =~= all_intervals().subrange(0, k - 1));
        let prev = present_in_order(all_intervals().subrange(0, k - 1), v);
        let last = order.last();
        assert(last == all_intervals()[k - 1]);
        assert(last.rank() == k - 1);
        if v.contains(last) {
            assert(r == prev + seq![last]);
            assert forall|x: LayerInterval| r.contains(x) <==> (v.contains(x) && x.rank() < k) by {
                if r.contains(x) {
                    let j = choose|j: int| 0 <= j < r.len() && r[j] == x;
                    if j < prev.len() {
                        assert(prev[j] == x);
                        assert(prev.contains(x));
                    }
                }
                if v.contains(x) && x.rank() < k {
                    if x.rank() == k - 1 {
                        assert(x == all_intervals()[k - 1]);
                        assert(r[prev.len() as int] == x);
                    } else {
                        assert(prev.contains(x));
                        let j = choose|j: int| 0 <= j < prev.len() && prev[j] == x;
                        assert(r[j] == x);
                    }
                }
            }
        } else {
            assert(r =~= prev);
            assert forall|x: LayerInterval| r.contains(x) <==> (v.contains(x) && x.rank() < k) by {
                if v.contains(x) && x.rank() == k - 1 {
                    assert(x == all_intervals()[k - 1]);
                }
            }
        }
    }
}

/// Sorting and de-duplication keep exactly the intervals that occur, each
/// once, in strictly increasing order.
pub proof fn lemma_sorted_unique(v: Seq<LayerInterval>)
    ensures
        forall|x: LayerInterval| sorted_unique(v).contains(x) <==> v.contains(x),
        forall|a: int, b: int|
            0 <= a < b < sorted_unique(v).len() ==> sorted_unique(v)[a].rank() < sorted_unique(
                v,
            )[b].rank(),
        sorted_unique(v).len() == 0 <==> v.len() == 0,
{
    lemma_present_in_order(6, v);
    assert(all_intervals().subrange(0, 6) =~= all_intervals());
    let r = sorted_unique(v);
    if v.len() > 0 {
        assert(v.contains(v[0]));
        assert(v[0].rank() < 6);
        assert(r.contains(v[0]));
    }
    if r.len() > 0 {
        assert(r.contains(r[0]));
    }
}

/// Lead, FX and stacked-pad classification never overlap, and every pitched,
/// impact or sub-drop FX stem is an FX stem.
pub proof fn lemma_id_classes(s: Seq<char>)
    ensures
        !(is_lead_stem(s) && is_fx_stem(s)),
        !(is_pad_stack_stem(s) && is_lead_stem(s)),
        !(is_pad_stack_stem(s) && is_fx_stem(s)),
        is_pitched_fx_stem(s) ==> is_fx_stem(s),
        is_impact_fx_stem(s) ==> is_fx_stem(s),
        skips_fx_auto_stem(s) ==> is_fx_stem(s),
        !(is_pitched_fx_stem(s) && is_impact_fx_stem(s)),
        !(is_pitched_fx_stem(s) && skips_fx_auto_stem(s)),
{
    reveal_strlit("ld-");
    reveal_strlit("lead-");
    reveal_strlit("stab-fm-fifth");
    reveal_strlit("stab-fm-major");
    reveal_strlit("filter-pluck");
    reveal_strlit("stab-pluck");
    reveal_strlit("fx-");
    reveal_strlit("fm-riser");
    reveal_strlit("zap");
    reveal_strlit("hp-air");
    assert("fx-"@.len() == 3 && "ld-"@.len() == 3 && "lead-"@.len() == 5);
    if is_fx_stem(s) {
        if starts_with(s, "fx-"@) {
            assert(s[0] == s.subrange(0, 3)[0]);
            assert(s[1] == s.subrange(0, 3)[1]);
        }
        assert(s[0] == 'f' || s[0] == 'z' || s[0] == 'h');
        assert(s[0] == 'f' ==> s[1] == 'x' || s[1] == 'm');
        if starts_with(s, "ld-"@) {
            assert(s[0] == s.subrange(0, 3)[0]);
        }
        if starts_with(s, "lead-"@) {
            assert(s[0] == s.subrange(0, 5)[0]);
        }
        assert(!is_lead_stem(s));
    }
    if is_pitched_fx_stem(s) && s != "zap"@ && s != "fm-riser"@ {
        assert(s.len() >= 3 && s[0] == 'f' && s[1] == 'x' && s[2] == '-') by {
            reveal_strlit("fx-laser");
            reveal_strlit("fx-laser-fall");
            reveal_strlit("fx-zap");
            reveal_strlit("fx-blip");
            reveal_strlit("fx-alarm");
            reveal_strlit("fx-siren");
            reveal_strlit("fx-riser-pitch");
            reveal_strlit("fx-riser-saw");
            reveal_strlit("fx-uplifter");
            reveal_strlit("fx-downlifter");
            reveal_strlit("fx-fall");
            reveal_strlit("fx-hoover-fall");
            reveal_strlit("fx-tape-stop");
            reveal_strlit("fx-down-to-kick");
            reveal_strlit("fx-formant-ah");
            reveal_strlit("fx-formant-oh");
            reveal_strlit("fx-gabber-stab");
            reveal_strlit("fx-radio-stab");
            reveal_strlit("fx-sweep-bp");
            reveal_strlit("fx-passby");
            reveal_strlit("fx-trans-fill");
        }
        assert(s.subrange(0, 3) =~= "fx-"@);
    }
    if is_impact_fx_stem(s) || skips_fx_auto_stem(s) {
        reveal_strlit("fx-boom");
        reveal_strlit("fx-impact");
        reveal_strlit("fx-impact-mid");
        reveal_strlit("fx-impact-dnb");
        reveal_strlit("fx-clang");
        reveal_strlit("fx-sub-drop");
        assert(s.len() >= 3 && s[0] == 'f' && s[1] == 'x' && s[2] == '-');
        assert(s.subrange(0, 3) =~= "fx-"@);
    }
    lemma_pitched_not_impact(s);
    lemma_pads_apart(s);
}

/// Every stacked-pad stem starts with `p`, which no lead or FX stem does.
proof fn lemma_pads_apart(s: Seq<char>)
    ensures
        is_pad_stack_stem(s) ==> s.len() > 0 && s[0] == 'p',
        is_lead_stem(s) ==> s.len() > 0 && s[0] != 'p',
        is_fx_stem(s) ==> s.len() > 0 && s[0] != 'p',
{
    reveal_strlit("ps-");
    reveal_strlit("pf-flute-pad");
    reveal_strlit("pf-choir-air");
    reveal_strlit("pf-silk");
    reveal_strlit("ld-");
    reveal_strlit("lead-");
    reveal_strlit("stab-fm-fifth");
    reveal_strlit("stab-fm-major");
    reveal_strlit("filter-pluck");
    reveal_strlit("stab-pluck");
    reveal_strlit("fx-");
    reveal_strlit("fm-riser");
    reveal_strlit("zap");
    reveal_strlit("hp-air");
    if starts_with(s, "ps-"@) {
        assert(s[0] == s.subrange(0, 3)[0]);
    }
    if starts_with(s, "ld-"@) {
        assert(s[0] == s.subrange(0, 3)[0]);
    }
    if starts_with(s, "lead-"@) {
        assert(s[0] == s.subrange(0, 5)[0]);
    }
    if starts_with(s, "fx-"@) {
        assert(s[0] == s.subrange(0, 3)[0]);
    }
}

proof fn lemma_pitched_not_impact(s: Seq<char>)
    ensures
        !(is_pitched_fx_stem(s) && is_impact_fx_stem(s)),
        !(is_pitched_fx_stem(s) && skips_fx_auto_stem(s)),
{
    if is_impact_fx_stem(s) || skips_fx_auto_stem(s) {
        reveal_strlit("fx-boom");
        reveal_strlit("fx-impact");
        reveal_strlit("fx-impact-mid");
        reveal_strlit("fx-impact-dnb");
        reveal_strlit("fx-clang");
        reveal_strlit("fx-sub-drop");
        reveal_strlit("fx-laser");
        reveal_strlit("fx-laser-fall");
        reveal_strlit("fx-zap");
        reveal_strlit("zap");
        reveal_strlit("fx-blip");
        reveal_strlit("fx-alarm");
        reveal_strlit("fx-siren");
        reveal_strlit("fx-riser-pitch");
        reveal_strlit("fx-riser-saw");
        reveal_strlit("fx-uplifter");
        reveal_strlit("fm-riser");
        reveal_strlit("fx-downlifter");
        reveal_strlit("fx-fall");
        reveal_strlit("fx-hoover-fall");
        reveal_strlit("fx-tape-stop");
        reveal_strlit("fx-down-to-kick");
        reveal_strlit("fx-formant-ah");
        reveal_strlit("fx-formant-oh");
        reveal_strlit("fx-gabber-stab");
        reveal_strlit("fx-radio-stab");
        reveal_strlit("fx-sweep-bp");
        reveal_strlit("fx-passby");
        reveal_strlit("fx-trans-fill");
        assert(s.len() >= 4);
        assert(s[3] == 'b' || s[3] == 'i' || s[3] == 'c' || s[3] == 's');
        if is_pitched_fx_stem(s) {
            assert(s[3] != 'i' && s[3] != 'c');
            assert(s[3] == 'b' || s[3] == 's');
            assert(s.len() >= 5);
            assert(s[4] == 'o' || s[4] == 'u');
            assert(s[4] != 'o' && s[4] != 'u');
        }
    }
}

/// Auto plans point the right way: factory leads only stack upwards (+12, then
/// +7 when thin), factory FX only downwards (−12, −24, then −36 when thin),
/// sparkle and airy pads both ways (±12, then +7 and +24 when thin); other ids
/// without their own `render_layers` stay a single note.
pub proof fn lemma_auto_plan_direction(id: Seq<char>)
    ensures
        ({
            let (v, extra) = layer_plan(id, None, LayerModeView::Auto);
            let s = preset_stem_of(id);
            &&& is_lead_stem(s) ==> (forall|k: int| 0 <= k < v.len() ==> v[k].spec_semitones() > 0)
                && extra == AutoLayerExtra::Fifth
            &&& is_fx_stem(s) ==> (forall|k: int| 0 <= k < v.len() ==> v[k].spec_semitones() < 0)
                && (forall|k: int|
                0 <= k < follow_up_of(v, extra).len() ==> follow_up_of(v, extra)[k].spec_semitones()
                    < 0)
            &&& is_pad_stack_stem(s) ==> v == seq![LayerInterval::Octave, LayerInterval::OctaveDown]
                && follow_up_of(v, extra) == seq![LayerInterval::Fifth, LayerInterval::Octave2]
            &&& !is_lead_stem(s) && !is_fx_stem(s) && !is_pad_stack_stem(s) ==> v.len() == 0
                && extra == AutoLayerExtra::NoExtra
        }),
{
    let s = preset_stem_of(id);
    lemma_id_classes(s);
    let (v, extra) = layer_plan(id, None, LayerModeView::Auto);
    if is_pad_stack_stem(s) {
        assert(!v.contains(LayerInterval::Fifth)) by {
            assert(v[0] != LayerInterval::Fifth && v[1] != LayerInterval::Fifth);
        }
        assert(!v.contains(LayerInterval::Octave2)) by {
            assert(v[0] != LayerInterval::Octave2 && v[1] != LayerInterval::Octave2);
        }
        assert(follow_up_of(v, extra) =~= seq![LayerInterval::Fifth, LayerInterval::Octave2]);
    }
}

/// `x` alone, unless `intervals` already mixes it.
pub open spec fn unless_mixed(intervals: Seq<LayerInterval>, x: LayerInterval) -> Seq<LayerInterval> {
    if intervals.contains(x) {
        Seq::empty()
    } else {
        seq![x]
    }
}

/// What each bank gets under `--layers auto` when the preset names no layers
/// of its own: factory leads +12 (then +7 when thin); pitched FX −12 and −24
/// (then −36 when thin); every other factory FX a single −12 body and no
/// follow-up, except the sub drop, which stays single; sparkle and airy pads
/// ±12 (then +7 and +24 when thin); anything else a single note. A preset's
/// own layers, or an explicit `--layers` list, are used as given.
pub proof fn lemma_auto_plan_by_bank(id: Seq<char>, own: Seq<LayerInterval>)
    ensures
        ({
            let s = preset_stem_of(id);
            let plan = layer_plan(id, None, LayerModeView::Auto);
            &&& is_lead_stem(s) ==> plan == (seq![LayerInterval::Octave], AutoLayerExtra::Fifth)
            &&& is_pitched_fx_stem(s) ==> plan == (
                seq![LayerInterval::OctaveDown, LayerInterval::OctaveDown2],
                AutoLayerExtra::OctaveDown3,
            )
            &&& is_fx_stem(s) && !is_pitched_fx_stem(s) && !skips_fx_auto_stem(s) ==> plan == (
                seq![LayerInterval::OctaveDown],
                AutoLayerExtra::NoExtra,
            )
            &&& skips_fx_auto_stem(s) ==> plan == (
                Seq::<LayerInterval>::empty(),
                AutoLayerExtra::NoExtra,
            )
            &&& is_pad_stack_stem(s) ==> plan == (
                seq![LayerInterval::Octave, LayerInterval::OctaveDown],
                AutoLayerExtra::FifthAndOctave2,
            )
            &&& !is_lead_stem(s) && !is_fx_stem(s) && !is_pad_stack_stem(s) ==> plan == (
                Seq::<LayerInterval>::empty(),
                AutoLayerExtra::NoExtra,
            )
        }),
        layer_plan(id, Some(own), LayerModeView::Auto) == (own, AutoLayerExtra::NoExtra),
        layer_plan(id, None, LayerModeView::Explicit(own)) == (own, AutoLayerExtra::NoExtra),
{
    let s = preset_stem_of(id);
    lemma_id_classes(s);
}

/// The intervals Auto may add after the first mix, when the mix still sounds
/// thin: those the plan's extra names, less any the plan already mixes.
pub open spec fn follow_up_of(intervals: Seq<LayerInterval>, extra: AutoLayerExtra) -> Seq<
    LayerInterval,
> {
    match extra {
        AutoLayerExtra::NoExtra => Seq::empty(),
        AutoLayerExtra::Fifth => unless_mixed(intervals, LayerInterval::Fifth),
        AutoLayerExtra::OctaveDown3 => unless_mixed(intervals, LayerInterval::OctaveDown3),
        AutoLayerExtra::FifthAndOctave2 => unless_mixed(intervals, LayerInterval::Fifth)
            + unless_mixed(intervals, LayerInterval::Octave2),
    }
}

fn push_unless_mixed(out: &mut Vec<LayerInterval>, intervals: &Vec<LayerInterval>, x: LayerInterval)
    ensures
        final(out)@ == old(out)@ + unless_mixed(intervals@, x),
{
    if !holds(intervals, x) {
        out.push(x);
    }
    assert(final(out)@ =~= old(out)@ + unless_mixed(intervals@, x));
}

/// The follow-up intervals of `plan` that Auto may still add.
pub fn follow_up_intervals(plan: &LayerPlan) -> (r: Vec<LayerInterval>)
    ensures
        r@ == follow_up_of(plan.intervals@, plan.extra),
{
    let mut r: Vec<LayerInterval> = Vec::new();
    match plan.extra {
        AutoLayerExtra::NoExtra => {},
        AutoLayerExtra::Fifth => push_unless_mixed(&mut r, &plan.intervals, LayerInterval::Fifth),
        AutoLayerExtra::OctaveDown3 => push_unless_mixed(
            &mut r,
            &plan.intervals,
            LayerInterval::OctaveDown3,
        ),
        AutoLayerExtra::FifthAndOctave2 => {
            push_unless_mixed(&mut r, &plan.intervals, LayerInterval::Fifth);
            push_unless_mixed(&mut r, &plan.intervals, LayerInterval::Octave2);
        },
    }
    assert(r@ =~= follow_up_of(plan.intervals@, plan.extra));
    r
}

pub open spec fn ascending(s: Seq<i16>) -> bool {
    forall|i: int, j: int| 0 <= i < j < s.len() ==> s[i] <= s[j]
}

/// `v` in ascending order.
pub fn sort_offsets(v: &Vec<i16>) -> (r: Vec<i16>)
    ensures
        ascending(r@),
        r@.to_multiset() == v@.to_multiset(),
{
    broadcast use vstd::seq_lib::group_to_multiset_ensures;

    let mut r: Vec<i16> = Vec::new();
    let mut i: usize = 0;
    while i < v.len()
        invariant
            i <= v.len(),
            ascending(r@),
            r@.to_multiset() == v@.subrange(0, i as int).to_multiset(),
        decreases v.len() - i,
    {
        let x = v[i];
        let mut j: usize = 0;
        while j < r.len() && r[j] <= x
            invariant
                j <= r.len(),
                forall|k: int| 0 <= k < j ==> r@[k] <= x,
            decreases r.len() - j,
        {
            j = j + 1;
        }
        let ghost before = r@;
        r.insert(j, x);
        proof {
            vstd::seq_lib::to_multiset_insert(before, j as int, x);
            assert(v@.subrange(0, i + 1) == v@.subrange(0, i as int).push(x));
            vstd::seq_lib::to_multiset_build(v@.subrange(0, i as int), x);
            assert(r@.to_multiset() == v@.subrange(0, i + 1).to_multiset());
            assert forall|a: int, b: int| 0 <= a < b < r@.len() implies r@[a] <= r@[b] by {
                if b < j {
                } else if b == j {
                } else if a < j {
                    assert(r@[b] == before[b - 1]);
                    if j < before.len() {
                        assert(before[j as int] > x);
                    }
                } else if a == j {
                    assert(r@[b] == before[b - 1]);
                    assert(before[j as int] > x);
                } else {
                    assert(r@[a] == before[a - 1] && r@[b] == before[b - 1]);
                }
            }
        }
        i = i + 1;
    }
    assert(v@.subrange(0, v.len() as int) == v@);
    r
}

/// The semitone offsets of `intervals`, in order.
pub open spec fn offsets_in(intervals: Seq<LayerInterval>) -> Seq<i16> {
    Seq::new(intervals.len(), |i: int| intervals[i].spec_semitones() as i16)
}

/// The offsets a layered render mixes: the unison root, each planned
/// interval, and each follow-up interval that was added.
pub open spec fn offsets_of(intervals: Seq<LayerInterval>, added: Seq<LayerInterval>) -> Seq<i16> {
    seq![0i16] + offsets_in(intervals) + offsets_in(added)
}

fn push_offsets(v: &mut Vec<i16>, intervals: &Vec<LayerInterval>)
    ensures
        final(v)@ == old(v)@ + offsets_in(intervals@),
{
    let ghost start = v@;
    let mut i: usize = 0;
    while i < intervals.len()
        invariant
            i <= intervals.len(),
            v@ == start + offsets_in(intervals@.subrange(0, i as int)),
        decreases intervals.len() - i,
    {
        v.push(intervals[i].semitones());
        i = i + 1;
        assert(v@ =~= start + offsets_in(intervals@.subrange(0, i as int)));
    }
    assert(intervals@.subrange(0, i as int) =~= intervals@);
}

/// Semitone offsets of a layered render, in ascending order.
pub fn mixed_semitones(intervals: &Vec<LayerInterval>, added: &Vec<LayerInterval>) -> (r: Vec<i16>)
    ensures
        ascending(r@),
        r@.to_multiset() == offsets_of(intervals@, added@).to_multiset(),
{
    let mut v: Vec<i16> = Vec::new();
    v.push(0);
    push_offsets(&mut v, intervals);
    push_offsets(&mut v, added);
    sort_offsets(&v)
}

/// A layered render always mixes the unison root.
pub proof fn lemma_root_always_mixed(
    intervals: Seq<LayerInterval>,
    added: Seq<LayerInterval>,
    mixed: Seq<i16>,
)
    requires
        mixed.to_multiset() == offsets_of(intervals, added).to_multiset(),
    ensures
        mixed.contains(0i16),
{
    broadcast use vstd::seq_lib::group_to_multiset_ensures;

    let o = offsets_of(intervals, added);
    assert(o[0] == 0i16);
    assert(o.contains(0i16));
    assert(o.to_multiset().count(0i16) > 0);
}

/// With layers off, a render mixes the root alone, whatever the preset asks for.
pub proof fn lemma_off_is_single_voice(id: Seq<char>, render_layers: Option<Seq<LayerInterval>>)
    ensures
        ({
            let plan = layer_plan(id, render_layers, LayerModeView::Off);
            &&& plan.0.len() == 0
            &&& follow_up_of(plan.0, plan.1).len() == 0
            &&& offsets_of(plan.0, follow_up_of(plan.0, plan.1)) == seq![0i16]
        }),
{
    let plan = layer_plan(id, render_layers, LayerModeView::Off);
    assert(follow_up_of(plan.0, plan.1) =~= Seq::<LayerInterval>::empty());
    assert(offsets_of(plan.0, Seq::empty()) =~= seq![0i16]);
}

} // verus!
