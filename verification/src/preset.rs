//! The factory bank and how a preset name resolves: to a factory patch, to a
//! TOML file, and to the name its render is saved under.
use vstd::prelude::*;

use crate::algorithm::{dashes, dashes_chars};
use crate::error::{views, Error, Result};
use crate::paths::{
    file_name_of, file_stem_of, join_path, joined_path, path_file_name, path_file_stem,
    path_is_file, paths_equal, same_path,
};
use crate::text::{
    chars_of, decimal, ends_with, ends_with_chars, eq_chars, is_white_space, lemma_trim_edges,
    lower, lower_chars, string_from, string_of, trim, trim_chars, trim_end, trim_start,
    unsigned_decimal_string,
};

verus! {

/// Number of patches in the factory bank.
pub const FACTORY_LEN: usize = 366;

/// The factory bank in bank order, as `(category folder, id)`. Each patch is
/// stored as `presets/<category>/<id>.toml`.
pub const FACTORY: [(&'static str, &'static str); 366] = [
    ("bass", "sub-bass"),
    ("bass", "growl-bass"),
    ("perc", "metallic-hit"),
    ("fx", "fm-riser"),
    ("ld", "stab-pluck"),
    ("fx", "zap"),
    ("perc", "glass-hit"),
    ("bass", "supersaw-bass"),
    ("ld", "filter-pluck"),
    ("bass", "bp-growl"),
    ("fx", "hp-air"),
    ("bd", "bd-808-boom"),
    ("bd", "bd-808-tight"),
    ("bd", "bd-909-punch"),
    ("bd", "bd-house-floor"),
    ("bd", "bd-techno-thud"),
    ("bd", "bd-dnb-tight"),
    ("bd", "bd-neuro-growl"),
    ("bd", "bd-frenchcore"),
    ("bd", "bd-gabber-stomp"),
    ("bd", "bd-hardstyle"),
    ("bd", "bd-lofi-dust"),
    ("bd", "bd-click"),
    ("bd", "bd-sub"),
    ("bd", "bd-metal-ping"),
    ("bd", "bd-cinematic"),
    ("bd", "bd-electro-zap"),
    ("bd", "bd-808-dist"),
    ("bd", "bd-disco-dry"),
    ("bd", "bd-jungle-round"),
    ("bd", "bd-fm-noise"),
    ("sd", "sd-808-snap"),
    ("sd", "sd-909-snappy"),
    ("sd", "sd-pop-tight"),
    ("sd", "sd-fat-backbeat"),
    ("sd", "sd-rimshot"),
    ("sd", "sd-clap-snare"),
    ("sd", "sd-gated-80s"),
    ("sd", "sd-brush-dust"),
    ("sd", "sd-piccolo"),
    ("sd", "sd-dnb-tight"),
    ("sd", "sd-jungle-round"),
    ("sd", "sd-neuro-growl"),
    ("sd", "sd-frenchcore"),
    ("sd", "sd-gabber-indust"),
    ("sd", "sd-trap-crisp"),
    ("sd", "sd-house-disco"),
    ("sd", "sd-metal-ping"),
    ("sd", "sd-noise-layer"),
    ("sd", "sd-tone-layer"),
    ("sd", "sd-fm-long"),
    ("perc", "cp-house"),
    ("ld", "lead-fm-pluck"),
    ("ld", "stab-fm-fifth"),
    ("ld", "stab-fm-major"),
    ("bass", "reese-mid"),
    ("ld", "ld-fm-pluck"),
    ("ld", "ld-hollow-fifth"),
    ("ld", "ld-house-pluck"),
    ("ld", "ld-dnb-stab"),
    ("ld", "ld-supersaw-stab"),
    ("ld", "ld-nylon"),
    ("ld", "ld-bell-pluck"),
    ("ld", "ld-mallet"),
    ("ld", "ld-perc"),
    ("ld", "ld-supersaw"),
    ("ld", "ld-unison-saw"),
    ("ld", "ld-trance-gate"),
    ("ld", "ld-hoover"),
    ("ld", "ld-sync-fm"),
    ("ld", "ld-formant"),
    ("ld", "ld-pulse"),
    ("ld", "ld-anthem"),
    ("ld", "ld-growl"),
    ("ld", "ld-metallic"),
    ("ld", "ld-industrial"),
    ("ld", "ld-frenchcore"),
    ("ld", "ld-gabber"),
    ("ld", "ld-acid"),
    ("ld", "ld-dist-pulse"),
    ("ld", "ld-sine"),
    ("ld", "ld-half-sine"),
    ("ld", "ld-choir"),
    ("ld", "ld-glass"),
    ("ld", "ld-music-box"),
    ("ld", "ld-flute"),
    ("ld", "ld-organ"),
    ("ld", "ld-fifth-pad"),
    ("ld", "ld-octave"),
    ("ld", "ld-zap"),
    ("ld", "ld-drop-pluck"),
    ("ld", "ld-laser"),
    ("ld", "ld-vowel"),
    ("ld", "ld-noisy-bp"),
    ("ld", "ld-reverse"),
    ("ld", "ld-cinematic"),
    ("ld", "ld-crystal"),
    ("ld", "ld-brass"),
    ("ld", "ld-reed"),
    ("ld", "ld-chip"),
    ("ld", "ld-wobble"),
    ("ld", "ld-hardstyle"),
    ("ld", "ld-arp-pluck"),
    ("ld", "ld-saw-pluck"),
    ("ld", "ld-ethereal"),
    ("ld", "ld-harpsi"),
    ("fx", "fx-rev-cym"),
    ("fx", "fx-rev-crash"),
    ("fx", "fx-rev-hat"),
    ("fx", "fx-rev-cym-long"),
    ("fx", "fx-rev-cym-bright"),
    ("fx", "fx-rev-cym-dark"),
    ("fx", "fx-rev-crash-metal"),
    ("fx", "fx-rev-air"),
    ("fx", "fx-rev-cym-noise"),
    ("fx", "fx-rev-splash"),
    ("fx", "fx-noise-hit"),
    ("fx", "fx-noise-burst"),
    ("fx", "fx-metal-crash"),
    ("fx", "fx-glass-smash"),
    ("fx", "fx-impact"),
    ("fx", "fx-boom"),
    ("fx", "fx-sub-drop"),
    ("fx", "fx-impact-mid"),
    ("fx", "fx-uplifter"),
    ("fx", "fx-riser-noise"),
    ("fx", "fx-riser-pitch"),
    ("fx", "fx-riser-saw"),
    ("fx", "fx-downlifter"),
    ("fx", "fx-fall"),
    ("fx", "fx-downlifter-noise"),
    ("fx", "fx-whoosh"),
    ("fx", "fx-wind"),
    ("fx", "fx-passby"),
    ("fx", "fx-laser"),
    ("fx", "fx-zap"),
    ("fx", "fx-blip"),
    ("fx", "fx-laser-fall"),
    ("fx", "fx-sweep-bp"),
    ("fx", "fx-formant-ah"),
    ("fx", "fx-formant-oh"),
    ("fx", "fx-tape-stop"),
    ("fx", "fx-rev-verb"),
    ("fx", "fx-clang"),
    ("fx", "fx-frenchcore-ns"),
    ("fx", "fx-gabber-stab"),
    ("fx", "fx-crackle"),
    ("fx", "fx-radio-stab"),
    ("fx", "fx-alarm"),
    ("fx", "fx-siren"),
    ("fx", "fx-down-to-kick"),
    ("fx", "fx-trans-fill"),
    ("fx", "fx-impact-dnb"),
    ("fx", "fx-whoosh-hp"),
    ("fx", "fx-riser-filter"),
    ("fx", "fx-hoover-fall"),
    ("bass", "bs-808-sub"),
    ("bass", "bs-reese-dark"),
    ("bass", "bs-reese-bright"),
    ("bass", "bs-reese-neuro"),
    ("bass", "bs-wobble"),
    ("bass", "bs-acid"),
    ("bass", "bs-frenchcore"),
    ("bass", "bs-gabber"),
    ("bass", "bs-hoover"),
    ("bass", "bs-dist-square"),
    ("bass", "bs-house-tight"),
    ("bass", "bs-amen-sub"),
    ("bass", "bs-growl-2"),
    ("bass", "bs-sine-sub"),
    ("bass", "bs-metal-fm"),
    ("perc", "pc-hat-closed"),
    ("perc", "pc-hat-open"),
    ("perc", "pc-hat-house"),
    ("perc", "pc-hat-dnb-cl"),
    ("perc", "pc-hat-dnb-op"),
    ("perc", "pc-hat-fc"),
    ("perc", "pc-hat-pedal"),
    ("perc", "pc-hat-tight"),
    ("perc", "pc-hat-dark"),
    ("perc", "pc-hat-noise"),
    ("perc", "pc-hat-chip"),
    ("perc", "pc-hat-fc-op"),
    ("perc", "pc-shaker"),
    ("perc", "pc-shaker-short"),
    ("perc", "pc-tamb"),
    ("perc", "pc-tamb-roll"),
    ("perc", "pc-cabasa"),
    ("perc", "pc-conga-hi"),
    ("perc", "pc-conga-lo"),
    ("perc", "pc-bongo-hi"),
    ("perc", "pc-bongo-lo"),
    ("perc", "pc-tom-hi"),
    ("perc", "pc-tom-mid"),
    ("perc", "pc-tom-lo"),
    ("perc", "pc-rim"),
    ("perc", "pc-cowbell"),
    ("perc", "pc-clave"),
    ("perc", "pc-snap"),
    ("perc", "pc-snaps"),
    ("perc", "pc-snap-lo"),
    ("perc", "pc-triangle"),
    ("perc", "pc-ride-fm"),
    ("perc", "pc-ride-bell"),
    ("perc", "pc-woodblock"),
    ("perc", "pc-agogo-hi"),
    ("perc", "pc-agogo-lo"),
    ("perc", "pc-tick-metal"),
    ("perc", "pc-tick-indust"),
    ("perc", "pc-tick-clock"),
    ("perc", "pc-clap-dry"),
    ("perc", "pc-clap-room"),
    ("perc", "pc-clap-gate"),
    ("perc", "pc-zap"),
    ("perc", "pc-zap-lo"),
    ("perc", "pc-foley-click"),
    ("perc", "pc-foley-thud"),
    ("perc", "pc-foley-scratch"),
    ("perc", "pc-chime"),
    ("perc", "pc-guiro"),
    ("perc", "pc-stick"),
    ("drone", "dr-sine-sub"),
    ("drone", "dr-sub-octave"),
    ("drone", "dr-rumble"),
    ("drone", "dr-reese-dark"),
    ("drone", "dr-reese-wide"),
    ("drone", "dr-supersaw-low"),
    ("drone", "dr-pulse-rumble"),
    ("drone", "dr-fifth-hollow"),
    ("drone", "dr-octave-stack"),
    ("drone", "dr-minor-dark"),
    ("drone", "dr-fm-evolve"),
    ("drone", "dr-fm-index"),
    ("drone", "dr-noisy-bp"),
    ("drone", "dr-metal-distant"),
    ("drone", "dr-choir-low"),
    ("drone", "dr-choir-dark"),
    ("drone", "dr-trailer-bloom"),
    ("drone", "dr-impact-hold"),
    ("drone", "dr-reverse-hold"),
    ("drone", "dr-riser-slow"),
    ("drone", "dr-underwater"),
    ("drone", "dr-industrial"),
    ("drone", "dr-scifi-hum"),
    ("drone", "dr-horror"),
    ("drone", "dr-ambient-dark"),
    ("drone", "dr-brass-pad"),
    ("drone", "dr-brass-distant"),
    ("drone", "dr-thunder-bed"),
    ("drone", "dr-dystopia"),
    ("drone", "dr-pad-dark"),
    ("drone", "dr-hum-grid"),
    ("drone", "dr-void"),
    ("drone", "dr-abyss"),
    ("drone", "dr-cathedral"),
    ("drone", "dr-engine"),
    ("drone", "dr-reactor"),
    ("drone", "dr-ice-cave"),
    ("drone", "dr-fog"),
    ("drone", "dr-warfare"),
    ("drone", "dr-ritual"),
    ("drone", "dr-ghost-choir"),
    ("drone", "dr-metal-bed"),
    ("drone", "dr-pulse-fifth"),
    ("drone", "dr-saw-minor"),
    ("drone", "dr-fm-bell-low"),
    ("drone", "dr-wobble-slow"),
    ("drone", "dr-formant-low"),
    ("drone", "dr-tape-hum"),
    ("drone", "dr-storm"),
    ("drone", "dr-score-hold"),
    ("pad-fresh", "pf-morning"),
    ("pad-fresh", "pf-juno-air"),
    ("pad-fresh", "pf-chorus-wide"),
    ("pad-fresh", "pf-flute-pad"),
    ("pad-fresh", "pf-choir-air"),
    ("pad-fresh", "pf-fifth-open"),
    ("pad-fresh", "pf-ninth-open"),
    ("pad-fresh", "pf-lydian-sky"),
    ("pad-fresh", "pf-major-soft"),
    ("pad-fresh", "pf-glass-air"),
    ("pad-fresh", "pf-dawn"),
    ("pad-fresh", "pf-breeze"),
    ("pad-fresh", "pf-sky-open"),
    ("pad-fresh", "pf-cloud"),
    ("pad-fresh", "pf-horizon"),
    ("pad-fresh", "pf-meadow"),
    ("pad-fresh", "pf-clear-saw"),
    ("pad-fresh", "pf-pulse-air"),
    ("pad-fresh", "pf-octave-light"),
    ("pad-fresh", "pf-silk"),
    ("pad-fresh", "pf-ivory"),
    ("pad-fresh", "pf-harp-air"),
    ("pad-fresh", "pf-organ-light"),
    ("pad-fresh", "pf-reed-soft"),
    ("pad-fresh", "pf-water-air"),
    ("pad-fresh", "pf-alpine"),
    ("pad-fresh", "pf-spring"),
    ("pad-fresh", "pf-linen"),
    ("pad-fresh", "pf-halo"),
    ("pad-fresh", "pf-wide-major"),
    ("pad-sparkle", "ps-crystal"),
    ("pad-sparkle", "ps-bell-hold"),
    ("pad-sparkle", "ps-shimmer"),
    ("pad-sparkle", "ps-music-box"),
    ("pad-sparkle", "ps-ice-shine"),
    ("pad-sparkle", "ps-starlight"),
    ("pad-sparkle", "ps-glitter"),
    ("pad-sparkle", "ps-chime-pad"),
    ("pad-sparkle", "ps-fm-sparkle"),
    ("pad-sparkle", "ps-chorus-shine"),
    ("pad-sparkle", "ps-glass-bell"),
    ("pad-sparkle", "ps-celesta"),
    ("pad-sparkle", "ps-prism"),
    ("pad-sparkle", "ps-frost"),
    ("pad-sparkle", "ps-twinkle"),
    ("pad-sparkle", "ps-aurora"),
    ("pad-sparkle", "ps-diamond"),
    ("pad-sparkle", "ps-silver"),
    ("pad-sparkle", "ps-glisten"),
    ("pad-sparkle", "ps-high-partials"),
    ("pad-sparkle", "ps-inharmonic"),
    ("pad-sparkle", "ps-celestial"),
    ("pad-sparkle", "ps-spark-evolve"),
    ("pad-sparkle", "ps-halo-shine"),
    ("pad-sparkle", "ps-crystal-choir"),
    ("pad-sparkle", "ps-bell-air"),
    ("pad-sparkle", "ps-glock-pad"),
    ("pad-sparkle", "ps-shine-fifth"),
    ("pad-sparkle", "ps-ice-choir"),
    ("pad-sparkle", "ps-quartz"),
    ("pluck", "pl-house-dry"),
    ("pluck", "pl-house-bright"),
    ("pluck", "pl-future-glass"),
    ("pluck", "pl-dnb-tight"),
    ("pluck", "pl-dnb-neuro"),
    ("pluck", "pl-pop-soft"),
    ("pluck", "pl-pop-nylon"),
    ("pluck", "pl-mallet-marimba"),
    ("pluck", "pl-mallet-bell"),
    ("pluck", "pl-musicbox"),
    ("pluck", "pl-trance-gate"),
    ("pluck", "pl-supersaw-short"),
    ("pluck", "pl-fm-ep"),
    ("pluck", "pl-fm-crystal"),
    ("pluck", "pl-harp-open"),
    ("pluck", "pl-guitar-mute"),
    ("pluck", "pl-koto"),
    ("pluck", "pl-kalimba"),
    ("pluck", "pl-chime-high"),
    ("pluck", "pl-bass-pluck"),
    ("pluck", "pl-acid-short"),
    ("pluck", "pl-lofi-dust"),
    ("pluck", "pl-ambient-soft"),
    ("pluck", "pl-arp-minor"),
    ("pluck", "pl-arp-major"),
    ("pluck", "pl-stab-fifth"),
    ("pluck", "pl-stab-major"),
    ("pluck", "pl-perc-click"),
    ("pluck", "pl-reverse-swell"),
    ("pluck", "pl-clav-funk"),
    ("ep", "ep-rhodes-soft"),
    ("ep", "ep-rhodes-hard"),
    ("ep", "ep-wurli"),
    ("ep", "ep-tine-bell"),
    ("ep", "ep-muted"),
];

/// The id of factory entry `i`.
pub open spec fn factory_id(i: int) -> Seq<char> {
    FACTORY@[i].1@
}

/// All factory ids, in bank order.
pub open spec fn factory_id_list() -> Seq<Seq<char>> {
    Seq::new(FACTORY_LEN as nat, |i: int| factory_id(i))
}

/// Identifiers in factory-bank order.
pub fn factory_ids() -> (r: Vec<&'static str>)
    ensures
        Seq::new(r@.len(), |i: int| r@[i]@) == factory_id_list(),
{
    let mut r: Vec<&'static str> = Vec::new();
    let mut i: usize = 0;
    while i < FACTORY_LEN
        invariant
            i <= FACTORY_LEN,
            r@.len() == i,
            forall|k: int| 0 <= k < i ==> #[trigger] r@[k]@ == factory_id(k),
        decreases FACTORY_LEN - i,
    {
        r.push(FACTORY[i].1);
        i = i + 1;
    }
    assert(Seq::new(r@.len(), |k: int| r@[k]@) =~= factory_id_list());
    r
}

/// A preset key as lookups compare it: trimmed, ASCII lower case, `_` as `-`.
pub open spec fn normalized(s: Seq<char>) -> Seq<char> {
    dashes(lower(trim(s)))
}

/// `id.trim().to_ascii_lowercase().replace('_', "-")`.
pub fn normalize_id(id: &str) -> (r: String)
    ensures
        r@ == normalized(id@),
{
    string_of(&dashes_chars(&lower_chars(&trim_chars(&chars_of(id)))))
}

/// The first factory entry at or after `i` whose id normalizes to `key`.
pub open spec fn first_match_from(key: Seq<char>, i: int) -> Option<int>
    decreases FACTORY_LEN - i,
{
    if i < 0 || i >= FACTORY_LEN {
        None
    } else if normalized(factory_id(i)) == key {
        Some(i)
    } else {
        first_match_from(key, i + 1)
    }
}

/// The factory entry a name selects: the first whose id normalizes like it.
pub open spec fn factory_match(name: Seq<char>) -> Option<int> {
    first_match_from(normalized(name), 0)
}

proof fn lemma_first_match_from(key: Seq<char>, i: int)
    requires
        0 <= i <= FACTORY_LEN,
    ensures
        match first_match_from(key, i) {
            Some(j) => i <= j < FACTORY_LEN && normalized(factory_id(j)) == key && forall|k: int|
                i <= k < j ==> normalized(#[trigger] factory_id(k)) != key,
            None => forall|k: int| i <= k < FACTORY_LEN ==> normalized(#[trigger] factory_id(k)) != key,
        },
    decreases FACTORY_LEN - i,
{
    if i < FACTORY_LEN {
        lemma_first_match_from(key, i + 1);
    }
}

/// Index of the factory entry `name` selects, if any.
pub fn find_factory(name: &str) -> (r: Option<usize>)
    ensures
        match r {
            Some(i) => factory_match(name@) == Some(i as int),
            None => factory_match(name@) is None,
        },
{
    let key = dashes_chars(&lower_chars(&trim_chars(&chars_of(name))));
    let mut i: usize = 0;
    while i < FACTORY_LEN
        invariant
            i <= FACTORY_LEN,
            key@ == normalized(name@),
            factory_match(name@) == first_match_from(key@, i as int),
        decreases FACTORY_LEN - i,
    {
        let fid = normalize_id(FACTORY[i].1);
        if eq_chars(&key, fid.as_str()) {
            return Some(i);
        }
        i = i + 1;
    }
    None
}

/// Whether `e` is `PresetNotFound` for `name`, listing `searched`.
pub open spec fn is_not_found(e: Error, name: Seq<char>, searched: Seq<Seq<char>>) -> bool {
    e matches Error::PresetNotFound { name: n, searched: s } && n@ == name && views(s@) == searched
}

/// The ids of the factory bank, as owned strings.
fn factory_id_strings() -> (r: Vec<String>)
    ensures
        views(r@) == factory_id_list(),
{
    let mut r: Vec<String> = Vec::new();
    let mut i: usize = 0;
    while i < FACTORY_LEN
        invariant
            i <= FACTORY_LEN,
            r@.len() == i,
            forall|k: int| 0 <= k < i ==> #[trigger] r@[k]@ == factory_id(k),
        decreases FACTORY_LEN - i,
    {
        r.push(string_from(FACTORY[i].1));
        i = i + 1;
    }
    assert(views(r@) =~= factory_id_list());
    r
}

/// The factory entry `name` selects, or `PresetNotFound` listing every factory id.
pub fn lookup_factory(name: &str) -> (r: Result<usize>)
    ensures
        match r {
            Ok(i) => factory_match(name@) == Some(i as int),
            Err(e) => factory_match(name@) is None && is_not_found(e, name@, factory_id_list()),
        },
{
    match find_factory(name) {
        Some(i) => Ok(i),
        None => Err(Error::PresetNotFound { name: string_from(name), searched: factory_id_strings() }),
    }
}

/// Default of a preset's `feedback_op`: OP4 feeds back on itself.
pub fn default_feedback_op() -> (r: u8)
    ensures
        r == 4,
{
    4
}

/// Default of a preset's `default_note`: MIDI 48 (C3).
pub fn default_note() -> (r: u8)
    ensures
        r == 48,
{
    48
}

/// Whether `e` is `PresetParse` for `source` with the text `message`.
pub open spec fn is_parse_error(e: Error, source: Seq<char>, message: Seq<char>) -> bool {
    e matches Error::PresetParse { source: s, message: m } && s@ == source && m@ == message
}

/// The checks a parsed preset must pass: four operators, then a feedback
/// operator 1–4. On success, the name to keep: a blank name becomes `source`.
pub fn validate_preset(source: &str, name: &str, operator_count: usize, feedback_op: u8) -> (r:
    Result<String>)
    ensures
        match r {
            Ok(n) => operator_count == 4 && 1 <= feedback_op <= 4 && n@ == (if trim(name@).len()
                == 0 {
                source@
            } else {
                name@
            }),
            Err(e) => if operator_count != 4 {
                is_parse_error(e, source@, "expected 4 operators, got "@ + decimal(operator_count as int))
            } else {
                !(1 <= feedback_op <= 4) && is_parse_error(
                    e,
                    source@,
                    "feedback_op must be 1-4, got "@ + decimal(feedback_op as int),
                )
            },
        },
{
    if operator_count != 4 {
        let mut message = string_from("expected 4 operators, got ");
        let n = unsigned_decimal_string(operator_count as u64);
        message.append(n.as_str());
        return Err(Error::PresetParse { source: string_from(source), message });
    }
    if feedback_op < 1 || feedback_op > 4 {
        let mut message = string_from("feedback_op must be 1-4, got ");
        let n = unsigned_decimal_string(feedback_op as u64);
        message.append(n.as_str());
        return Err(Error::PresetParse { source: string_from(source), message });
    }
    let t = trim_chars(&chars_of(name));
    if t.len() == 0 {
        Ok(string_from(source))
    } else {
        Ok(string_from(name))
    }
}

/// The stem a path names a render by: its file stem, or `preset` when it has
/// none or an empty one.
pub open spec fn path_stem_of(path: Seq<char>) -> Seq<char> {
    stem_or_preset_of(file_stem_of(path))
}

pub open spec fn stem_or_preset_of(file_stem: Option<Seq<char>>) -> Seq<char> {
    match file_stem {
        Some(s) => if s.len() > 0 {
            s
        } else {
            "preset"@
        },
        None => "preset"@,
    }
}

/// The render name given what `Path::file_stem` returned: a non-empty stem,
/// else `preset`.
pub fn stem_or_preset(file_stem: Option<String>) -> (r: String)
    ensures
        r@ == stem_or_preset_of(
            match file_stem {
                Some(s) => Some(s@),
                None => None,
            },
        ),
{
    match file_stem {
        Some(s) => if s.unicode_len() > 0 {
            s
        } else {
            string_from("preset")
        },
        None => string_from("preset"),
    }
}

/// The name a TOML path gives its render: its file stem, or `preset`.
pub fn path_stem(path: &str) -> (r: String)
    ensures
        r@ == path_stem_of(path@),
{
    stem_or_preset(path_file_stem(path))
}

pub open spec fn opt_view(o: Option<&str>) -> Option<Seq<char>> {
    match o {
        Some(s) => Some(s@),
        None => None,
    }
}

/// The name a render is saved under (`dist/<id>.wav`), given whether the
/// preset name is a file on disk. A TOML path gives its file stem; a factory
/// name gives the factory id, whatever its spelling; any other name gives its
/// normalized form.
pub open spec fn output_id_of(
    preset_name: Option<Seq<char>>,
    preset_file: Option<Seq<char>>,
    name_is_file: bool,
) -> Seq<char> {
    match preset_file {
        Some(p) => path_stem_of(p),
        None => match preset_name {
            None => "preset"@,
            Some(n) => if ends_with(n, ".toml"@) || name_is_file {
                path_stem_of(n)
            } else {
                match factory_match(n) {
                    Some(i) => factory_id(i),
                    None => normalized(n),
                }
            },
        },
    }
}

/// The output name once it is known whether the preset name is a file on disk.
pub fn output_preset_id_given(
    preset_name: Option<&str>,
    preset_file: Option<&str>,
    name_is_file: bool,
) -> (r: String)
    ensures
        r@ == output_id_of(opt_view(preset_name), opt_view(preset_file), name_is_file),
{
    if let Some(path) = preset_file {
        return path_stem(path);
    }
    let name = match preset_name {
        Some(n) => n,
        None => {
            return string_from("preset");
        },
    };
    let v = chars_of(name);
    if ends_with_chars(&v, ".toml") || name_is_file {
        return path_stem(name);
    }
    match find_factory(name) {
        Some(i) => {
            proof {
                lemma_first_match_from(normalized(name@), 0);
            }
            string_from(FACTORY[i].1)
        },
        None => normalize_id(name),
    }
}

/// Filename stem for a default WAV (`dist/<id>.wav`).
///
/// Factory ids win over display names. A TOML path uses its file stem. Whether
/// a name that does not end in `.toml` is a file is asked of the disk, so the
/// result is the output name for one of the two answers.
pub fn output_preset_id(preset_name: Option<&str>, preset_file: Option<&str>) -> (r: String)
    ensures
        r@ == output_id_of(opt_view(preset_name), opt_view(preset_file), false) || r@
            == output_id_of(opt_view(preset_name), opt_view(preset_file), true),
{
    let asks_disk = match (preset_file, preset_name) {
        (None, Some(name)) => !ends_with_chars(&chars_of(name), ".toml"),
        _ => false,
    };
    let name_is_file = if asks_disk {
        match preset_name {
            Some(name) => path_is_file(name),
            None => false,
        }
    } else {
        false
    };
    output_preset_id_given(preset_name, preset_file, name_is_file)
}

/// `out` with `path` added at the end, unless some entry is already the same path.
pub open spec fn with_unique(out: Seq<Seq<char>>, path: Seq<char>) -> Seq<Seq<char>> {
    if exists|i: int| 0 <= i < out.len() && same_path(#[trigger] out[i], path) {
        out
    } else {
        out.push(path)
    }
}

/// Adds `path` to `out` unless `out` already holds the same path.
pub fn push_unique(out: &mut Vec<String>, path: String)
    ensures
        views(final(out)@) == with_unique(views(old(out)@), path@),
{
    let mut i: usize = 0;
    while i < out.len()
        invariant
            i <= out.len(),
            forall|k: int| 0 <= k < i ==> !same_path(#[trigger] out@[k]@, path@),
        decreases out.len() - i,
    {
        if paths_equal(out[i].as_str(), path.as_str()) {
            assert(views(out@)[i as int] == out@[i as int]@);
            return;
        }
        i = i + 1;
    }
    let ghost before = views(out@);
    assert(forall|k: int| 0 <= k < before.len() ==> !same_path(#[trigger] before[k], path@)) by {
        assert(forall|k: int| 0 <= k < before.len() ==> before[k] == out@[k]@);
    }
    out.push(path);
    assert(views(out@) =~= before.push(path@));
}

/// `name` as a TOML file name: unchanged if it ends in `.toml`, else with `.toml` added.
pub open spec fn toml_file_name(name: Seq<char>) -> Seq<char> {
    if ends_with(name, ".toml"@) {
        name
    } else {
        name + ".toml"@
    }
}

/// `out` after adding, in order and without repeats, each path of `found`
/// whose file name is `want`.
pub open spec fn add_matching(out: Seq<Seq<char>>, found: Seq<Seq<char>>, want: Seq<char>) -> Seq<
    Seq<char>,
>
    decreases found.len(),
{
    if found.len() == 0 {
        out
    } else {
        let o = add_matching(out, found.drop_last(), want);
        if file_name_of(found.last()) == Some(want) {
            with_unique(o, found.last())
        } else {
            o
        }
    }
}

/// Where a preset named `name` may be stored, in the order they are tried:
/// `presets/<file>`, `<file>`, then each TOML file found under `presets/`
/// (`found`, in walk order) with the same file name, no path twice.
pub open spec fn candidates_of(name: Seq<char>, found: Seq<Seq<char>>) -> Seq<Seq<char>> {
    let file = toml_file_name(name);
    let base = with_unique(with_unique(Seq::empty(), joined_path("presets"@, file)), file);
    match file_name_of(file) {
        Some(want) => add_matching(base, found, want),
        None => base,
    }
}

/// Candidate files for the preset `name`, given the TOML files found under
/// `presets/` (the walk itself reads the disk).
pub fn preset_file_candidates(name: &str, found: &Vec<String>) -> (r: Vec<String>)
    ensures
        views(r@) == candidates_of(name@, views(found@)),
{
    let v = chars_of(name);
    let file = if ends_with_chars(&v, ".toml") {
        string_from(name)
    } else {
        let mut f = string_from(name);
        f.append(".toml");
        f
    };
    assert(file@ == toml_file_name(name@));
    let mut out: Vec<String> = Vec::new();
    assert(views(out@) =~= Seq::<Seq<char>>::empty());
    push_unique(&mut out, join_path("presets", file.as_str()));
    push_unique(&mut out, file.clone());
    let ghost base = views(out@);
    match path_file_name(file.as_str()) {
        Some(want) => {
            let mut i: usize = 0;
            while i < found.len()
                invariant
                    i <= found.len(),
                    views(out@) == add_matching(base, views(found@).subrange(0, i as int), want@),
                decreases found.len() - i,
            {
                let ghost pre = views(found@).subrange(0, i as int);
                let ghost next = views(found@).subrange(0, i + 1);
                assert(next.drop_last() =~= pre);
                assert(next.last() == found@[i as int]@);
                match path_file_name(found[i].as_str()) {
                    Some(n) => {
                        if eq_chars(&chars_of(n.as_str()), want.as_str()) {
                            push_unique(&mut out, found[i].clone());
                        }
                    },
                    None => {},
                }
                i = i + 1;
            }
            assert(views(found@).subrange(0, found.len() as int) == views(found@));
        },
        None => {},
    }
    out
}

/// Where a preset name resolved to.
#[derive(Clone, Copy, Debug, PartialEq, Eq, Structural)]
pub enum PresetSource {
    /// The name is itself a path to a TOML file.
    File,
    /// Factory entry at this index.
    Factory(usize),
    /// The candidate file at this index.
    Candidate(usize),
}

/// Resolves a preset name: a path to an existing file first, then a factory
/// id, then the first candidate file that exists. `candidate_is_file[i]` tells
/// whether `candidates[i]` exists. When nothing matches, the error lists the
/// factory ids followed by every candidate.
pub fn resolve_preset(
    name: &str,
    name_is_file: bool,
    candidates: &Vec<String>,
    candidate_is_file: &Vec<bool>,
) -> (r: Result<PresetSource>)
    requires
        candidates.len() == candidate_is_file.len(),
    ensures
        match r {
            Ok(PresetSource::File) => name_is_file,
            Ok(PresetSource::Factory(i)) => !name_is_file && factory_match(name@) == Some(i as int),
            Ok(PresetSource::Candidate(i)) => !name_is_file && factory_match(name@) is None && i
                < candidates.len() && candidate_is_file@[i as int] && forall|j: int|
                0 <= j < i ==> !#[trigger] candidate_is_file@[j],
            Err(e) => !name_is_file && factory_match(name@) is None && (forall|j: int|
                0 <= j < candidates.len() ==> !#[trigger] candidate_is_file@[j]) && is_not_found(
                e,
                name@,
                factory_id_list() + views(candidates@),
            ),
        },
{
    if name_is_file {
        return Ok(PresetSource::File);
    }
    if let Some(i) = find_factory(name) {
        return Ok(PresetSource::Factory(i));
    }
    let mut searched = factory_id_strings();
    let ghost ids = views(searched@);
    let mut i: usize = 0;
    while i < candidates.len()
        invariant
            i <= candidates.len(),
            candidates.len() == candidate_is_file.len(),
            !name_is_file,
            factory_match(name@) is None,
            ids == factory_id_list(),
            views(searched@) == ids + views(candidates@).subrange(0, i as int),
            forall|j: int| 0 <= j < i ==> !#[trigger] candidate_is_file@[j],
        decreases candidates.len() - i,
    {
        let ghost before = views(searched@);
        searched.push(candidates[i].clone());
        assert(views(searched@) =~= before.push(candidates@[i as int]@));
        assert(views(candidates@).subrange(0, i + 1) =~= views(candidates@).subrange(0, i as int).push(
            candidates@[i as int]@,
        ));
        if candidate_is_file[i] {
            return Ok(PresetSource::Candidate(i));
        }
        i = i + 1;
    }
    assert(views(candidates@).subrange(0, candidates.len() as int) == views(candidates@));
    Err(Error::PresetNotFound { name: string_from(name), searched })
}

/// Normalizing a key twice is the same as normalizing it once.
pub proof fn lemma_normalize_idempotent(s: Seq<char>)
    ensures
        normalized(normalized(s)) == normalized(s),
{
    let t = trim(s);
    lemma_trim_edges(s);
    let w = normalized(s);
    assert(w.len() == t.len());
    if w.len() > 0 {
        assert(!is_white_space(w[0]));
        assert(!is_white_space(w.last()));
        assert(trim_start(w) == w);
        assert(trim_end(w) == w);
    } else {
        assert(trim_start(w) == w);
        assert(trim_end(w) == w);
    }
    assert(trim(w) == w);
    assert(lower(w) =~= w);
    assert(dashes(w) =~= w);
}

/// The name a render is saved under is stable: naming the render again by
/// that name gives the same name back (for names that are not TOML files).
pub proof fn lemma_output_id_stable(name: Seq<char>)
    requires
        !ends_with(name, ".toml"@),
        !ends_with(output_id_of(Some(name), None, false), ".toml"@),
    ensures
        output_id_of(Some(output_id_of(Some(name), None, false)), None, false) == output_id_of(
            Some(name),
            None,
            false,
        ),
{
    let key = normalized(name);
    lemma_normalize_idempotent(name);
    lemma_first_match_from(key, 0);
    match factory_match(name) {
        Some(i) => {
            assert(normalized(factory_id(i)) == key);
            assert(factory_match(factory_id(i)) == factory_match(name));
        },
        None => {
            assert(factory_match(key) == factory_match(name));
        },
    }
}

/// Paths listed earlier are never the same path as one listed later.
pub open spec fn distinct_paths(s: Seq<Seq<char>>) -> bool {
    forall|i: int, j: int| 0 <= i < j < s.len() ==> !same_path(#[trigger] s[i], #[trigger] s[j])
}

proof fn lemma_with_unique_distinct(out: Seq<Seq<char>>, path: Seq<char>)
    requires
        distinct_paths(out),
    ensures
        distinct_paths(with_unique(out, path)),
{
    if !(exists|i: int| 0 <= i < out.len() && same_path(#[trigger] out[i], path)) {
        let n = out.push(path);
        assert forall|i: int, j: int| 0 <= i < j < n.len() implies !same_path(
            #[trigger] n[i],
            #[trigger] n[j],
        ) by {
            if j == out.len() {
                assert(n[i] == out[i]);
            } else {
                assert(n[i] == out[i] && n[j] == out[j]);
            }
        }
    }
}

proof fn lemma_add_matching_distinct(out: Seq<Seq<char>>, found: Seq<Seq<char>>, want: Seq<char>)
    requires
        distinct_paths(out),
    ensures
        distinct_paths(add_matching(out, found, want)),
    decreases found.len(),
{
    if found.len() > 0 {
        lemma_add_matching_distinct(out, found.drop_last(), want);
        lemma_with_unique_distinct(add_matching(out, found.drop_last(), want), found.last());
    }
}

/// The candidate files of a preset name never list the same path twice.
pub proof fn lemma_candidates_distinct(name: Seq<char>, found: Seq<Seq<char>>)
    ensures
        distinct_paths(candidates_of(name, found)),
{
    let file = toml_file_name(name);
    let e = Seq::<Seq<char>>::empty();
    lemma_with_unique_distinct(e, joined_path("presets"@, file));
    let one = with_unique(e, joined_path("presets"@, file));
    lemma_with_unique_distinct(one, file);
    let base = with_unique(one, file);
    match file_name_of(file) {
        Some(want) => lemma_add_matching_distinct(base, found, want),
        None => {},
    }
}

} // verus!
