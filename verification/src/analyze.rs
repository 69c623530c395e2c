//! The integer side of offline analysis: which spectrogram files a preset
//! gets, its category hints, the STFT size, and the outcome of a batch run.
use vstd::prelude::*;

use crate::error::{batch_outcome, is_invalid_param, views, Error, Result};
use crate::paths::{join_path, joined_path};
use crate::render::DEFAULT_OUTPUT_DIR;
use crate::text::{
    chars_of, decimal, eq_chars, starts_with, starts_with_chars, string_from,
    unsigned_decimal_string,
};
use crate::wav::{check_sample_rate, sample_rate_message, sample_rate_ok};

verus! {

/// Size of the spectrogram PNG, in pixels.
pub const SPECTROGRAM_WIDTH: u32 = 1280;

pub const SPECTROGRAM_HEIGHT: u32 = 800;

/// Fewest samples a buffer needs to be analyzed.
pub const MIN_SAMPLES: usize = 256;

/// Image files written next to an analysis report.
#[derive(Clone, Debug)]
pub struct ImagePaths {
    pub spectrogram: String,
}

/// One preset whose analysis was written.
#[derive(Clone, Debug)]
pub struct AnalyzeWriteReport {
    pub preset_id: String,
    pub png: String,
    pub json: String,
    pub wav: Option<String>,
}

/// Outcome of analyzing the factory bank. Failures do not stop the rest.
#[derive(Debug)]
pub struct BatchAnalyzeResult {
    pub written: Vec<AnalyzeWriteReport>,
    /// `(preset id, error text)` of each preset that failed.
    pub failures: Vec<(String, String)>,
}

impl BatchAnalyzeResult {
    /// The reports when every preset succeeded, else `BatchFailed` with the failures.
    pub fn into_result(self) -> (r: Result<Vec<AnalyzeWriteReport>>)
        ensures
            match r {
                Ok(written) => self.failures@.len() == 0 && written@ == self.written@,
                Err(e) => self.failures@.len() > 0 && (e matches Error::BatchFailed { failures }
                    && failures@ == self.failures@),
            },
    {
        batch_outcome(self.written, self.failures)
    }
}

/// `dist/<preset-id>.png`
pub fn default_png_path(preset_id: &str) -> (r: String)
    ensures
        r@ == joined_path(DEFAULT_OUTPUT_DIR@, preset_id@ + ".png"@),
{
    let mut file = string_from(preset_id);
    file.append(".png");
    join_path(DEFAULT_OUTPUT_DIR, file.as_str())
}

/// `dist/<preset-id>.json`
pub fn default_json_path(preset_id: &str) -> (r: String)
    ensures
        r@ == joined_path(DEFAULT_OUTPUT_DIR@, preset_id@ + ".json"@),
{
    let mut file = string_from(preset_id);
    file.append(".json");
    join_path(DEFAULT_OUTPUT_DIR, file.as_str())
}

/// What a listener should expect of a factory preset, by its id's bank.
pub open spec fn category_hints(id: Seq<char>) -> Seq<Seq<char>> {
    if starts_with(id, "bd-"@) {
        seq!["kick one-shot"@, "often strong 20-80 Hz"@, "often pitch drop"@]
    } else if starts_with(id, "sd-"@) {
        seq!["snare one-shot"@, "mid/high body, not a sub kick"@]
    } else if starts_with(id, "bs-"@) || id == "sub-bass"@ || id == "growl-bass"@ || id
        == "reese-mid"@ || id == "supersaw-bass"@ || id == "bp-growl"@ {
        seq!["bass"@, "low/mid energy"@]
    } else if starts_with(id, "ld-"@) || id == "lead-fm-pluck"@ || id == "stab-fm-fifth"@ || id
        == "stab-fm-major"@ || id == "filter-pluck"@ || id == "stab-pluck"@ {
        seq!["lead / held tone"@, "energy should remain near t=0.85"@]
    } else if starts_with(id, "fx-"@) || id == "fm-riser"@ || id == "zap"@ || id == "hp-air"@ {
        seq!["fx / sweep / noise"@, "pitch or centroid often moves"@]
    } else if starts_with(id, "pc-"@) || id == "cp-house"@ || id == "glass-hit"@ || id
        == "metallic-hit"@ {
        seq!["short percussion"@, "little sub unless thud/foley"@]
    } else if starts_with(id, "dr-"@) {
        seq!["drone hold ~16s"@, "energy at t=0.85 should remain"@]
    } else if starts_with(id, "pf-"@) {
        seq!["fresh pad hold"@, "not a sub bed; energy above ~150 Hz"@]
    } else if starts_with(id, "ps-"@) {
        seq!["sparkle pad hold"@, "high partials, not a kick"@]
    } else if starts_with(id, "pl-"@) {
        seq!["short pluck"@, "fast decay, not a 16s pad"@]
    } else if starts_with(id, "ep-"@) {
        seq!["electric piano"@, "integer tines 2x/3x, not a bell"@]
    } else {
        Seq::empty()
    }
}

/// The first two characters of `id`, which tell the factory banks apart.
pub open spec fn head2(id: Seq<char>) -> (char, char) {
    (id[0], id[1])
}

proof fn lemma_head_of_prefix(id: Seq<char>, p: Seq<char>)
    requires
        starts_with(id, p),
        p.len() >= 2,
    ensures
        head2(id) == head2(p),
{
    assert(id[0] == id.subrange(0, p.len() as int)[0]);
    assert(id[1] == id.subrange(0, p.len() as int)[1]);
}

/// Every bank gets its own two hints: kicks, snares, the bass bank (`bs-*`
/// and the older `sub-bass`, `growl-bass`, `reese-mid`, `supersaw-bass`,
/// `bp-growl`), leads, FX, percussion, drones, fresh pads, sparkle pads,
/// plucks and electric pianos; an id of no bank gets none.
pub proof fn lemma_hints_by_bank(id: Seq<char>)
    ensures
        starts_with(id, "bd-"@) ==> category_hints(id) == seq![
            "kick one-shot"@,
            "often strong 20-80 Hz"@,
            "often pitch drop"@,
        ],
        starts_with(id, "sd-"@) ==> category_hints(id) == seq![
            "snare one-shot"@,
            "mid/high body, not a sub kick"@,
        ],
        starts_with(id, "bs-"@) || id == "sub-bass"@ || id == "growl-bass"@ || id == "reese-mid"@
            || id == "supersaw-bass"@ || id == "bp-growl"@ ==> category_hints(id) == seq![
            "bass"@,
            "low/mid energy"@,
        ],
        starts_with(id, "ld-"@) || id == "lead-fm-pluck"@ || id == "stab-fm-fifth"@ || id
            == "stab-fm-major"@ || id == "filter-pluck"@ || id == "stab-pluck"@ ==> category_hints(
            id,
        ) == seq!["lead / held tone"@, "energy should remain near t=0.85"@],
        starts_with(id, "fx-"@) || id == "fm-riser"@ || id == "zap"@ || id == "hp-air"@
            ==> category_hints(id) == seq![
            "fx / sweep / noise"@,
            "pitch or centroid often moves"@,
        ],
        starts_with(id, "pc-"@) || id == "cp-house"@ || id == "glass-hit"@ || id
            == "metallic-hit"@ ==> category_hints(id) == seq![
            "short percussion"@,
            "little sub unless thud/foley"@,
        ],
        starts_with(id, "dr-"@) ==> category_hints(id) == seq![
            "drone hold ~16s"@,
            "energy at t=0.85 should remain"@,
        ],
        starts_with(id, "pf-"@) ==> category_hints(id) == seq![
            "fresh pad hold"@,
            "not a sub bed; energy above ~150 Hz"@,
        ],
        starts_with(id, "ps-"@) ==> category_hints(id) == seq![
            "sparkle pad hold"@,
            "high partials, not a kick"@,
        ],
        starts_with(id, "pl-"@) ==> category_hints(id) == seq![
            "short pluck"@,
            "fast decay, not a 16s pad"@,
        ],
        starts_with(id, "ep-"@) ==> category_hints(id) == seq![
            "electric piano"@,
            "integer tines 2x/3x, not a bell"@,
        ],
        category_hints(id).len() == 0 || category_hints(id).len() == 2 || category_hints(id).len()
            == 3,
{
    reveal_strlit("bd-");
    assert(head2("bd-"@) == ('b', 'd'));
    reveal_strlit("sd-");
    assert(head2("sd-"@) == ('s', 'd'));
    reveal_strlit("bs-");
    assert(head2("bs-"@) == ('b', 's'));
    reveal_strlit("sub-bass");
    assert(head2("sub-bass"@) == ('s', 'u'));
    reveal_strlit("growl-bass");
    assert(head2("growl-bass"@) == ('g', 'r'));
    reveal_strlit("reese-mid");
    assert(head2("reese-mid"@) == ('r', 'e'));
    reveal_strlit("supersaw-bass");
    assert(head2("supersaw-bass"@) == ('s', 'u'));
    reveal_strlit("bp-growl");
    assert(head2("bp-growl"@) == ('b', 'p'));
    reveal_strlit("ld-");
    assert(head2("ld-"@) == ('l', 'd'));
    reveal_strlit("lead-fm-pluck");
    assert(head2("lead-fm-pluck"@) == ('l', 'e'));
    reveal_strlit("stab-fm-fifth");
    assert(head2("stab-fm-fifth"@) == ('s', 't'));
    reveal_strlit("stab-fm-major");
    assert(head2("stab-fm-major"@) == ('s', 't'));
    reveal_strlit("filter-pluck");
    assert(head2("filter-pluck"@) == ('f', 'i'));
    reveal_strlit("stab-pluck");
    assert(head2("stab-pluck"@) == ('s', 't'));
    reveal_strlit("fx-");
    assert(head2("fx-"@) == ('f', 'x'));
    reveal_strlit("fm-riser");
    assert(head2("fm-riser"@) == ('f', 'm'));
    reveal_strlit("zap");
    assert(head2("zap"@) == ('z', 'a'));
    reveal_strlit("hp-air");
    assert(head2("hp-air"@) == ('h', 'p'));
    reveal_strlit("pc-");
    assert(head2("pc-"@) == ('p', 'c'));
    reveal_strlit("cp-house");
    assert(head2("cp-house"@) == ('c', 'p'));
    reveal_strlit("glass-hit");
    assert(head2("glass-hit"@) == ('g', 'l'));
    reveal_strlit("metallic-hit");
    assert(head2("metallic-hit"@) == ('m', 'e'));
    reveal_strlit("dr-");
    assert(head2("dr-"@) == ('d', 'r'));
    reveal_strlit("pf-");
    assert(head2("pf-"@) == ('p', 'f'));
    reveal_strlit("ps-");
    assert(head2("ps-"@) == ('p', 's'));
    reveal_strlit("pl-");
    assert(head2("pl-"@) == ('p', 'l'));
    reveal_strlit("ep-");
    assert(head2("ep-"@) == ('e', 'p'));
    if starts_with(id, "bd-"@) {
        lemma_head_of_prefix(id, "bd-"@);
    }
    if starts_with(id, "sd-"@) {
        lemma_head_of_prefix(id, "sd-"@);
    }
    if starts_with(id, "bs-"@) {
        lemma_head_of_prefix(id, "bs-"@);
    }
    if id == "sub-bass"@ {
        assert(head2(id) == ('s', 'u'));
    }
    if id == "growl-bass"@ {
        assert(head2(id) == ('g', 'r'));
    }
    if id == "reese-mid"@ {
        assert(head2(id) == ('r', 'e'));
    }
    if id == "supersaw-bass"@ {
        assert(head2(id) == ('s', 'u'));
    }
    if id == "bp-growl"@ {
        assert(head2(id) == ('b', 'p'));
    }
    if starts_with(id, "ld-"@) {
        lemma_head_of_prefix(id, "ld-"@);
    }
    if id == "lead-fm-pluck"@ {
        assert(head2(id) == ('l', 'e'));
    }
    if id == "stab-fm-fifth"@ {
        assert(head2(id) == ('s', 't'));
    }
    if id == "stab-fm-major"@ {
        assert(head2(id) == ('s', 't'));
    }
    if id == "filter-pluck"@ {
        assert(head2(id) == ('f', 'i'));
    }
    if id == "stab-pluck"@ {
        assert(head2(id) == ('s', 't'));
    }
    if starts_with(id, "fx-"@) {
        lemma_head_of_prefix(id, "fx-"@);
    }
    if id == "fm-riser"@ {
        assert(head2(id) == ('f', 'm'));
    }
    if id == "zap"@ {
        assert(head2(id) == ('z', 'a'));
    }
    if id == "hp-air"@ {
        assert(head2(id) == ('h', 'p'));
    }
    if starts_with(id, "pc-"@) {
        lemma_head_of_prefix(id, "pc-"@);
    }
    if id == "cp-house"@ {
        assert(head2(id) == ('c', 'p'));
    }
    if id == "glass-hit"@ {
        assert(head2(id) == ('g', 'l'));
    }
    if id == "metallic-hit"@ {
        assert(head2(id) == ('m', 'e'));
    }
    if starts_with(id, "dr-"@) {
        lemma_head_of_prefix(id, "dr-"@);
    }
    if starts_with(id, "pf-"@) {
        lemma_head_of_prefix(id, "pf-"@);
    }
    if starts_with(id, "ps-"@) {
        lemma_head_of_prefix(id, "ps-"@);
    }
    if starts_with(id, "pl-"@) {
        lemma_head_of_prefix(id, "pl-"@);
    }
    if starts_with(id, "ep-"@) {
        lemma_head_of_prefix(id, "ep-"@);
    }
}

fn two_hints(a: &str, b: &str) -> (r: Vec<String>)
    ensures
        views(r@) == seq![a@, b@],
{
    let mut r: Vec<String> = Vec::new();
    r.push(string_from(a));
    r.push(string_from(b));
    assert(views(r@) =~= seq![a@, b@]);
    r
}

/// Category hints written into an analysis report.
pub fn category_hints_for_id(id: &str) -> (r: Vec<String>)
    ensures
        views(r@) == category_hints(id@),
{
    let v = chars_of(id);
    if starts_with_chars(&v, "bd-") {
        let mut r: Vec<String> = Vec::new();
        r.push(string_from("kick one-shot"));
        r.push(string_from("often strong 20-80 Hz"));
        r.push(string_from("often pitch drop"));
        assert(views(r@) =~= category_hints(id@));
        r
    } else if starts_with_chars(&v, "sd-") {
        two_hints("snare one-shot", "mid/high body, not a sub kick")
    } else if starts_with_chars(&v, "bs-") || eq_chars(&v, "sub-bass") || eq_chars(&v, "growl-bass")
        || eq_chars(&v, "reese-mid") || eq_chars(&v, "supersaw-bass") || eq_chars(&v, "bp-growl") {
        two_hints("bass", "low/mid energy")
    } else if starts_with_chars(&v, "ld-") || eq_chars(&v, "lead-fm-pluck") || eq_chars(
        &v,
        "stab-fm-fifth",
    ) || eq_chars(&v, "stab-fm-major") || eq_chars(&v, "filter-pluck") || eq_chars(
        &v,
        "stab-pluck",
    ) {
        two_hints("lead / held tone", "energy should remain near t=0.85")
    } else if starts_with_chars(&v, "fx-") || eq_chars(&v, "fm-riser") || eq_chars(&v, "zap")
        || eq_chars(&v, "hp-air") {
        two_hints("fx / sweep / noise", "pitch or centroid often moves")
    } else if starts_with_chars(&v, "pc-") || eq_chars(&v, "cp-house") || eq_chars(&v, "glass-hit")
        || eq_chars(&v, "metallic-hit") {
        two_hints("short percussion", "little sub unless thud/foley")
    } else if starts_with_chars(&v, "dr-") {
        two_hints("drone hold ~16s", "energy at t=0.85 should remain")
    } else if starts_with_chars(&v, "pf-") {
        two_hints("fresh pad hold", "not a sub bed; energy above ~150 Hz")
    } else if starts_with_chars(&v, "ps-") {
        two_hints("sparkle pad hold", "high partials, not a kick")
    } else if starts_with_chars(&v, "pl-") {
        two_hints("short pluck", "fast decay, not a 16s pad")
    } else if starts_with_chars(&v, "ep-") {
        two_hints("electric piano", "integer tines 2x/3x, not a bell")
    } else {
        let r: Vec<String> = Vec::new();
        assert(views(r@) =~= Seq::<Seq<char>>::empty());
        r
    }
}

/// FFT size for a buffer of `n` samples: the largest of 4096, 2048, 1024 and
/// 512 that is at most half of `n`, else 256.
pub open spec fn nfft_for(n: int) -> int {
    if n >= 8192 {
        4096
    } else if n >= 4096 {
        2048
    } else if n >= 2048 {
        1024
    } else if n >= 1024 {
        512
    } else {
        256
    }
}

/// FFT size used to analyze `n` samples.
pub fn pick_nfft(n: usize) -> (r: usize)
    ensures
        r == nfft_for(n as int),
{
    if n >= 8192 {
        4096
    } else if n >= 4096 {
        2048
    } else if n >= 2048 {
        1024
    } else if n >= 1024 {
        512
    } else {
        256
    }
}

pub open spec fn too_short_message(n: int) -> Seq<char> {
    "analyze needs at least 256 samples, got "@ + decimal(n)
}

/// The STFT layout `(nfft, hop)` for analyzing `n_samples` samples at
/// `sample_rate`: the buffer must hold at least 256 samples, then the rate must
/// be 8000..=192000. The hop is a quarter of the FFT size.
pub fn stft_layout(n_samples: usize, sample_rate: u32) -> (r: Result<(usize, usize)>)
    ensures
        match r {
            Ok((nfft, hop)) => n_samples >= MIN_SAMPLES && sample_rate_ok(sample_rate as int) && nfft
                == nfft_for(n_samples as int) && hop == nfft / 4,
            Err(e) => if n_samples < MIN_SAMPLES {
                is_invalid_param(e, too_short_message(n_samples as int))
            } else {
                !sample_rate_ok(sample_rate as int) && is_invalid_param(
                    e,
                    sample_rate_message(sample_rate as int),
                )
            },
        },
{
    if n_samples < MIN_SAMPLES {
        let mut message = string_from("analyze needs at least 256 samples, got ");
        let n = unsigned_decimal_string(n_samples as u64);
        message.append(n.as_str());
        return Err(Error::InvalidParam { message });
    }
    match check_sample_rate(sample_rate) {
        Ok(_) => {},
        Err(e) => return Err(e),
    }
    let nfft = pick_nfft(n_samples);
    let quarter = nfft / 4;
    let hop = if quarter > 1 {
        quarter
    } else {
        1
    };
    Ok((nfft, hop))
}

/// The FFT never spans more than the buffer, and above 512 samples at most
/// half of it, so every analysis has at least one full frame.
pub proof fn lemma_nfft_fits(n: int)
    requires
        n >= MIN_SAMPLES,
    ensures
        nfft_for(n) <= n,
        n >= 512 ==> 2 * nfft_for(n) <= n,
        nfft_for(n) / 4 >= 1,
{
}

/// The FFT sizes an analysis may use.
pub open spec fn fft_size_ok(s: int) -> bool {
    s == 256 || s == 512 || s == 1024 || s == 2048 || s == 4096
}

/// The FFT size is one of 256, 512, 1024, 2048 and 4096; it spans at most half
/// the buffer unless it is the smallest size, and no allowed size that would
/// also fit twice is larger. So buffers of 8192 samples or more always
/// use 4096, and a longer buffer never gets a smaller FFT.
pub proof fn lemma_nfft_choice(n: int, m: int)
    ensures
        fft_size_ok(nfft_for(n)),
        n >= 512 ==> 2 * nfft_for(n) <= n,
        2 * nfft_for(n) <= n || nfft_for(n) == 256,
        forall|s: int| fft_size_ok(s) && 2 * s <= n ==> s <= nfft_for(n),
        n >= 8192 ==> nfft_for(n) == 4096,
        n <= m ==> nfft_for(n) <= nfft_for(m),
{
}

/// How many whole STFT frames of `nfft` samples, `hop` apart, fit in `len`.
pub open spec fn frame_count(len: int, nfft: int, hop: int) -> int {
    if len >= nfft {
        (len - nfft) / hop + 1
    } else {
        0
    }
}

/// Where each STFT frame starts: every `hop` samples, as long as a whole frame
/// of `nfft` samples fits in `len` (no start at all when none fits).
pub fn frame_starts(len: usize, nfft: usize, hop: usize) -> (r: Vec<usize>)
    requires
        0 < hop <= nfft,
    ensures
        r@.len() == frame_count(len as int, nfft as int, hop as int),
        forall|i: int| 0 <= i < r@.len() ==> #[trigger] r@[i] == i * hop && r@[i] + nfft <= len,
{
    let mut r: Vec<usize> = Vec::new();
    let mut start: usize = 0;
    assert(r@.len() * hop == 0) by (nonlinear_arith)
        requires
            r@.len() == 0,
    ;
    while start <= len && nfft <= len - start
        invariant
            0 < hop <= nfft,
            start == r@.len() * hop,
            start <= len + hop,
            forall|i: int| 0 <= i < r@.len() ==> #[trigger] r@[i] == i * hop && r@[i] + nfft <= len,
            r@.len() > 0 ==> r@.last() + nfft <= len,
            r@.len() > 0 ==> start == r@.last() + hop,
        decreases len + hop - start,
    {
        r.push(start);
        proof {
            assert((r@.len() - 1) * hop + hop == r@.len() * hop) by (nonlinear_arith);
        }
        start = start + hop;
    }
    proof {
        let k = r@.len() as int;
        let h = hop as int;
        let l = len as int;
        let f = nfft as int;
        assert(k * h + f > l);
        if l >= f {
            assert((l - f) / h + 1 == k) by (nonlinear_arith)
                requires
                    h > 0,
                    l >= f,
                    k * h + f > l,
                    k > 0 ==> (k - 1) * h + f <= l,
                    k == 0 ==> f > l,
            ;
        } else {
            assert(k == 0) by (nonlinear_arith)
                requires
                    k >= 0,
                    h > 0,
                    k > 0 ==> (k - 1) * h + f <= l,
                    l < f,
            ;
        }
    }
    r
}

} // verus!
