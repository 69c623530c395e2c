//! Where rendered WAV files go by default.
use vstd::prelude::*;

use crate::paths::{join_path, joined_path};
use crate::text::string_from;

verus! {

/// Default destination for CLI WAV output (`render` without `--output`, `render-all`).
pub const DEFAULT_OUTPUT_DIR: &'static str = "dist";

/// `dist/<preset-id>.wav`
pub fn default_wav_path(preset_id: &str) -> (r: String)
    ensures
        r@ == joined_path(DEFAULT_OUTPUT_DIR@, preset_id@ + ".wav"@),
{
    let mut file = string_from(preset_id);
    file.append(".wav");
    join_path(DEFAULT_OUTPUT_DIR, file.as_str())
}

} // verus!
