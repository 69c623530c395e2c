//! Offline 4-operator FM synthesizer: the verified core of algorithm and
//! layer parsing, the factory bank and preset-name resolution, WAV settings,
//! analysis bookkeeping, and drawing on the spectrogram canvas.
pub mod algorithm;
pub mod analyze;
pub mod error;
pub mod layers;
pub mod patch;
pub mod paths;
pub mod preset;
pub mod raster;
pub mod render;
pub mod spectrogram;
pub mod text;
pub mod wav;

pub use algorithm::Algorithm;
pub use analyze::{
    category_hints_for_id, default_json_path, default_png_path, pick_nfft, stft_layout,
    AnalyzeWriteReport, BatchAnalyzeResult, ImagePaths, SPECTROGRAM_HEIGHT, SPECTROGRAM_WIDTH,
};
pub use error::{Error, Result};
pub use layers::{
    format_layers, is_airy_fresh_pad_id, is_factory_fx_id, is_factory_lead_id,
    is_factory_pad_stack_id, is_factory_sparkle_pad_id, is_impact_fx_id, is_pitched_fx_id,
    resolve_layer_plan, semitone_label, skips_fx_auto_layers, AutoLayerExtra, LayerInterval,
    LayerMode, LayerPlan,
};
pub use patch::{ChorusInterval, FilterType, FreqMode, NoiseColor, SegmentKind, Vowel, Waveform};
pub use preset::{
    factory_ids, find_factory, lookup_factory, normalize_id, output_preset_id,
    output_preset_id_given, preset_file_candidates, resolve_preset, validate_preset, PresetSource,
    FACTORY,
};
pub use render::{default_wav_path, DEFAULT_OUTPUT_DIR};
pub use wav::{check_wav_header, pcm_data_bytes, PcmEncoding, PcmFormat, WavSettings};
