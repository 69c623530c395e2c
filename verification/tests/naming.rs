use fm_synth::error::batch_outcome;
use std::path::PathBuf;

use fm_synth::preset::{default_feedback_op, default_note, path_stem, push_unique};
use fm_synth::{
    default_json_path, default_png_path, default_wav_path, factory_ids, find_factory,
    lookup_factory, normalize_id, output_preset_id, output_preset_id_given,
    preset_file_candidates, resolve_preset, validate_preset, Algorithm, Error, PresetSource,
    DEFAULT_OUTPUT_DIR, FACTORY,
};

#[test]
fn parse_id_and_name() {
    assert_eq!("1".parse::<Algorithm>().unwrap(), Algorithm::Serial);
    assert_eq!(
        "dual-stack".parse::<Algorithm>().unwrap(),
        Algorithm::DualStack
    );
    assert_eq!("8".parse::<Algorithm>().unwrap(), Algorithm::AllCarriers);
}

#[test]
fn algorithm_parse_errors_name_the_input() {
    assert_eq!(
        Algorithm::parse("9").unwrap_err(),
        "algorithm id must be 1-8, got 9"
    );
    assert_eq!(
        Algorithm::parse("wobble").unwrap_err(),
        "unknown algorithm `wobble`"
    );
    assert_eq!(Algorithm::parse(" Dual_Stack ").unwrap(), Algorithm::DualStack);
}

#[test]
fn algorithm_numbers_and_names_round_trip() {
    for id in 1u8..=8 {
        let a = Algorithm::from_id(id).unwrap();
        assert_eq!(a.id(), id);
        assert_eq!(Algorithm::parse(a.name()).unwrap(), a);
        assert_eq!(a.label(), format!("{} ({})", id, a.name()));
    }
    assert!(Algorithm::from_id(0).is_none());
    assert!(Algorithm::from_id(9).is_none());
    assert_eq!(Algorithm::AllCarriers.carrier_count(), 4);
    assert_eq!(Algorithm::Serial.carrier_count(), 1);
}

#[test]
fn output_id_uses_factory_id_not_toml_path() {
    assert_eq!(output_preset_id(Some("sub-bass"), None), "sub-bass");
    assert_eq!(output_preset_id(Some("SUB_BASS"), None), "sub-bass");
    assert_eq!(
        output_preset_id(None, Some("presets/fx/zap.toml")),
        "zap"
    );
    assert_eq!(output_preset_id(Some("custom.toml"), None), "custom");
    assert_eq!(output_preset_id(Some("bd-808-boom"), None), "bd-808-boom");
    assert_eq!(output_preset_id(Some("sd-808-snap"), None), "sd-808-snap");
    assert_eq!(output_preset_id(Some("ld-fm-pluck"), None), "ld-fm-pluck");
    assert_eq!(output_preset_id(Some("fx-rev-cym"), None), "fx-rev-cym");
    assert_eq!(output_preset_id(Some("bs-808-sub"), None), "bs-808-sub");
    assert_eq!(output_preset_id(Some("pc-hat-closed"), None), "pc-hat-closed");
    assert_eq!(output_preset_id(Some("dr-sine-sub"), None), "dr-sine-sub");
    assert_eq!(output_preset_id(Some("pf-morning"), None), "pf-morning");
    assert_eq!(output_preset_id(Some("ps-crystal"), None), "ps-crystal");
}

#[test]
fn output_id_of_other_names() {
    assert_eq!(output_preset_id_given(None, None, false), "preset");
    assert_eq!(output_preset_id_given(Some("  My_Patch "), None, false), "my-patch");
    assert_eq!(output_preset_id_given(Some("my/odd"), None, true), "odd");
    assert_eq!(output_preset_id_given(Some("x"), Some("dir/.toml"), false), ".toml");
    assert_eq!(output_preset_id_given(Some("x"), Some("/"), false), "preset");
}

#[test]
fn every_factory_id_names_itself() {
    for id in factory_ids() {
        assert_eq!(output_preset_id_given(Some(id), None, false), id);
        assert_eq!(normalize_id(id), id);
    }
}

#[test]
fn output_id_is_stable() {
    for name in ["SUB_BASS", " Zap ", "Custom Patch", "ld_FM_pluck"] {
        let once = output_preset_id_given(Some(name), None, false);
        let twice = output_preset_id_given(Some(&once), None, false);
        assert_eq!(once, twice);
    }
}

#[test]
fn normalize_is_idempotent() {
    for s in ["  A_b-C\t", "", "x", "__"] {
        let once = normalize_id(s);
        assert_eq!(normalize_id(&once), once);
    }
    assert_eq!(normalize_id(" Sub_Bass\n"), "sub-bass");
}

fn bank_count(prefix: &str) -> usize {
    factory_ids()
        .into_iter()
        .filter(|id| id.starts_with(prefix))
        .count()
}

#[test]
fn factory_bd_kick_bank_has_twenty_ids() {
    assert_eq!(bank_count("bd-"), 20);
}

#[test]
fn factory_sd_snare_bank_has_twenty_ids() {
    assert_eq!(bank_count("sd-"), 20);
}

#[test]
fn factory_ld_lead_bank_has_fifty_ids() {
    assert_eq!(bank_count("ld-"), 50);
}

#[test]
fn factory_fx_bank_has_fifty_ids() {
    assert_eq!(bank_count("fx-"), 50);
}

#[test]
fn factory_bs_bass_bank_has_fifteen_ids() {
    assert_eq!(bank_count("bs-"), 15);
}

#[test]
fn factory_pc_perc_bank_has_fifty_ids() {
    assert_eq!(bank_count("pc-"), 50);
}

#[test]
fn factory_dr_drone_bank_has_fifty_ids() {
    assert_eq!(bank_count("dr-"), 50);
}

#[test]
fn factory_pf_pad_fresh_bank_has_thirty_ids() {
    assert_eq!(bank_count("pf-"), 30);
}

#[test]
fn factory_ps_pad_sparkle_bank_has_thirty_ids() {
    assert_eq!(bank_count("ps-"), 30);
}

#[test]
fn factory_pl_and_ep_banks() {
    assert_eq!(bank_count("pl-"), 30);
    assert_eq!(bank_count("ep-"), 5);
}

#[test]
fn factory_ids_are_distinct_and_in_bank_order() {
    let ids = factory_ids();
    assert_eq!(ids.len(), FACTORY.len());
    assert_eq!(ids[0], "sub-bass");
    for (i, id) in ids.iter().enumerate() {
        assert_eq!(FACTORY[i].1, *id);
        assert_eq!(find_factory(id), Some(i));
    }
}

#[test]
fn unknown_preset_errors() {
    let err = lookup_factory("not-a-real-preset").unwrap_err();
    assert!(matches!(err, Error::PresetNotFound { .. }));
    match err {
        Error::PresetNotFound { name, searched } => {
            assert_eq!(name, "not-a-real-preset");
            assert_eq!(searched.len(), factory_ids().len());
        }
        other => panic!("unexpected {}", other.message()),
    }
    assert_eq!(lookup_factory(" Zap ").unwrap(), 5);
}

#[test]
fn validate_preset_checks_in_order() {
    match validate_preset("a.toml", "x", 3, 9).unwrap_err() {
        Error::PresetParse { source, message } => {
            assert_eq!(source, "a.toml");
            assert_eq!(message, "expected 4 operators, got 3");
        }
        other => panic!("unexpected {}", other.message()),
    }
    match validate_preset("a.toml", "x", 4, 0).unwrap_err() {
        Error::PresetParse { message, .. } => {
            assert_eq!(message, "feedback_op must be 1-4, got 0")
        }
        other => panic!("unexpected {}", other.message()),
    }
    assert_eq!(validate_preset("a.toml", "  ", 4, 4).unwrap(), "a.toml");
    assert_eq!(validate_preset("a.toml", "Bass", 4, 1).unwrap(), "Bass");
    assert_eq!(default_feedback_op(), 4);
    assert_eq!(default_note(), 48);
}

#[test]
fn path_stem_falls_back_to_preset() {
    assert_eq!(path_stem("presets/fx/zap.toml"), "zap");
    assert_eq!(path_stem(""), "preset");
    assert_eq!(path_stem(".."), "preset");
    assert_eq!(path_stem("a/b.c.toml"), "b.c");
}

#[test]
fn default_wav_path_is_dist_plus_id() {
    assert_eq!(DEFAULT_OUTPUT_DIR, "dist");
    assert_eq!(
        PathBuf::from(default_wav_path("sub-bass")),
        PathBuf::from("dist/sub-bass.wav")
    );
    assert_eq!(
        PathBuf::from(default_wav_path("supersaw-bass")),
        PathBuf::from("dist/supersaw-bass.wav")
    );
}

#[test]
fn analysis_paths_are_dist_plus_id() {
    assert_eq!(
        PathBuf::from(default_png_path("zap")),
        PathBuf::from("dist/zap.png")
    );
    assert_eq!(
        PathBuf::from(default_json_path("zap")),
        PathBuf::from("dist/zap.json")
    );
}

#[test]
fn candidates_try_presets_dir_then_name_then_found_files() {
    let found = vec![
        "presets/bass/sub-bass.toml".to_string(),
        "presets/fx/zap.toml".to_string(),
        "presets/other/sub-bass.toml".to_string(),
    ];
    let c = preset_file_candidates("sub-bass", &found);
    let as_paths: Vec<PathBuf> = c.iter().map(PathBuf::from).collect();
    assert_eq!(
        as_paths,
        vec![
            PathBuf::from("presets/sub-bass.toml"),
            PathBuf::from("sub-bass.toml"),
            PathBuf::from("presets/bass/sub-bass.toml"),
            PathBuf::from("presets/other/sub-bass.toml"),
        ]
    );
    let c2 = preset_file_candidates("presets/fx/zap.toml", &found);
    assert_eq!(c2.len(), 2);
    assert_eq!(PathBuf::from(&c2[0]), PathBuf::from("presets/presets/fx/zap.toml"));
    assert_eq!(c2[1], "presets/fx/zap.toml");
}

#[test]
fn push_unique_skips_the_same_path() {
    let mut out = vec!["a/b".to_string()];
    push_unique(&mut out, "a//b".to_string());
    assert_eq!(out.len(), 1);
    push_unique(&mut out, "a/c".to_string());
    assert_eq!(out, vec!["a/b".to_string(), "a/c".to_string()]);
}

#[test]
fn resolve_preset_order() {
    let cands = vec!["presets/x.toml".to_string(), "x.toml".to_string()];
    assert_eq!(
        resolve_preset("x", true, &cands, &vec![true, true]).unwrap(),
        PresetSource::File
    );
    assert_eq!(
        resolve_preset("ZAP", false, &cands, &vec![true, true]).unwrap(),
        PresetSource::Factory(5)
    );
    assert_eq!(
        resolve_preset("x", false, &cands, &vec![false, true]).unwrap(),
        PresetSource::Candidate(1)
    );
    match resolve_preset("x", false, &cands, &vec![false, false]).unwrap_err() {
        Error::PresetNotFound { name, searched } => {
            assert_eq!(name, "x");
            assert_eq!(searched.len(), factory_ids().len() + 2);
            assert_eq!(searched[searched.len() - 1], "x.toml");
            assert_eq!(searched[0], "sub-bass");
        }
        other => panic!("unexpected {}", other.message()),
    }
}

#[test]
fn error_messages() {
    let e = Error::PresetNotFound {
        name: "q".to_string(),
        searched: vec!["a".to_string(), "b".to_string()],
    };
    assert_eq!(e.message(), "preset `q` not found (looked in: a, b)");
    let e = Error::PresetParse {
        source: "s".to_string(),
        message: "m".to_string(),
    };
    assert_eq!(e.message(), "failed to parse preset s: m");
    let e = Error::BatchFailed {
        failures: vec![("a".to_string(), "x".to_string()), ("b".to_string(), "y".to_string())],
    };
    assert_eq!(e.message(), "presets failed: a: x; b: y");
}

#[test]
fn preset_file_numbers_as_algorithms() {
    assert_eq!(Algorithm::from_unsigned(5).unwrap(), Algorithm::DualStack);
    assert_eq!(Algorithm::from_signed(8).unwrap(), Algorithm::AllCarriers);
    assert_eq!(
        Algorithm::from_signed(-1).unwrap_err(),
        "algorithm id must be 1-8"
    );
    assert_eq!(
        Algorithm::from_unsigned(300).unwrap_err(),
        "algorithm id 300 out of range"
    );
    assert_eq!(
        Algorithm::from_unsigned(0).unwrap_err(),
        "algorithm id must be 1-8, got 0"
    );
}

#[test]
fn batch_outcome_passes_written_only_without_failures() {
    assert_eq!(batch_outcome(vec![1, 2], vec![]).unwrap(), vec![1, 2]);
    match batch_outcome(vec![1], vec![("a".to_string(), "b".to_string())]).unwrap_err() {
        Error::BatchFailed { failures } => assert_eq!(failures.len(), 1),
        other => panic!("unexpected {}", other.message()),
    }
}

#[test]
fn candidates_never_repeat_a_path() {
    let found = vec![
        "presets/zap.toml".to_string(),
        "presets//zap.toml".to_string(),
        "zap.toml".to_string(),
        "presets/fx/zap.toml".to_string(),
    ];
    let c = preset_file_candidates("zap", &found);
    for i in 0..c.len() {
        for j in (i + 1)..c.len() {
            assert_ne!(PathBuf::from(&c[i]), PathBuf::from(&c[j]));
        }
    }
    assert_eq!(c.len(), 3);
}

#[test]
fn algorithm_wiring() {
    assert!(Algorithm::Serial.modulates(3, 2));
    assert!(Algorithm::Serial.modulates(1, 0));
    assert!(!Algorithm::Serial.modulates(3, 0));
    assert!(Algorithm::ParallelMod.modulates(2, 1));
    assert!(Algorithm::DualStack.is_carrier(2));
    assert!(!Algorithm::DualStack.is_carrier(1));
    assert!(!Algorithm::AllCarriers.modulates(3, 0));
    for a in Algorithm::ALL {
        let mut carriers = 0;
        for op in 0..4usize {
            let modulates_something = (0..4usize).any(|to| a.modulates(op, to));
            assert_ne!(a.is_carrier(op), modulates_something, "{:?} op {}", a, op);
            for to in 0..4usize {
                if a.modulates(op, to) {
                    assert!(to < op);
                }
            }
            if a.is_carrier(op) {
                carriers += 1;
            }
        }
        assert!(a.is_carrier(0));
        assert_eq!(carriers, a.carrier_count());
    }
}
