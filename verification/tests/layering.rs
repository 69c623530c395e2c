use fm_synth::layers::{follow_up_intervals, mixed_semitones, sort_offsets};
use fm_synth::{
    factory_ids, format_layers, is_airy_fresh_pad_id, is_factory_fx_id, is_factory_lead_id,
    is_factory_pad_stack_id, is_factory_sparkle_pad_id, is_impact_fx_id, is_pitched_fx_id,
    resolve_layer_plan, semitone_label, skips_fx_auto_layers, AutoLayerExtra, Error,
    LayerInterval, LayerMode,
};

#[test]
fn parse_layer_specs() {
    assert_eq!(LayerMode::parse("auto").unwrap(), LayerMode::Auto);
    assert_eq!(LayerMode::parse("none").unwrap(), LayerMode::Off);
    assert_eq!(
        LayerMode::parse("octave").unwrap(),
        LayerMode::Explicit(vec![LayerInterval::Octave])
    );
    assert_eq!(
        LayerMode::parse("octave,fifth").unwrap(),
        LayerMode::Explicit(vec![LayerInterval::Octave, LayerInterval::Fifth])
    );
    assert_eq!(
        LayerMode::parse("octave-up, fifth").unwrap(),
        LayerMode::Explicit(vec![LayerInterval::Octave, LayerInterval::Fifth])
    );
    assert_eq!(
        LayerMode::parse("octave-down").unwrap(),
        LayerMode::Explicit(vec![LayerInterval::OctaveDown])
    );
    assert_eq!(
        LayerMode::parse("octave-down,octave-down-2").unwrap(),
        LayerMode::Explicit(vec![LayerInterval::OctaveDown, LayerInterval::OctaveDown2])
    );
    assert_eq!(
        LayerMode::parse("0,-12,-24").unwrap(),
        LayerMode::Explicit(vec![LayerInterval::OctaveDown, LayerInterval::OctaveDown2])
    );
    assert_eq!(
        LayerMode::parse("-12,-24,-36").unwrap(),
        LayerMode::Explicit(vec![
            LayerInterval::OctaveDown,
            LayerInterval::OctaveDown2,
            LayerInterval::OctaveDown3
        ])
    );
    assert!(LayerMode::parse("chorus").is_err());
}

#[test]
fn layer_mode_sorts_and_dedups() {
    assert_eq!(
        LayerMode::parse("fifth,octave,fifth").unwrap(),
        LayerMode::Explicit(vec![LayerInterval::Octave, LayerInterval::Fifth])
    );
    assert_eq!(LayerMode::parse("0").unwrap(), LayerMode::Off);
    assert_eq!(LayerMode::default(), LayerMode::Auto);
    match LayerMode::parse("chorus").unwrap_err() {
        Error::InvalidParam { message } => assert!(message.contains("chorus")),
        other => panic!("unexpected {}", other.message()),
    }
}

#[test]
fn lead_id_detection() {
    assert!(is_factory_lead_id("ld-sine"));
    assert!(is_factory_lead_id("lead-fm-pluck"));
    assert!(is_factory_lead_id("stab-fm-fifth"));
    assert!(is_factory_lead_id("presets/ld/ld-chip.toml"));
    assert!(!is_factory_lead_id("sub-bass"));
    assert!(!is_factory_lead_id("bd-808-boom"));
    assert!(!is_factory_lead_id("bs-wobble"));
    assert!(!is_factory_lead_id("fx-laser"));
    assert!(is_factory_lead_id("ld-laser"));
    assert!(is_factory_lead_id("ld-zap"));
}

#[test]
fn fx_id_detection() {
    assert!(is_factory_fx_id("fx-laser"));
    assert!(is_factory_fx_id("presets/fx/fx-zap.toml"));
    assert!(is_factory_fx_id("fm-riser"));
    assert!(is_factory_fx_id("zap"));
    assert!(is_factory_fx_id("hp-air"));
    assert!(!is_factory_fx_id("ld-laser"));
    assert!(!is_factory_fx_id("ld-zap"));
    assert!(is_pitched_fx_id("fx-laser"));
    assert!(is_pitched_fx_id("fx-zap"));
    assert!(is_pitched_fx_id("fx-riser-pitch"));
    assert!(is_impact_fx_id("fx-boom"));
    assert!(!is_pitched_fx_id("fx-boom"));
    assert!(!is_pitched_fx_id("fx-noise-hit"));
    assert!(skips_fx_auto_layers("fx-sub-drop"));
}

#[test]
fn factory_fx_bank_is_classified_and_leads_are_not() {
    for id in factory_ids() {
        if is_factory_fx_id(id) {
            assert!(
                !is_factory_lead_id(id),
                "{id} must not be classified as both FX and lead"
            );
        }
    }
    assert!(is_pitched_fx_id("fx-laser"));
    assert!(is_pitched_fx_id("fm-riser"));
    assert!(!is_pitched_fx_id("fx-riser-noise"));
}

#[test]
fn auto_plan_by_bank() {
    let lead = resolve_layer_plan("ld-sine", &None, &LayerMode::Auto);
    assert_eq!(lead.intervals, vec![LayerInterval::Octave]);
    assert_eq!(lead.extra, AutoLayerExtra::Fifth);
    let laser = resolve_layer_plan("fx-laser", &None, &LayerMode::Auto);
    assert_eq!(
        laser.intervals,
        vec![LayerInterval::OctaveDown, LayerInterval::OctaveDown2]
    );
    assert_eq!(laser.extra, AutoLayerExtra::OctaveDown3);
    let boom = resolve_layer_plan("fx-boom", &None, &LayerMode::Auto);
    assert_eq!(boom.intervals, vec![LayerInterval::OctaveDown]);
    let drop = resolve_layer_plan("fx-sub-drop", &None, &LayerMode::Auto);
    assert!(drop.intervals.is_empty());
    let bass = resolve_layer_plan("sub-bass", &None, &LayerMode::Auto);
    assert!(bass.intervals.is_empty());
    assert_eq!(bass.extra, AutoLayerExtra::NoExtra);
}

#[test]
fn explicit_and_preset_layers_win() {
    let own = Some(vec![LayerInterval::Fifth]);
    let p = resolve_layer_plan("sub-bass", &own, &LayerMode::Auto);
    assert_eq!(p.intervals, vec![LayerInterval::Fifth]);
    let off = resolve_layer_plan("ld-sine", &own, &LayerMode::Off);
    assert!(off.intervals.is_empty());
    let ex = resolve_layer_plan(
        "ld-sine",
        &None,
        &LayerMode::Explicit(vec![LayerInterval::OctaveDown3]),
    );
    assert_eq!(ex.intervals, vec![LayerInterval::OctaveDown3]);
    assert_eq!(ex.extra, AutoLayerExtra::NoExtra);
}

#[test]
fn intervals_round_trip() {
    for i in [
        LayerInterval::Octave,
        LayerInterval::Fifth,
        LayerInterval::OctaveDown,
        LayerInterval::OctaveDown2,
        LayerInterval::OctaveDown3,
        LayerInterval::Octave2,
    ] {
        assert_eq!(LayerInterval::from_semitones(i.semitones()), Some(i));
        assert_eq!(LayerInterval::parse_token(i.label()).unwrap(), i);
    }
    assert_eq!(LayerInterval::from_semitones(5), None);
    assert_eq!(LayerInterval::parse_token(" +12 ").unwrap(), LayerInterval::Octave);
    assert!(LayerInterval::parse_token("0").is_err());
}

#[test]
fn format_layers_lists_offsets() {
    assert_eq!(format_layers(&[]), "unison");
    assert_eq!(format_layers(&[0]), "unison");
    assert_eq!(format_layers(&[0, 12, 7]), "0,+12,+7");
    assert_eq!(format_layers(&[-24, -12, 0]), "-24,-12,0");
}

#[test]
fn semitone_labels() {
    assert_eq!(semitone_label(0), "unison");
    assert_eq!(semitone_label(12), "octave");
    assert_eq!(semitone_label(-36), "octave-down-3");
    assert_eq!(semitone_label(5), "+5");
    assert_eq!(semitone_label(-3), "-3");
    assert_eq!(semitone_label(24), "octave-2");
}

#[test]
fn preset_file_numbers_as_layers() {
    assert_eq!(LayerInterval::from_signed(-24).unwrap(), LayerInterval::OctaveDown2);
    assert_eq!(LayerInterval::from_unsigned(7).unwrap(), LayerInterval::Fifth);
    assert_eq!(
        LayerInterval::from_signed(-5).unwrap_err(),
        "unsupported layer semitones -5"
    );
    assert_eq!(
        LayerInterval::from_signed(100_000).unwrap_err(),
        "unsupported layer semitones 100000"
    );
    assert_eq!(
        LayerInterval::from_unsigned(40_000).unwrap_err(),
        "unsupported layer semitones 40000"
    );
}

#[test]
fn follow_up_only_when_not_planned() {
    let lead = resolve_layer_plan("ld-sine", &None, &LayerMode::Auto);
    assert_eq!(follow_up_intervals(&lead), vec![LayerInterval::Fifth]);
    let laser = resolve_layer_plan("fx-laser", &None, &LayerMode::Auto);
    assert_eq!(follow_up_intervals(&laser), vec![LayerInterval::OctaveDown3]);
    let pad = resolve_layer_plan("ps-crystal", &None, &LayerMode::Auto);
    assert_eq!(
        follow_up_intervals(&pad),
        vec![LayerInterval::Fifth, LayerInterval::Octave2]
    );
    let own = Some(vec![LayerInterval::Octave, LayerInterval::Fifth]);
    let p = fm_synth::LayerPlan {
        intervals: own.clone().unwrap(),
        extra: AutoLayerExtra::Fifth,
    };
    assert!(follow_up_intervals(&p).is_empty());
    let half = fm_synth::LayerPlan {
        intervals: own.unwrap(),
        extra: AutoLayerExtra::FifthAndOctave2,
    };
    assert_eq!(follow_up_intervals(&half), vec![LayerInterval::Octave2]);
    let off = resolve_layer_plan("ld-sine", &None, &LayerMode::Off);
    assert!(follow_up_intervals(&off).is_empty());
}

#[test]
fn mixed_semitones_are_sorted_and_keep_the_root() {
    assert_eq!(mixed_semitones(&vec![], &vec![]), vec![0]);
    assert_eq!(
        mixed_semitones(&vec![LayerInterval::Octave], &vec![LayerInterval::Fifth]),
        vec![0, 7, 12]
    );
    assert_eq!(
        mixed_semitones(
            &vec![LayerInterval::OctaveDown, LayerInterval::OctaveDown2],
            &vec![LayerInterval::OctaveDown3]
        ),
        vec![-36, -24, -12, 0]
    );
    assert_eq!(
        mixed_semitones(
            &vec![LayerInterval::Octave, LayerInterval::OctaveDown],
            &vec![LayerInterval::Fifth, LayerInterval::Octave2]
        ),
        vec![-12, 0, 7, 12, 24]
    );
    assert_eq!(sort_offsets(&vec![3, -1, 3, 0, -7]), vec![-7, -1, 0, 3, 3]);
    assert!(sort_offsets(&vec![]).is_empty());
}

#[test]
fn layers_off_is_a_single_voice() {
    let own = Some(vec![LayerInterval::Octave, LayerInterval::OctaveDown]);
    for id in ["ld-sine", "fx-laser", "sub-bass", "ps-crystal"] {
        let plan = resolve_layer_plan(id, &own, &LayerMode::Off);
        assert!(plan.intervals.is_empty());
        let added = follow_up_intervals(&plan);
        assert!(added.is_empty());
        assert_eq!(mixed_semitones(&plan.intervals, &added), vec![0]);
    }
}

#[test]
fn sparkle_and_airy_auto_plan_is_plus_minus_octave() {
    let plan = resolve_layer_plan("ps-crystal", &None, &LayerMode::Auto);
    assert_eq!(
        plan.intervals,
        vec![LayerInterval::Octave, LayerInterval::OctaveDown]
    );
    assert_eq!(plan.extra, AutoLayerExtra::FifthAndOctave2);

    let flute_plan = resolve_layer_plan("pf-flute-pad", &None, &LayerMode::Auto);
    assert_eq!(flute_plan.intervals, plan.intervals);
    assert_eq!(flute_plan.extra, AutoLayerExtra::FifthAndOctave2);

    assert!(is_factory_sparkle_pad_id("ps-glitter"));
    assert!(is_airy_fresh_pad_id("pf-silk"));
    assert!(is_factory_pad_stack_id("pf-choir-air"));
    assert!(!is_factory_pad_stack_id("pf-juno-air"));
    assert!(!is_factory_pad_stack_id("ld-flute"));
}

#[test]
fn pad_stack_ids_and_other_pads() {
    assert!(is_factory_pad_stack_id("ps-thin-probe"));
    assert!(is_factory_pad_stack_id("presets/pad-sparkle/ps-shimmer.toml"));
    assert!(is_factory_sparkle_pad_id("ps-crystal"));
    assert!(!is_factory_sparkle_pad_id("pf-silk"));
    assert!(!is_airy_fresh_pad_id("ps-crystal"));
    assert!(!is_airy_fresh_pad_id("pf-juno-air"));
    assert!(is_airy_fresh_pad_id("pf-flute-pad"));
    for id in factory_ids() {
        if is_factory_pad_stack_id(id) {
            assert!(!is_factory_lead_id(id) && !is_factory_fx_id(id), "{id}");
        }
    }
    let juno = resolve_layer_plan("pf-juno-air", &None, &LayerMode::Auto);
    assert!(juno.intervals.is_empty());
    assert_eq!(juno.extra, AutoLayerExtra::NoExtra);
    let thin = resolve_layer_plan("ps-thin-probe", &None, &LayerMode::Auto);
    let added = follow_up_intervals(&thin);
    assert_eq!(
        mixed_semitones(&thin.intervals, &added),
        vec![-12, 0, 7, 12, 24]
    );
    let own = Some(vec![LayerInterval::Fifth]);
    let pad_own = resolve_layer_plan("ps-crystal", &own, &LayerMode::Auto);
    assert_eq!(pad_own.intervals, vec![LayerInterval::Fifth]);
    assert_eq!(pad_own.extra, AutoLayerExtra::NoExtra);
}

#[test]
fn octave_two_is_plus_twenty_four() {
    assert_eq!(LayerInterval::Octave2.semitones(), 24);
    assert_eq!(LayerInterval::Octave2.label(), "octave-2");
    assert_eq!(LayerInterval::parse_token("octave2").unwrap(), LayerInterval::Octave2);
    assert_eq!(LayerInterval::parse_token("24").unwrap(), LayerInterval::Octave2);
    assert_eq!(LayerInterval::from_unsigned(24).unwrap(), LayerInterval::Octave2);
    assert_eq!(LayerInterval::from_signed(24).unwrap(), LayerInterval::Octave2);
    assert_eq!(
        LayerInterval::from_unsigned(25).unwrap_err(),
        "unsupported layer semitones 25"
    );
    assert_eq!(
        LayerMode::parse("octave-2,octave,fifth").unwrap(),
        LayerMode::Explicit(vec![
            LayerInterval::Octave,
            LayerInterval::Fifth,
            LayerInterval::Octave2
        ])
    );
    match LayerInterval::parse_token("13").unwrap_err() {
        Error::InvalidParam { message } => assert_eq!(
            message,
            "unsupported layer semitones 13 (use 12, 7, -12, -24, -36)"
        ),
        other => panic!("unexpected {}", other.message()),
    }
}
