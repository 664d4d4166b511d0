use std::collections::HashMap;

use ganymede::conf::{
    add_or_update_progress_step, conf_without_file, create_progress, default_auto_open_guides,
    default_copy_current_step_shortcut, default_go_next_step_shortcut,
    default_go_previous_step_shortcut, default_level, default_reset_conf_shortcut, find_profile,
    find_progress, get_conf_profile_in_use_mut, get_profile_progress_mut, normalize_conf,
    toggle_conf_step_checkbox, Conf, ConfApiImpl, ConfLang, ConfStep, Error, FontSize, Profile,
    Progress, Shortcuts, OPACITY_MAX,
};

fn opacity(conf: &Conf) -> f32 {
    f32::from_bits(conf.opacity)
}

fn stored(value: f32) -> f32 {
    let mut conf = Conf::default();
    conf.opacity = value.to_bits();
    normalize_conf(&mut conf);
    opacity(&conf)
}

#[test]
fn default_conf_has_one_profile_in_use() {
    let conf = Conf::default();
    assert_eq!(conf.profiles.len(), 1);
    assert_eq!(conf.profile_in_use, conf.profiles[0].id);
    assert_eq!(opacity(&conf), 0.98_f32);
    assert_eq!(conf.opacity, OPACITY_MAX);
    assert!(conf.auto_travel_copy);
    assert!(conf.show_done_guides);
    assert!(conf.auto_open_guides);
    assert_eq!(conf.lang, ConfLang::Fr);
    assert_eq!(conf.font_size, FontSize::Normal);
    assert!(conf.auto_pilots.is_empty());
    assert!(conf.notes.is_empty());
}

#[test]
fn default_profile_is_a_fresh_player() {
    let profile = Profile::default();
    assert_eq!(profile.name, "Player");
    assert_eq!(profile.level, 200);
    assert_eq!(profile.server_id, None);
    assert!(profile.progresses.is_empty());
    assert_eq!(profile.id.len(), 36);
    for (i, c) in profile.id.chars().enumerate() {
        if i == 8 || i == 13 || i == 18 || i == 23 {
            assert_eq!(c, '-');
        } else {
            assert!(c.is_ascii_digit() || ('a'..='f').contains(&c));
        }
    }
    assert_ne!(Profile::default().id, profile.id);
}

#[test]
fn default_values() {
    assert_eq!(default_level(), 200);
    assert!(default_auto_open_guides());
    assert_eq!(default_reset_conf_shortcut(), "Alt+Shift+P");
    assert_eq!(default_go_next_step_shortcut(), "CommandOrControl+Shift+E");
    assert_eq!(default_go_previous_step_shortcut(), "CommandOrControl+Shift+A");
    assert_eq!(default_copy_current_step_shortcut(), "CommandOrControl+Shift+C");
    let shortcuts = Shortcuts::default();
    assert_eq!(shortcuts.reset_conf, "Alt+Shift+P");
    assert_eq!(shortcuts.go_next_step, "CommandOrControl+Shift+E");
    assert_eq!(shortcuts.go_previous_step, "CommandOrControl+Shift+A");
    assert_eq!(shortcuts.copy_current_step, "CommandOrControl+Shift+C");
    assert!(ConfStep::default().checkboxes.is_empty());
    assert_eq!(ConfLang::default(), ConfLang::Fr);
    assert_eq!(FontSize::default(), FontSize::Normal);
}

#[test]
fn missing_file_gives_the_default_document() {
    let conf = conf_without_file(true, "No such file or directory".to_string()).unwrap();
    assert_eq!(conf.profiles.len(), 1);
    assert_eq!(conf.profile_in_use, conf.profiles[0].id);
    assert_eq!(opacity(&conf), 0.98_f32);
}

#[test]
fn unreadable_file_is_an_error() {
    match conf_without_file(false, "permission denied".to_string()) {
        Err(Error::UnhandledIo(detail)) => assert_eq!(detail, "permission denied"),
        other => panic!("unexpected: {:?}", other),
    }
}

#[test]
fn opacity_above_the_maximum_is_stored_as_the_maximum() {
    assert_eq!(stored(1.5), 0.98_f32);
    assert_eq!(stored(1.0), 0.98_f32);
    assert_eq!(stored(f32::INFINITY), 0.98_f32);
    assert_eq!(stored(f32::MAX), 0.98_f32);
}

#[test]
fn opacity_below_zero_is_stored_as_zero() {
    assert_eq!(stored(-1.0).to_bits(), 0.0_f32.to_bits());
    assert_eq!(stored(f32::NEG_INFINITY).to_bits(), 0.0_f32.to_bits());
    assert_eq!(stored(-f32::MIN_POSITIVE).to_bits(), 0.0_f32.to_bits());
}

#[test]
fn opacity_in_range_is_stored_as_it_is() {
    for value in [0.0_f32, 0.25, 0.5, 0.979_999, 0.98, f32::MIN_POSITIVE, 1.0e-40] {
        assert_eq!(stored(value).to_bits(), value.to_bits());
    }
}

fn expected_stored(value: f32) -> f32 {
    if value.is_nan() {
        0.98
    } else {
        value.clamp(0.0, 0.98)
    }
}

#[test]
fn every_number_is_stored_as_the_float_clamp_gives_it() {
    let samples = [
        0.0_f32, -0.0, 0.98, 0.980_000_1, 0.979_999_9, 1.0, 1.5, -1.0, -0.5, 123.0, -123.0,
        f32::MAX, f32::MIN, f32::INFINITY, f32::NEG_INFINITY, f32::MIN_POSITIVE, 1.0e-45,
        -1.0e-45, f32::EPSILON,
    ];
    for value in samples {
        assert_eq!(stored(value).to_bits(), value.clamp(0.0, 0.98).to_bits(), "{}", value);
    }
}

#[test]
fn what_is_no_number_is_stored_as_the_maximum() {
    let patterns = [
        f32::NAN.to_bits(),
        (-f32::NAN).to_bits(),
        0x7F80_0001,
        0x7FFF_FFFF,
        0xFF80_0001,
        0xFFFF_FFFF,
        0x7FC0_0000,
        0xFFC0_0000,
    ];
    for bits in patterns {
        assert!(f32::from_bits(bits).is_nan());
        assert_eq!(stored(f32::from_bits(bits)).to_bits(), OPACITY_MAX, "{:#x}", bits);
        assert_eq!(stored(f32::from_bits(bits)), 0.98_f32);
    }
}

#[test]
fn stored_opacity_is_always_in_range() {
    let mut bits: u32 = 0;
    loop {
        let value = f32::from_bits(bits);
        let kept = stored(value);
        assert!(0.0 <= kept && kept <= 0.98, "{:#x}", bits);
        assert_eq!(kept.to_bits(), expected_stored(value).to_bits(), "{:#x}", bits);
        assert_eq!(stored(kept).to_bits(), kept.to_bits(), "{:#x}", bits);
        match bits.checked_add(0x0001_0001) {
            Some(next) => bits = next,
            None => break,
        }
    }
    for bits in [0x7F7F_FFFF_u32, 0x7F80_0000, 0x7F80_0001, 0x8000_0000, 0x8000_0001, 0xFF80_0000, 0xFF80_0001, 0xFFFF_FFFF, 0x3F7A_E148, 0x3F7A_E149] {
        let kept = stored(f32::from_bits(bits));
        assert!(0.0 <= kept && kept <= 0.98, "{:#x}", bits);
        assert_eq!(kept.to_bits(), expected_stored(f32::from_bits(bits)).to_bits(), "{:#x}", bits);
    }
}

#[test]
fn normalize_changes_nothing_but_the_opacity() {
    let mut conf = Conf::default();
    let id = conf.profile_in_use.clone();
    conf.opacity = 1.5_f32.to_bits();
    normalize_conf(&mut conf);
    assert_eq!(conf.profile_in_use, id);
    assert_eq!(conf.profiles.len(), 1);
    assert_eq!(conf.profiles[0].id, id);
}

#[test]
fn toggle_adds_then_removes() {
    let mut step = ConfStep { checkboxes: vec![1, 2, 3] };
    toggle_conf_step_checkbox(&mut step, 4);
    assert_eq!(step.checkboxes, vec![1, 2, 3, 4]);
    toggle_conf_step_checkbox(&mut step, 2);
    assert_eq!(step.checkboxes, vec![1, 3, 4]);
    toggle_conf_step_checkbox(&mut step, 2);
    assert_eq!(step.checkboxes, vec![1, 3, 4, 2]);
}

#[test]
fn toggle_twice_restores_the_set() {
    for start in [vec![], vec![5], vec![1, 2, 3], vec![9, 7, 8]] {
        for checkbox in [1_u32, 5, 7, 42] {
            let mut step = ConfStep { checkboxes: start.clone() };
            toggle_conf_step_checkbox(&mut step, checkbox);
            assert_ne!(step.checkboxes.contains(&checkbox), start.contains(&checkbox));
            toggle_conf_step_checkbox(&mut step, checkbox);
            let mut after = step.checkboxes.clone();
            let mut before = start.clone();
            after.sort();
            before.sort();
            assert_eq!(after, before);
        }
    }
}

#[test]
fn toggle_removes_the_first_occurrence() {
    let mut step = ConfStep { checkboxes: vec![3, 1, 3] };
    toggle_conf_step_checkbox(&mut step, 3);
    assert_eq!(step.checkboxes, vec![1, 3]);
}

#[test]
fn create_progress_is_empty() {
    let progress = create_progress(12);
    assert_eq!(progress.id, 12);
    assert_eq!(progress.current_step, 0);
    assert!(progress.steps.is_empty());
    assert_eq!(progress.updated_at, None);
}

#[test]
fn add_or_update_keeps_an_existing_step() {
    let mut progress = create_progress(1);
    add_or_update_progress_step(&mut progress, ConfStep { checkboxes: vec![1] }, 4);
    assert_eq!(progress.steps[&4].checkboxes, vec![1]);
    add_or_update_progress_step(&mut progress, ConfStep { checkboxes: vec![2, 3] }, 4);
    assert_eq!(progress.steps[&4].checkboxes, vec![1]);
    add_or_update_progress_step(&mut progress, ConfStep { checkboxes: vec![2, 3] }, 5);
    assert_eq!(progress.steps[&5].checkboxes, vec![2, 3]);
    assert_eq!(progress.steps.len(), 2);
}

#[test]
fn progress_is_found_or_created() {
    let mut profile = Profile::default();
    assert_eq!(find_progress(&profile.progresses, 7), None);
    get_profile_progress_mut(&mut profile, 7).current_step = 3;
    get_profile_progress_mut(&mut profile, 8).current_step = 4;
    assert_eq!(profile.progresses.len(), 2);
    assert_eq!(find_progress(&profile.progresses, 7), Some(0));
    assert_eq!(find_progress(&profile.progresses, 8), Some(1));
    let again = get_profile_progress_mut(&mut profile, 7);
    assert_eq!(again.current_step, 3);
    again.current_step = 5;
    assert_eq!(profile.progresses.len(), 2);
    assert_eq!(profile.progresses[0].current_step, 5);
    assert_eq!(profile.progresses[1].current_step, 4);
}

#[test]
fn profile_in_use_is_resolved() {
    let mut conf = Conf::default();
    let mut second = Profile::default();
    second.name = "Second".to_string();
    let second_id = second.id.clone();
    conf.profiles.push(second);
    assert_eq!(find_profile(&conf.profiles, &second_id), Some(1));
    conf.profile_in_use = second_id.clone();
    let profile = get_conf_profile_in_use_mut(&mut conf).unwrap();
    assert_eq!(profile.name, "Second");
    profile.level = 12;
    assert_eq!(conf.profiles[1].level, 12);
    assert_eq!(conf.profiles[0].level, 200);
}

#[test]
fn dangling_profile_in_use_fails() {
    let mut conf = Conf::default();
    conf.profile_in_use = "nobody".to_string();
    assert!(matches!(get_conf_profile_in_use_mut(&mut conf), Err(Error::GetProfileInUse)));
}

#[test]
fn toggle_with_dangling_profile_fails_and_changes_nothing() {
    let mut conf = Conf::default();
    conf.profile_in_use = "does-not-exist".to_string();
    let before = conf.clone();
    let result = ConfApiImpl.toggle_guide_checkbox(&mut conf, 7, 0, 1);
    assert!(matches!(result, Err(Error::GetProfileInUse)));
    assert_eq!(conf.profiles.len(), before.profiles.len());
    assert_eq!(conf.profiles[0].id, before.profiles[0].id);
    assert!(conf.profiles[0].progresses.is_empty());
    assert_eq!(conf.profile_in_use, "does-not-exist");
}

#[test]
fn toggle_creates_the_progress_lazily() {
    let mut conf = Conf::default();
    let result = ConfApiImpl.toggle_guide_checkbox(&mut conf, 7, 3, 5);
    assert_eq!(result.unwrap(), 5);
    let progresses = &conf.profiles[0].progresses;
    assert_eq!(progresses.len(), 1);
    assert_eq!(progresses[0].id, 7);
    assert_eq!(progresses[0].current_step, 0);
    assert_eq!(progresses[0].updated_at, None);
    assert_eq!(progresses[0].steps.len(), 1);
    assert_eq!(progresses[0].steps[&3].checkboxes, vec![5]);
}

#[test]
fn toggle_guide_checkbox_twice_restores_the_step() {
    let mut conf = Conf::default();
    let mut steps = HashMap::new();
    steps.insert(2, ConfStep { checkboxes: vec![1, 4] });
    conf.profiles[0].progresses.push(Progress {
        id: 9,
        current_step: 2,
        steps,
        updated_at: Some("2024-01-01T00:00:00Z".to_string()),
    });
    assert_eq!(ConfApiImpl.toggle_guide_checkbox(&mut conf, 9, 2, 4).unwrap(), 4);
    assert_eq!(conf.profiles[0].progresses[0].steps[&2].checkboxes, vec![1]);
    assert_eq!(ConfApiImpl.toggle_guide_checkbox(&mut conf, 9, 2, 4).unwrap(), 4);
    assert_eq!(conf.profiles[0].progresses[0].steps[&2].checkboxes, vec![1, 4]);
    assert_eq!(conf.profiles[0].progresses.len(), 1);
    assert_eq!(conf.profiles[0].progresses[0].current_step, 2);
    assert_eq!(
        conf.profiles[0].progresses[0].updated_at,
        Some("2024-01-01T00:00:00Z".to_string())
    );
}

#[test]
fn toggle_touches_only_the_profile_in_use() {
    let mut conf = Conf::default();
    let second = Profile::default();
    conf.profile_in_use = second.id.clone();
    conf.profiles.push(second);
    ConfApiImpl.toggle_guide_checkbox(&mut conf, 1, 0, 0).unwrap();
    ConfApiImpl.toggle_guide_checkbox(&mut conf, 1, 1, 6).unwrap();
    assert!(conf.profiles[0].progresses.is_empty());
    assert_eq!(conf.profiles[1].progresses.len(), 1);
    assert_eq!(conf.profiles[1].progresses[0].steps[&0].checkboxes, vec![0]);
    assert_eq!(conf.profiles[1].progresses[0].steps[&1].checkboxes, vec![6]);
}

#[test]
fn clones_are_equal() {
    let mut conf = Conf::default();
    ConfApiImpl.toggle_guide_checkbox(&mut conf, 3, 1, 2).unwrap();
    let copy = conf.clone();
    assert_eq!(copy.profile_in_use, conf.profile_in_use);
    assert_eq!(copy.profiles[0].progresses[0].steps[&1].checkboxes, vec![2]);
    assert_eq!(copy.shortcuts.reset_conf, conf.shortcuts.reset_conf);
    assert_eq!(copy.opacity, conf.opacity);
}
