use renderide::settings::ExperimentalSettings;

#[test]
fn default_keeps_reflection_probe_sh2_disabled() {
    let settings = ExperimentalSettings::default();

    assert!(!settings.reflection_probe_sh2_enabled);
}
