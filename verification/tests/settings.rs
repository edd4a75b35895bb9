use du_analog_inputs::settings::{check_settings, ConfigError, SettingKey, Settings, SettingsLoad};
use du_analog_inputs::text::IntErrorKind;

fn entries(pairs: &[(&str, &str)]) -> Vec<(String, String)> {
    pairs.iter().map(|(k, v)| (k.to_string(), v.to_string())).collect()
}

#[test]
fn default_configuration_is_valid() {
    let e = entries(&[
        ("device_pollrate", "250"),
        ("input_sendrate_division", "6"),
        ("debug", "true"),
        ("sixaxis", "true"),
    ]);
    assert_eq!(
        check_settings(&e),
        SettingsLoad::Valid(Settings {
            device_pollrate: 250,
            input_sendrate_division: 6,
            debug: true,
            sixaxis: true
        })
    );
}

#[test]
fn empty_configuration_is_replaced() {
    assert_eq!(check_settings(&vec![]), SettingsLoad::WriteDefault);
}

#[test]
fn missing_entries_are_reported_in_order() {
    let e = entries(&[("sixaxis", "false"), ("device_pollrate", "1")]);
    let r = check_settings(&e);
    assert_eq!(r, SettingsLoad::Invalid(ConfigError::MissingEntry(SettingKey::InputSendrateDivision)));
    if let SettingsLoad::Invalid(err) = r {
        assert_eq!(
            err.message(),
            "Configuration Entry input_sendrate_division not found. Delete file for new generation."
        );
    }
}

#[test]
fn wrong_values_are_reported() {
    let e = entries(&[
        ("device_pollrate", "70000"),
        ("input_sendrate_division", "6"),
        ("debug", "true"),
        ("sixaxis", "true"),
    ]);
    let r = check_settings(&e);
    assert_eq!(
        r,
        SettingsLoad::Invalid(ConfigError::InvalidNumber(SettingKey::DevicePollrate, IntErrorKind::PosOverflow))
    );
    let e = entries(&[
        ("device_pollrate", "250"),
        ("input_sendrate_division", "x"),
        ("debug", "true"),
        ("sixaxis", "true"),
    ]);
    assert_eq!(
        check_settings(&e),
        SettingsLoad::Invalid(ConfigError::InvalidNumber(
            SettingKey::InputSendrateDivision,
            IntErrorKind::InvalidDigit
        ))
    );
    let e = entries(&[
        ("device_pollrate", "250"),
        ("input_sendrate_division", "6"),
        ("debug", "yes"),
        ("sixaxis", "true"),
    ]);
    let r = check_settings(&e);
    assert_eq!(r, SettingsLoad::Invalid(ConfigError::InvalidBool(SettingKey::Debug)));
    if let SettingsLoad::Invalid(err) = r {
        assert_eq!(err.message(), "provided string was not `true` or `false`");
    }
    let e = entries(&[
        ("device_pollrate", "250"),
        ("input_sendrate_division", "6"),
        ("debug", "false"),
        ("sixaxis", "1"),
    ]);
    assert_eq!(check_settings(&e), SettingsLoad::Invalid(ConfigError::InvalidBool(SettingKey::Sixaxis)));
}

#[test]
fn extra_entries_are_ignored() {
    let e = entries(&[
        ("device_pollrate", "100"),
        ("other", "x"),
        ("input_sendrate_division", "+3"),
        ("debug", "false"),
        ("sixaxis", "false"),
    ]);
    assert_eq!(
        check_settings(&e),
        SettingsLoad::Valid(Settings {
            device_pollrate: 100,
            input_sendrate_division: 3,
            debug: false,
            sixaxis: false
        })
    );
}
