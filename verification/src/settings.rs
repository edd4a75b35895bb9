//! The basic configuration: how often devices are polled, how many polls
//! pass between two mouse sends, whether debug output is on, and which
//! encoding is used.

use vstd::prelude::*;
use crate::text::{
    bool_error_message, int_error_message, parse_bool, parse_bool_spec, parse_u16, parse_u8,
    parse_unsigned_spec, IntErrorKind, lemma_parse_unsigned_bounds,
};

verus! {

/// The entries that the configuration must hold.
#[derive(Clone, Copy, Debug, PartialEq, Eq, Structural)]
pub enum SettingKey {
    DevicePollrate,
    InputSendrateDivision,
    Debug,
    Sixaxis,
}

pub open spec fn setting_name(key: SettingKey) -> Seq<char> {
    match key {
        SettingKey::DevicePollrate => "device_pollrate"@,
        SettingKey::InputSendrateDivision => "input_sendrate_division"@,
        SettingKey::Debug => "debug"@,
        SettingKey::Sixaxis => "sixaxis"@,
    }
}

impl SettingKey {
    /// The name of the entry in the configuration file.
    pub fn name(&self) -> (n: &'static str)
        ensures
            n@ == setting_name(*self),
    {
        match self {
            SettingKey::DevicePollrate => "device_pollrate",
            SettingKey::InputSendrateDivision => "input_sendrate_division",
            SettingKey::Debug => "debug",
            SettingKey::Sixaxis => "sixaxis",
        }
    }
}

/// The configuration, read and checked.
#[derive(Clone, Copy, Debug, PartialEq, Eq, Structural)]
pub struct Settings {
    /// Polls per second of the device state.
    pub device_pollrate: u16,
    /// Polls between two sends to the mouse.
    pub input_sendrate_division: u8,
    /// Whether input codes are printed.
    pub debug: bool,
    /// Six axis encoding when true, five axis encoding otherwise.
    pub sixaxis: bool,
}

/// What is wrong with a configuration.
#[derive(Clone, Copy, Debug, PartialEq, Eq, Structural)]
pub enum ConfigError {
    /// An entry is missing.
    MissingEntry(SettingKey),
    /// A numeric entry is no number of its type.
    InvalidNumber(SettingKey, IntErrorKind),
    /// A truth value entry is neither `true` nor `false`.
    InvalidBool(SettingKey),
}

/// The report for each configuration error.
pub open spec fn config_error_message(e: ConfigError) -> Seq<char> {
    match e {
        ConfigError::MissingEntry(key) => "Configuration Entry "@ + setting_name(key)
            + " not found. Delete file for new generation."@,
        ConfigError::InvalidNumber(_, kind) => int_error_message(kind),
        ConfigError::InvalidBool(_) => "provided string was not `true` or `false`"@,
    }
}

impl ConfigError {
    /// The report of the error.
    pub fn message(&self) -> (m: String)
        ensures
            m@ == config_error_message(*self),
    {
        match self {
            ConfigError::MissingEntry(key) => {
                let mut m = String::from_str("Configuration Entry ");
                m.append(key.name());
                m.append(" not found. Delete file for new generation.");
                m
            },
            ConfigError::InvalidNumber(_, kind) => String::from_str(kind.message()),
            ConfigError::InvalidBool(_) => String::from_str(bool_error_message()),
        }
    }
}

/// What a read configuration gives.
#[derive(Clone, Copy, Debug, PartialEq, Eq, Structural)]
pub enum SettingsLoad {
    /// The configuration is complete and valid.
    Valid(Settings),
    /// The configuration is empty: write the default configuration and read
    /// again.
    WriteDefault,
    /// The configuration is wrong.
    Invalid(ConfigError),
}

/// The value of the first entry named `name`.
pub open spec fn entry_value(entries: Seq<(String, String)>, name: Seq<char>) -> Option<Seq<char>>
    decreases entries.len(),
{
    if entries.len() == 0 {
        None
    } else if entries[0].0@ == name {
        Some(entries[0].1@)
    } else {
        entry_value(entries.drop_first(), name)
    }
}

/// The outcome of checking configuration entries: an empty configuration is
/// replaced by the default one; otherwise the four entries must all be there
/// (checked in order), the poll rate must be a `u16`, the send rate division
/// a `u8`, and debug and sixaxis truth values (checked in that order).
pub open spec fn settings_outcome(entries: Seq<(String, String)>) -> SettingsLoad {
    let pollrate = entry_value(entries, setting_name(SettingKey::DevicePollrate));
    let division = entry_value(entries, setting_name(SettingKey::InputSendrateDivision));
    let debug = entry_value(entries, setting_name(SettingKey::Debug));
    let sixaxis = entry_value(entries, setting_name(SettingKey::Sixaxis));
    if entries.len() == 0 {
        SettingsLoad::WriteDefault
    } else if pollrate is None {
        SettingsLoad::Invalid(ConfigError::MissingEntry(SettingKey::DevicePollrate))
    } else if division is None {
        SettingsLoad::Invalid(ConfigError::MissingEntry(SettingKey::InputSendrateDivision))
    } else if debug is None {
        SettingsLoad::Invalid(ConfigError::MissingEntry(SettingKey::Debug))
    } else if sixaxis is None {
        SettingsLoad::Invalid(ConfigError::MissingEntry(SettingKey::Sixaxis))
    } else {
        match parse_unsigned_spec(pollrate->0, 65535) {
            Err(kind) => SettingsLoad::Invalid(
                ConfigError::InvalidNumber(SettingKey::DevicePollrate, kind),
            ),
            Ok(p) => match parse_unsigned_spec(division->0, 255) {
                Err(kind) => SettingsLoad::Invalid(
                    ConfigError::InvalidNumber(SettingKey::InputSendrateDivision, kind),
                ),
                Ok(d) => match parse_bool_spec(debug->0) {
                    None => SettingsLoad::Invalid(ConfigError::InvalidBool(SettingKey::Debug)),
                    Some(db) => match parse_bool_spec(sixaxis->0) {
                        None => SettingsLoad::Invalid(ConfigError::InvalidBool(SettingKey::Sixaxis)),
                        Some(sx) => SettingsLoad::Valid(
                            Settings {
                                device_pollrate: p as u16,
                                input_sendrate_division: d as u8,
                                debug: db,
                                sixaxis: sx,
                            },
                        ),
                    },
                },
            },
        }
    }
}

/// A valid configuration holds what its entries say: the poll rate and the
/// send rate division are the numbers written under `device_pollrate` and
/// `input_sendrate_division`, debug output is on exactly when `debug` says
/// `true`, and the six axis encoding is used exactly when `sixaxis` says
/// `true`. And a configuration with all four entries right is valid.
pub proof fn lemma_valid_settings_read_their_entries(entries: Seq<(String, String)>)
    ensures
        settings_outcome(entries) matches SettingsLoad::Valid(st) ==> {
            &&& entry_value(entries, "device_pollrate"@) matches Some(v)
                && parse_unsigned_spec(v, 65535) == Ok::<int, IntErrorKind>(st.device_pollrate as int)
            &&& entry_value(entries, "input_sendrate_division"@) matches Some(v)
                && parse_unsigned_spec(v, 255) == Ok::<int, IntErrorKind>(st.input_sendrate_division as int)
            &&& st.debug == (entry_value(entries, "debug"@) == Some("true"@))
            &&& entry_value(entries, "debug"@) matches Some(v) && (v == "true"@ || v == "false"@)
            &&& st.sixaxis == (entry_value(entries, "sixaxis"@) == Some("true"@))
            &&& entry_value(entries, "sixaxis"@) matches Some(v) && (v == "true"@ || v == "false"@)
        },
        ({
            let p = entry_value(entries, "device_pollrate"@);
            let d = entry_value(entries, "input_sendrate_division"@);
            let db = entry_value(entries, "debug"@);
            let sx = entry_value(entries, "sixaxis"@);
            (p matches Some(pv) && parse_unsigned_spec(pv, 65535) is Ok)
                && (d matches Some(dv) && parse_unsigned_spec(dv, 255) is Ok)
                && (db == Some("true"@) || db == Some("false"@))
                && (sx == Some("true"@) || sx == Some("false"@))
                ==> settings_outcome(entries) is Valid
        }),
{
    reveal_strlit("true");
    reveal_strlit("false");
    if let Some(v) = entry_value(entries, "device_pollrate"@) {
        lemma_parse_unsigned_bounds(v, 65535);
    }
    if let Some(v) = entry_value(entries, "input_sendrate_division"@) {
        lemma_parse_unsigned_bounds(v, 255);
    }
    assert("true"@ != "false"@) by {
        assert("true"@.len() != "false"@.len());
    }
    if entries.len() == 0 {
        assert(entry_value(entries, "debug"@) is None);
    }
}

/// Finds the value of the first entry named `key`.
fn find_entry<'a>(entries: &'a Vec<(String, String)>, key: SettingKey) -> (r: Option<&'a String>)
    ensures
        match r {
            Some(v) => entry_value(entries@, setting_name(key)) == Some(v@),
            None => entry_value(entries@, setting_name(key)) is None,
        },
{
    let name = String::from_str(key.name());
    let mut i: usize = 0;
    assert(entries@.skip(0) =~= entries@);
    while i < entries.len()
        invariant
            i <= entries@.len(),
            name@ == setting_name(key),
            entry_value(entries@, name@) == entry_value(entries@.skip(i as int), name@),
        decreases entries@.len() - i,
    {
        assert(entries@.skip(i as int)[0] == entries@[i as int]);
        if entries[i].0 == name {
            return Some(&entries[i].1);
        }
        assert(entries@.skip(i as int).drop_first() =~= entries@.skip(i + 1));
        i = i + 1;
    }
    assert(entries@.skip(i as int) =~= Seq::<(String, String)>::empty());
    None
}

/// Checks the entries of a configuration file.
pub fn check_settings(entries: &Vec<(String, String)>) -> (r: SettingsLoad)
    ensures
        r == settings_outcome(entries@),
        r matches SettingsLoad::Valid(st) ==> {
            &&& entry_value(entries@, "device_pollrate"@) matches Some(v)
                && parse_unsigned_spec(v, 65535) == Ok::<int, IntErrorKind>(st.device_pollrate as int)
            &&& entry_value(entries@, "input_sendrate_division"@) matches Some(v)
                && parse_unsigned_spec(v, 255) == Ok::<int, IntErrorKind>(st.input_sendrate_division as int)
            &&& st.debug == (entry_value(entries@, "debug"@) == Some("true"@))
            &&& st.sixaxis == (entry_value(entries@, "sixaxis"@) == Some("true"@))
        },
{
    proof {
        lemma_valid_settings_read_their_entries(entries@);
    }
    if entries.len() == 0 {
        return SettingsLoad::WriteDefault;
    }
    let pollrate = match find_entry(entries, SettingKey::DevicePollrate) {
        Some(v) => v,
        None => return SettingsLoad::Invalid(ConfigError::MissingEntry(SettingKey::DevicePollrate)),
    };
    let division = match find_entry(entries, SettingKey::InputSendrateDivision) {
        Some(v) => v,
        None => return SettingsLoad::Invalid(
            ConfigError::MissingEntry(SettingKey::InputSendrateDivision),
        ),
    };
    let debug = match find_entry(entries, SettingKey::Debug) {
        Some(v) => v,
        None => return SettingsLoad::Invalid(ConfigError::MissingEntry(SettingKey::Debug)),
    };
    let sixaxis = match find_entry(entries, SettingKey::Sixaxis) {
        Some(v) => v,
        None => return SettingsLoad::Invalid(ConfigError::MissingEntry(SettingKey::Sixaxis)),
    };
    let p = match parse_u16(pollrate.as_str()) {
        Ok(p) => p,
        Err(kind) => return SettingsLoad::Invalid(
            ConfigError::InvalidNumber(SettingKey::DevicePollrate, kind),
        ),
    };
    let d = match parse_u8(division.as_str()) {
        Ok(d) => d,
        Err(kind) => return SettingsLoad::Invalid(
            ConfigError::InvalidNumber(SettingKey::InputSendrateDivision, kind),
        ),
    };
    let db = match parse_bool(debug.as_str()) {
        Some(b) => b,
        None => return SettingsLoad::Invalid(ConfigError::InvalidBool(SettingKey::Debug)),
    };
    let sx = match parse_bool(sixaxis.as_str()) {
        Some(b) => b,
        None => return SettingsLoad::Invalid(ConfigError::InvalidBool(SettingKey::Sixaxis)),
    };
    SettingsLoad::Valid(
        Settings { device_pollrate: p, input_sendrate_division: d, debug: db, sixaxis: sx },
    )
}

} // verus!
