use du_analog_inputs::mapping::{
    invalid_mapping_message, AxisMap, AxisVariations, KeyList, KeyMap, MappingLoad,
    XBOX_GAMEPAD_GUID,
};
use std::collections::HashMap;

#[test]
fn axis_names_round_trip() {
    let all = [
        AxisVariations::XAxis1, AxisVariations::XAxis2, AxisVariations::YAxis1,
        AxisVariations::YAxis2, AxisVariations::ZAxis1, AxisVariations::ZAxis2,
        AxisVariations::LesserAxis1, AxisVariations::LesserAxis2, AxisVariations::Nothing,
    ];
    for v in all.iter() {
        assert_eq!(AxisVariations::from_str(v.name()), Ok(*v));
        assert_eq!(v.to_string(), v.name());
    }
    assert_eq!(AxisVariations::Nothing.name(), "Unmapped");
}

#[test]
fn unknown_axis_names_are_refused() {
    assert!(AxisVariations::from_str("Nothing").is_err());
    assert!(AxisVariations::from_str("xaxis1").is_err());
    assert!(AxisVariations::from_str("").is_err());
    let e = AxisVariations::from_str("XAxis3").unwrap_err();
    assert_eq!(e.message(), "AxisVariationsFromStrError");
}

#[test]
fn key_list_reads_comma_separated_codes() {
    assert_eq!(KeyList::from_str("220,66").unwrap().key_list, vec![220, 66]);
    assert_eq!(KeyList::from_str("84").unwrap().key_list, vec![84]);
    assert_eq!(KeyList::from_str("+5,007").unwrap().key_list, vec![5, 7]);
}

#[test]
fn key_list_refuses_bad_pieces() {
    assert!(KeyList::from_str("").is_err());
    assert!(KeyList::from_str("1,,2").is_err());
    assert!(KeyList::from_str("1,").is_err());
    assert!(KeyList::from_str("65536").is_err());
    assert!(KeyList::from_str("220, 66").is_err());
    let e = KeyList::from_str("a").unwrap_err();
    assert_eq!(e.message(), "KeyListFromStrError");
}

#[test]
fn key_list_writes_comma_separated_codes() {
    assert_eq!(KeyList { key_list: vec![220, 66] }.to_string(), "220,66");
    assert_eq!(KeyList { key_list: vec![0] }.to_string(), "0");
    assert_eq!(KeyList { key_list: vec![] }.to_string(), "");
    assert_eq!(KeyList { key_list: vec![65535, 1, 10] }.to_string(), "65535,1,10");
}

#[test]
fn key_list_round_trip() {
    for keys in [vec![1u16], vec![220, 9], vec![0, 65535, 100, 7]] {
        let text = KeyList { key_list: keys.clone() }.to_string();
        assert_eq!(KeyList::from_str(&text).unwrap().key_list, keys);
    }
    let text = KeyList { key_list: vec![] }.to_string();
    assert!(KeyList::from_str(&text).is_err());
}

#[test]
fn default_axis_mapping_is_the_xbox_gamepad() {
    let m = AxisMap::xbox_default();
    assert!(!m.is_empty());
    assert_eq!(m.mapping.len(), 1);
    let guid = String::from(XBOX_GAMEPAD_GUID);
    assert_eq!(m.get(&guid, 0), Some(AxisVariations::XAxis1));
    assert_eq!(m.get(&guid, 1), Some(AxisVariations::YAxis1));
    assert_eq!(m.get(&guid, 2), Some(AxisVariations::XAxis2));
    assert_eq!(m.get(&guid, 3), Some(AxisVariations::YAxis2));
    assert_eq!(m.get(&guid, 4), Some(AxisVariations::ZAxis2));
    assert_eq!(m.get(&guid, 5), Some(AxisVariations::ZAxis1));
    assert_eq!(m.get(&guid, 6), None);
    assert_eq!(m.get(&String::from("other"), 0), None);
}

#[test]
fn default_key_mapping_is_the_xbox_gamepad() {
    let m = KeyMap::xbox_default();
    let guid = String::from(XBOX_GAMEPAD_GUID);
    assert_eq!(m.get(&guid, 7).unwrap().key_list, vec![220, 66]);
    assert_eq!(m.get(&guid, 6).unwrap().key_list, vec![220, 9]);
    assert_eq!(m.get(&guid, 4).unwrap().key_list, vec![17]);
    assert_eq!(m.get(&guid, 5).unwrap().key_list, vec![18]);
    assert_eq!(m.get(&guid, 10).unwrap().key_list, vec![82]);
    assert_eq!(m.get(&guid, 11).unwrap().key_list, vec![84]);
    assert_eq!(m.get(&guid, 2).unwrap().key_list, vec![88]);
    assert!(m.get(&guid, 0).is_none());
    assert!(m.get_device_exists(&guid));
    assert!(!m.get_device_exists(&String::from("x")));
}

#[test]
fn first_entry_of_a_device_wins() {
    let mut a = HashMap::new();
    a.insert(0u8, AxisVariations::ZAxis1);
    let mut b = HashMap::new();
    b.insert(0u8, AxisVariations::XAxis1);
    let m = AxisMap { mapping: vec![(String::from("g"), a), (String::from("g"), b)] };
    assert_eq!(m.get(&String::from("g"), 0), Some(AxisVariations::ZAxis1));
}

#[test]
fn loaded_mappings_decide_reset() {
    assert!(matches!(AxisMap::loaded(None), MappingLoad::ResetInvalid));
    assert!(matches!(AxisMap::loaded(Some(AxisMap { mapping: vec![] })), MappingLoad::ResetEmpty));
    assert!(matches!(AxisMap::loaded(Some(AxisMap::xbox_default())), MappingLoad::Use(_)));
    assert!(matches!(KeyMap::loaded(None), MappingLoad::ResetInvalid));
    assert!(matches!(KeyMap::loaded(Some(KeyMap { mapping: vec![] })), MappingLoad::ResetEmpty));
    match KeyMap::loaded(Some(KeyMap::xbox_default())) {
        MappingLoad::Use(m) => assert_eq!(m.mapping.len(), 1),
        _ => panic!("default key mapping not used"),
    }
}

#[test]
fn reset_message() {
    assert_eq!(
        invalid_mapping_message("axis_mapping.toml"),
        "Invalid Mapping. axis_mapping.toml has been reset."
    );
}

#[test]
fn mappings_with_a_guid_twice_are_reset() {
    let m = AxisMap {
        mapping: vec![(String::from("g"), HashMap::new()), (String::from("g"), HashMap::new())],
    };
    assert!(matches!(AxisMap::loaded(Some(m)), MappingLoad::ResetInvalid));
    let mut a = HashMap::new();
    a.insert(1u8, KeyList { key_list: vec![1] });
    let k = KeyMap {
        mapping: vec![
            (String::from("a"), HashMap::new()),
            (String::from("b"), a),
            (String::from("a"), HashMap::new()),
        ],
    };
    assert!(matches!(KeyMap::loaded(Some(k)), MappingLoad::ResetInvalid));
    let ok = KeyMap { mapping: vec![(String::from("a"), HashMap::new()), (String::from("b"), HashMap::new())] };
    assert!(matches!(KeyMap::loaded(Some(ok)), MappingLoad::Use(_)));
}
