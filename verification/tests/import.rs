use hc_caseta::import::{
    area_of, import_report, is_countable_report, is_placeholder_button, parse_integration_report,
    plural, try_parse_integration_report, Import, ImportError, SMART_BRIDGE_ID,
};
use hc_caseta::json::{Json, JsonNumber};

const REPORT: &str = r#"{"LIPIdList":{
      "Devices":[
        {"ID":1,"Name":"Smart Bridge 2","Buttons":[
          {"Name":"Solstice Lights On","Number":1},
          {"Name":"Sonos Play","Number":3},
          {"Name":"Button 5","Number":5},
          {"Name":"Button 6","Number":6}]},
        {"ID":6,"Area":{"Name":"Living Room"},"Name":"Pico","Buttons":[{"Number":2},{"Number":3}]},
        {"ID":9,"Name":"Remote 1","Buttons":[{"Number":2}]}],
      "Zones":[
        {"ID":2,"Name":"Holiday Lights 1","Area":{"Name":"Living Room"}},
        {"ID":10,"Name":"String Lights","Area":{"Name":"Outdoor"}}]}}"#;

fn number(row: &Json, key: &str) -> Option<u64> {
    row.get(key).and_then(Json::as_u64)
}

fn text<'a>(row: &'a Json, key: &str) -> Option<&'a str> {
    row.get(key).and_then(Json::as_str)
}

fn json(source: &str) -> Json {
    Json::parse(source).unwrap()
}

#[test]
fn zones_become_devices_without_a_guessed_kind() {
    let out = parse_integration_report(REPORT).unwrap();
    let zone = &out.devices[0];
    assert_eq!(number(zone, "integration_id"), Some(2));
    assert_eq!(text(zone, "name"), Some("Holiday Lights 1"));
    assert_eq!(text(zone, "area"), Some("Living Room"));
    // The report has no load type; guessing one would drive a switch as a
    // dimmer. The operator picks.
    assert!(zone.get("kind").is_none());
}

#[test]
fn button_devices_become_picos_and_the_bridge_does_not() {
    let out = parse_integration_report(REPORT).unwrap();
    let picos: Vec<&Json> = out
        .devices
        .iter()
        .filter(|d| text(d, "kind") == Some("pico"))
        .collect();
    assert_eq!(picos.len(), 2, "two Picos, and the bridge is not one");
    assert_eq!(number(picos[0], "integration_id"), Some(6));
    assert_eq!(text(picos[0], "area"), Some("Living Room"));
    // No Area in the report means no area key at all, not an empty string.
    assert!(picos[1].get("area").is_none());
    assert!(
        !out.devices
            .iter()
            .any(|d| number(d, "integration_id") == Some(1)),
        "the Smart Bridge must never import as a device"
    );
}

#[test]
fn only_named_phantom_buttons_become_scenes() {
    let out = parse_integration_report(REPORT).unwrap();
    assert_eq!(out.scenes.len(), 2);
    assert_eq!(text(&out.scenes[0], "name"), Some("Solstice Lights On"));
    assert_eq!(number(&out.scenes[0], "button_component"), Some(1));
    assert_eq!(number(&out.scenes[0], "bridge_id"), Some(1));
    assert_eq!(text(&out.scenes[1], "name"), Some("Sonos Play"));
    // "Button 5"/"Button 6" are unprogrammed slots, and the operator is told.
    assert!(out.summary().contains("Ignored 2 unprogrammed"));
}

#[test]
fn placeholder_names_are_recognised_precisely() {
    assert!(is_placeholder_button("Button 5"));
    assert!(is_placeholder_button("Button 100"));
    // A real scene that merely starts with the word.
    assert!(!is_placeholder_button("Button by the door"));
    assert!(!is_placeholder_button("Button"));
    assert!(!is_placeholder_button("Buttons 5"));
}

#[test]
fn junk_input_explains_itself() {
    assert!(parse_integration_report("   ")
        .unwrap_err()
        .to_string()
        .contains("Paste the integration report"));
    assert!(parse_integration_report("not json")
        .unwrap_err()
        .to_string()
        .contains("does not parse as JSON"));
    assert!(parse_integration_report(r#"{"something":1}"#)
        .unwrap_err()
        .to_string()
        .contains("LIPIdList"));
}

#[test]
fn placeholder_names_need_digits_of_plain_ascii() {
    assert!(!is_placeholder_button("Button "));
    assert!(!is_placeholder_button("Button 5a"));
    assert!(!is_placeholder_button("Button -5"));
    assert!(!is_placeholder_button("button 5"));
    assert!(!is_placeholder_button(" Button 5"));
    assert!(!is_placeholder_button("Button \u{664}"));
    assert!(!is_placeholder_button(""));
    assert!(is_placeholder_button("Button 007"));
}

#[test]
fn the_summary_counts_and_spells_out() {
    let out = parse_integration_report(REPORT).unwrap();
    assert_eq!(
        out.summary(),
        "Imported 4 devices, 2 scenes. Ignored 2 unprogrammed phantom buttons on the bridge."
    );
    let one = parse_integration_report(
        r#"{"LIPIdList":{"Devices":[{"ID":1,"Buttons":[{"Name":"Off","Number":1},{"Number":2}]}],
            "Zones":[{"ID":2,"Name":"Lamp"}]}}"#,
    )
    .unwrap();
    assert_eq!(
        one.summary(),
        "Imported 1 device, 1 scene. Ignored 1 unprogrammed phantom button on the bridge."
    );
    let bare = Import {
        skipped: vec!["One.".to_string(), "Two.".to_string()],
        ..Import::default()
    };
    assert_eq!(bare.summary(), "Imported 0 devices, 0 scenes. One. Two.");
    assert_eq!(plural(0), "s");
    assert_eq!(plural(1), "");
    assert_eq!(plural(12), "s");
}

#[test]
fn every_error_is_worded() {
    assert_eq!(
        parse_integration_report(" \n\t").unwrap_err().to_string(),
        "Paste the integration report first."
    );
    assert_eq!(
        parse_integration_report("not json").unwrap_err().to_string(),
        "That does not parse as JSON (expected ident at line 1 column 2). Paste the whole report."
    );
    assert_eq!(
        parse_integration_report("[]").unwrap_err().to_string(),
        "No `LIPIdList` — is this a Caséta integration report?"
    );
    assert_eq!(
        parse_integration_report(r#"{"LIPIdList":{"Zones":[{"ID":2}]}}"#)
            .unwrap_err()
            .to_string(),
        "The report contained no zones, devices or scenes."
    );
    assert_eq!(
        parse_integration_report("").unwrap_err(),
        ImportError::NoText
    );
    assert_eq!(
        parse_integration_report(r#"{"LIPIdList":null}"#).unwrap_err(),
        ImportError::NothingListed
    );
    assert_eq!(
        parse_integration_report(r#"{"LIPIdList":"#).unwrap_err(),
        ImportError::NotJson("EOF while parsing a value at line 1 column 13".to_string())
    );
}

#[test]
fn rows_have_the_keys_of_the_configuration() {
    let unsigned = |n| Json::Number(JsonNumber::Unsigned(n));
    let string = |text: &str| Json::String(text.to_string());
    let object = |entries: Vec<(&str, Json)>| {
        Json::Object(
            entries
                .into_iter()
                .map(|(key, value)| (key.to_string(), value))
                .collect(),
        )
    };
    let out = parse_integration_report(REPORT).unwrap();
    assert_eq!(
        out.devices,
        vec![
            object(vec![
                ("integration_id", unsigned(2)),
                ("name", string("Holiday Lights 1")),
                ("area", string("Living Room")),
            ]),
            object(vec![
                ("integration_id", unsigned(10)),
                ("name", string("String Lights")),
                ("area", string("Outdoor")),
            ]),
            object(vec![
                ("integration_id", unsigned(6)),
                ("name", string("Pico")),
                ("kind", string("pico")),
                ("area", string("Living Room")),
            ]),
            object(vec![
                ("integration_id", unsigned(9)),
                ("name", string("Remote 1")),
                ("kind", string("pico")),
            ]),
        ]
    );
    assert_eq!(
        out.scenes[0],
        object(vec![
            ("name", string("Solstice Lights On")),
            ("button_component", unsigned(1)),
            ("bridge_id", unsigned(1)),
        ])
    );
}

#[test]
fn incomplete_entries_are_passed_over() {
    let out = parse_integration_report(
        r#"{"LIPIdList":{
            "Zones":[{"Name":"No ID"},{"ID":-2,"Name":"Negative"},{"ID":2.0,"Name":"Fraction"},
                     {"ID":"2","Name":"Text"},{"ID":3,"Name":4},7,{"ID":18446744073709551615,"Name":""}],
            "Devices":[{"Name":"No ID","Buttons":[{"Number":2}]},{"ID":4,"Buttons":[]},
                       {"ID":5,"Name":"No buttons"},{"ID":6,"Buttons":[null]},{"ID":7,"Buttons":{}}]}}"#,
    )
    .unwrap();
    assert_eq!(out.devices.len(), 2);
    assert_eq!(number(&out.devices[0], "integration_id"), Some(u64::MAX));
    assert_eq!(text(&out.devices[0], "name"), Some(""));
    // A Pico without a name still lands.
    assert_eq!(number(&out.devices[1], "integration_id"), Some(6));
    assert_eq!(text(&out.devices[1], "name"), Some(""));
    assert_eq!(text(&out.devices[1], "kind"), Some("pico"));
    assert!(out.scenes.is_empty());
    assert!(out.skipped.is_empty());
}

#[test]
fn areas_are_trimmed_and_never_empty() {
    assert_eq!(
        area_of(&json(r#"{"Area":{"Name":"  Den\t"}}"#)),
        Some("Den".to_string())
    );
    assert_eq!(area_of(&json(r#"{"Area":{"Name":"  "}}"#)), None);
    assert_eq!(area_of(&json(r#"{"Area":{"Name":3}}"#)), None);
    assert_eq!(area_of(&json(r#"{"Area":"Den"}"#)), None);
    assert_eq!(area_of(&json(r#"{}"#)), None);
}

#[test]
fn surrounding_white_space_does_not_matter() {
    let padded = format!("\u{3000}\n {REPORT}\r\n ");
    let out = parse_integration_report(&padded).unwrap();
    let plain = parse_integration_report(REPORT).unwrap();
    assert_eq!(out.devices, plain.devices);
    assert_eq!(out.scenes, plain.scenes);
    assert_eq!(out.skipped, plain.skipped);
}

#[test]
fn a_zone_may_claim_the_id_of_the_bridge() {
    let out =
        parse_integration_report(r#"{"LIPIdList":{"Zones":[{"ID":1,"Name":"Odd"}]}}"#).unwrap();
    assert_eq!(number(&out.devices[0], "integration_id"), Some(SMART_BRIDGE_ID));
}

#[test]
fn every_button_is_a_scene_or_is_counted() {
    let out = parse_integration_report(REPORT).unwrap();
    assert_eq!(out.scenes.len() + 2, 4);
    assert_eq!(
        out.skipped,
        vec!["Ignored 2 unprogrammed phantom buttons on the bridge.".to_string()]
    );
    let full = parse_integration_report(
        r#"{"LIPIdList":{"Devices":[{"ID":1,"Buttons":[{"Name":"Off","Number":1}]}]}}"#,
    )
    .unwrap();
    assert_eq!(full.scenes.len(), 1);
    assert!(full.skipped.is_empty());
}

#[test]
fn a_second_bridge_is_counted_as_long_as_it_can_be() {
    let fits = r#"{"LIPIdList":{"Devices":[
        {"ID":1,"Buttons":[{"Name":"Off","Number":1}]},
        {"ID":1,"Buttons":[{"Name":"On","Number":2},{"Number":3},{"Number":4}]}]}}"#;
    assert!(is_countable_report(&json(fits)));
    let out = try_parse_integration_report(fits).unwrap().unwrap();
    assert_eq!(out.scenes.len(), 2);
    assert_eq!(
        out.skipped,
        vec!["Ignored 1 unprogrammed phantom button on the bridge.".to_string()]
    );
    let short = r#"{"LIPIdList":{"Devices":[
        {"ID":1,"Buttons":[{"Name":"Off","Number":1}]},{"ID":1}]}}"#;
    assert!(!is_countable_report(&json(short)));
    assert!(try_parse_integration_report(short).is_none());
}

#[test]
fn the_careful_parser_agrees_with_the_plain_one() {
    let out = try_parse_integration_report(REPORT).unwrap().unwrap();
    assert_eq!(out.summary(), parse_integration_report(REPORT).unwrap().summary());
    assert_eq!(
        try_parse_integration_report("").unwrap().unwrap_err(),
        ImportError::NoText
    );
    assert_eq!(
        try_parse_integration_report("{}").unwrap().unwrap_err(),
        ImportError::NoList
    );
}

#[test]
fn a_report_can_be_written_by_hand() {
    let zone = Json::Object(vec![
        (
            "ID".to_string(),
            Json::Number(JsonNumber::Unsigned(7)),
        ),
        ("Name".to_string(), Json::String("Lamp".to_string())),
    ]);
    let list = Json::Object(vec![("Zones".to_string(), Json::Array(vec![zone]))]);
    let root = Json::Object(vec![("LIPIdList".to_string(), list)]);
    let out = import_report(&root).unwrap();
    assert_eq!(out.devices.len(), 1);
    assert_eq!(number(&out.devices[0], "integration_id"), Some(7));
    assert_eq!(text(&out.devices[0], "name"), Some("Lamp"));
    assert_eq!(import_report(&Json::Null).unwrap_err(), ImportError::NoList);
}

#[test]
fn summaries_are_one_line() {
    let import = parse_integration_report(
        r#"{"LIPIdList":{
          "Devices":[{"ID":1,"Buttons":[{"Name":"Two\nlines","Number":1},{"Name":"Button 2","Number":2}]}],
          "Zones":[{"ID":2,"Name":"Lamp\r\n","Area":{"Name":"De\nn"}}]}}"#,
    )
    .unwrap();
    assert_eq!(
        import.summary(),
        "Imported 1 device, 1 scene. Ignored 1 unprogrammed phantom button on the bridge."
    );
    assert!(!import.summary().contains(['\n', '\r']));
}
