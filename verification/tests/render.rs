use hassctl::records::{AttrValue, ServiceDomainDto, ServiceDto, StateDto};
use hassctl::render::{
    render_attr_value, render_entity_list, render_entity_show, render_scene_list,
    render_service_list, render_state_line,
};
use hassctl::text::{json_quote_str, u64_to_dec};

fn state(id: &str, st: &str, attrs: Vec<(String, AttrValue)>) -> StateDto {
    StateDto {
        attributes: attrs,
        entity_id: id.to_string(),
        last_changed: String::new(),
        state: st.to_string(),
    }
}

#[test]
fn decimal_rendering_exact_values() {
    assert_eq!(u64_to_dec(0), "0".to_string());
    assert_eq!(u64_to_dec(7), "7".to_string());
    assert_eq!(u64_to_dec(8123), "8123".to_string());
    assert_eq!(u64_to_dec(65535), "65535".to_string());
    assert_eq!(u64_to_dec(18446744073709551615), "18446744073709551615".to_string());
}

#[test]
fn json_quoting_exact_values() {
    assert_eq!(json_quote_str(""), "\"\"".to_string());
    assert_eq!(json_quote_str("plain"), "\"plain\"".to_string());
    assert_eq!(json_quote_str("a\"b\\c"), "\"a\\\"b\\\\c\"".to_string());
    assert_eq!(json_quote_str("\u{8}\u{c}\n\r\t"), "\"\\b\\f\\n\\r\\t\"".to_string());
    assert_eq!(json_quote_str("\u{0}\u{1f}"), "\"\\u0000\\u001f\"".to_string());
}

#[test]
fn state_line_with_and_without_friendly_name() {
    let named = state(
        "light.kitchen",
        "on",
        vec![("friendly_name".to_string(), AttrValue::Text("Kitchen".to_string()))],
    );
    assert_eq!(render_state_line(&named), "light.kitchen - Kitchen (on)".to_string());
    let bare = state("light.kitchen", "off", vec![]);
    assert_eq!(render_state_line(&bare), "light.kitchen (off)".to_string());
}

#[test]
fn attr_values_render_as_json_text() {
    assert_eq!(render_attr_value(&AttrValue::Text("Kitchen".to_string())), "\"Kitchen\"".to_string());
    assert_eq!(render_attr_value(&AttrValue::Other("42".to_string())), "42".to_string());
}

#[test]
fn entity_list_renders_one_line_per_entity() {
    let states = vec![
        state(
            "light.kitchen",
            "on",
            vec![("friendly_name".to_string(), AttrValue::Text("Kitchen".to_string()))],
        ),
        state("lock.front", "locked", vec![]),
    ];
    let lines = render_entity_list(&states);
    assert_eq!(
        lines,
        vec!["light.kitchen - Kitchen (on)".to_string(), "lock.front (locked)".to_string()]
    );
}

#[test]
fn entity_show_renders_every_attribute() {
    let e = state(
        "light.kitchen",
        "on",
        vec![
            ("friendly_name".to_string(), AttrValue::Text("Kitchen".to_string())),
            ("brightness".to_string(), AttrValue::Other("254".to_string())),
        ],
    );
    let lines = render_entity_show(&e);
    assert_eq!(
        lines,
        vec![
            "light.kitchen - Kitchen (on)".to_string(),
            "  - friendly_name: \"Kitchen\"".to_string(),
            "  - brightness: 254".to_string(),
        ]
    );
}

#[test]
fn service_list_renders_domain_blocks() {
    let domains = vec![ServiceDomainDto {
        domain: "scene".to_string(),
        services: vec![
            (
                "turn_on".to_string(),
                ServiceDto {
                    name: "Turn on".to_string(),
                    description: Some("Activates a scene".to_string()),
                    fields: Vec::new(),
                    target: None,
                },
            ),
            (
                "reload".to_string(),
                ServiceDto {
                    name: "Reload".to_string(),
                    description: None,
                    fields: Vec::new(),
                    target: None,
                },
            ),
        ],
    }];
    let lines = render_service_list(&domains);
    assert_eq!(
        lines,
        vec![
            "".to_string(),
            "Domain: scene".to_string(),
            "  - 'turn_on' - Turn on: Activates a scene".to_string(),
            "  - 'reload' - Reload".to_string(),
        ]
    );
}

#[test]
fn scene_list_counts_and_keeps_only_scenes() {
    let states = vec![
        state(
            "scene.a",
            "on",
            vec![("friendly_name".to_string(), AttrValue::Text("A".to_string()))],
        ),
        state("light.b", "off", vec![]),
        state("scene.c", "off", vec![]),
    ];
    let lines = render_scene_list(states);
    assert_eq!(
        lines,
        vec![
            "2 scenes found:".to_string(),
            "Scene: \"A\" (\"scene.a\"). State: \"on\"".to_string(),
            " - Attributes:".to_string(),
            "   friendly_name: \"A\"".to_string(),
            "".to_string(),
            "Scene: \"scene.c\". State: \"off\"".to_string(),
            " - Attributes:".to_string(),
            "".to_string(),
        ]
    );
}

#[test]
fn scene_list_of_no_scenes_reports_zero() {
    let states = vec![state("light.b", "off", vec![])];
    let lines = render_scene_list(states);
    assert_eq!(lines, vec!["0 scenes found:".to_string()]);
}
