use std::collections::BTreeSet;

use linura::cli::{commands, commands_json, escaped, infer_route, json_string, parse_observe_args, require_arity};

#[test]
fn built_in_resource_routes_are_deterministic() {
    assert_eq!(
        infer_route("systemd:unit:sshd.service").unwrap_or_else(|error| panic!("{}", error)),
        ("systemd", "systemd.unit.observe")
    );
    assert_eq!(
        infer_route("networkmanager:manager").unwrap_or_else(|error| panic!("{}", error)),
        ("networkmanager", "networkmanager.manager.observe")
    );
}

#[test]
fn output_escaping_is_line_safe() {
    assert_eq!(escaped("a\nb\\c\t"), "a\\nb\\\\c\\t");
}

#[test]
fn command_catalog_is_unique_and_keeps_json_introspection() {
    let catalog = commands();
    let names: BTreeSet<_> = catalog.iter().map(|command| command.name).collect();
    assert_eq!(names.len(), catalog.len());
    assert!(names.contains("commands"));
    assert!(names.contains("observe"));

    let json = commands_json();
    assert!(json.starts_with('['));
    assert!(json.ends_with(']'));
    assert!(json.contains("\"name\":\"commands\""));
    assert!(json.contains("\"name\":\"observe\""));
    assert!(json.contains("\"offline\":true"));
    assert!(json.contains("\"offline\":false"));
}

#[test]
fn json_strings_escape_control_characters() {
    assert_eq!(json_string("a\n\"b\\c\t"), "\"a\\n\\\"b\\\\c\\t\"");
}

#[test]
fn json_strings_spell_other_controls_as_unicode_escapes() {
    assert_eq!(json_string("\u{1}\u{1f}\u{8}\u{c}\r"), "\"\\u0001\\u001f\\b\\f\\r\"");
    assert_eq!(json_string("é"), "\"é\"");
}

#[test]
fn unknown_resources_have_no_inferred_route() {
    assert_eq!(
        infer_route("weird"),
        Err("cannot infer an observation provider for \"weird\"; use `linuractl observe <provider> <capability> <resource>`"
            .to_string())
    );
    assert_eq!(
        infer_route("networkmanager:device:eth0"),
        Ok(("networkmanager", "networkmanager.device.observe"))
    );
    assert_eq!(escaped("\r"), "\\r");
}

#[test]
fn commands_json_starts_with_the_first_command() {
    assert!(commands_json().starts_with(
        "[{\"name\":\"version\",\"summary\":\"Show Linura and protocol version\",\"offline\":true},"
    ));
}

#[test]
fn observe_arguments_name_a_route() {
    let words = |list: &[&str]| list.iter().map(|w| w.to_string()).collect::<Vec<String>>();
    assert_eq!(
        parse_observe_args(&words(&["observe", "systemd:unit:sshd.service"])),
        Ok(("systemd".to_string(), "systemd.unit.observe".to_string(), "systemd:unit:sshd.service".to_string()))
    );
    assert_eq!(
        parse_observe_args(&words(&["observe", "p", "c", "r"])),
        Ok(("p".to_string(), "c".to_string(), "r".to_string()))
    );
    assert_eq!(
        parse_observe_args(&words(&["observe"])),
        Err("usage: linuractl observe <resource> OR linuractl observe <provider> <capability> <resource>".to_string())
    );
    assert!(parse_observe_args(&words(&["observe", "other:thing"])).is_err());
    assert_eq!(require_arity(&words(&["graph"]), 1, "graph"), Ok(()));
    assert_eq!(require_arity(&words(&["graph", "x"]), 1, "graph"), Err("usage: linuractl graph".to_string()));
}
