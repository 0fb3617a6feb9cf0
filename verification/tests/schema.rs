use sysmon_extract::registry::{schema_for, schema_of_kind};
use sysmon_extract::error::ExtractError;
use sysmon_extract::schema::{EventKind, FieldSpec, Schema};

fn names(schema: &Schema) -> Vec<String> {
    schema.fields().iter().map(|f| f.name.clone()).collect()
}

fn alias(schema: &Schema, key: &str) -> Option<String> {
    schema.alias_for(key).cloned()
}

#[test]
fn codes_map_to_kinds() {
    assert_eq!(EventKind::from_code(1), Some(EventKind::ProcessCreate));
    assert_eq!(EventKind::from_code(3), Some(EventKind::NetworkConnection));
    assert_eq!(EventKind::from_code(7), Some(EventKind::ImageLoaded));
    assert_eq!(EventKind::from_code(13), Some(EventKind::RegistryValueSet));
    assert_eq!(EventKind::from_code(23), Some(EventKind::FileDeleteArchived));
    assert_eq!(EventKind::from_code(0), None);
    assert_eq!(EventKind::from_code(2), None);
    assert_eq!(EventKind::from_code(u32::MAX), None);
}

#[test]
fn kinds_map_back_to_their_codes() {
    for code in [1u32, 3, 7, 13, 23] {
        let kind = EventKind::from_code(code).unwrap();
        assert_eq!(kind.code(), code);
    }
}

#[test]
fn unknown_event_code_is_refused() {
    for code in [0u32, 2, 4, 5, 11, 12, 22, 24, 255, u32::MAX] {
        match schema_for(code) {
            Err(e) => assert_eq!(e, ExtractError::UnknownEventKind),
            Ok(_) => panic!("code {} should not be registered", code),
        }
    }
}

#[test]
fn registered_codes_give_their_schema() {
    for code in [1u32, 3, 7, 13, 23] {
        let schema = schema_for(code).unwrap();
        assert_eq!(schema.kind().code(), code);
    }
}

#[test]
fn process_create_columns_in_order() {
    let schema = schema_for(1).unwrap();
    assert_eq!(
        names(&schema),
        vec![
            "agent_name",
            "agent_id",
            "event_action",
            "utc_time",
            "process_guid",
            "process_id",
            "image",
            "file_version",
            "description",
            "product",
            "company",
            "original_file_name",
            "command_line",
            "current_directory",
            "user",
            "logon_guid",
            "logon_id",
            "terminal_session_id",
            "integrity_level",
            "hashes",
            "parent_process_guid",
            "parent_process_id",
            "parent_image",
            "parent_command_line",
            "parent_user",
        ]
    );
    assert_eq!(schema.width(), 25);
    assert_eq!(schema.default_action_label(), "Process Create");
}

#[test]
fn network_connection_columns_in_order() {
    let schema = schema_for(3).unwrap();
    assert_eq!(
        names(&schema),
        vec![
            "agent_name",
            "agent_id",
            "event_action",
            "utc_time",
            "process_guid",
            "process_id",
            "image",
            "user",
            "protocol",
            "initiated",
            "source_is_ipv6",
            "source_ip",
            "source_hostname",
            "source_port",
            "source_port_name",
            "destination_is_ipv6",
            "destination_ip",
            "destination_hostname",
            "destination_port",
            "destination_port_name",
        ]
    );
    assert_eq!(schema.default_action_label(), "Network connection detected");
}

#[test]
fn image_loaded_columns_in_order() {
    let schema = schema_for(7).unwrap();
    assert_eq!(
        names(&schema),
        vec![
            "agent_name",
            "agent_id",
            "event_action",
            "utc_time",
            "process_guid",
            "process_id",
            "image",
            "image_loaded",
            "file_version",
            "description",
            "product",
            "company",
            "original_file_name",
            "hashes",
            "signed",
            "signature",
            "signature_status",
            "user",
        ]
    );
    assert_eq!(schema.default_action_label(), "Image loaded");
}

#[test]
fn registry_value_set_columns_in_order() {
    let schema = schema_for(13).unwrap();
    assert_eq!(
        names(&schema),
        vec![
            "agent_name",
            "agent_id",
            "event_action",
            "utc_time",
            "event_type",
            "process_guid",
            "process_id",
            "image",
            "target_object",
            "details",
            "user",
        ]
    );
    assert_eq!(schema.default_action_label(), "Registry value set");
}

#[test]
fn file_delete_archived_columns_in_order() {
    let schema = schema_for(23).unwrap();
    assert_eq!(
        names(&schema),
        vec![
            "agent_name",
            "agent_id",
            "event_action",
            "utc_time",
            "process_guid",
            "process_id",
            "user",
            "image",
            "target_filename",
            "hashes",
            "is_executable",
            "archived",
        ]
    );
    assert_eq!(schema.default_action_label(), "File Delete archived,");
}

#[test]
fn leading_columns_are_fed_by_no_key() {
    for code in [1u32, 3, 7, 13, 23] {
        let schema = schema_for(code).unwrap();
        let fields = schema.fields();
        assert!(fields[0].aliases.is_empty() && fields[0].default.is_none());
        assert!(fields[1].aliases.is_empty() && fields[1].default.is_none());
        assert!(fields[2].aliases.is_empty());
        assert_eq!(fields[2].default.as_ref(), Some(schema.default_action_label()));
    }
}

#[test]
fn aliases_of_process_create() {
    let schema = schema_of_kind(EventKind::ProcessCreate);
    assert_eq!(alias(&schema, "UtcTime"), Some("utc_time".to_string()));
    assert_eq!(alias(&schema, "ProcessGuid"), Some("process_guid".to_string()));
    assert_eq!(alias(&schema, "OriginalFileName"), Some("original_file_name".to_string()));
    assert_eq!(alias(&schema, "TerminalSessionId"), Some("terminal_session_id".to_string()));
    assert_eq!(alias(&schema, "ParentUser"), Some("parent_user".to_string()));
    assert_eq!(alias(&schema, "User"), Some("user".to_string()));
    assert_eq!(schema.alias_index("UtcTime"), Some(3));
    assert_eq!(schema.alias_index("ParentUser"), Some(24));
}

#[test]
fn alias_lookup_trims_the_key() {
    let schema = schema_of_kind(EventKind::ProcessCreate);
    assert_eq!(alias(&schema, "  UtcTime\t"), Some("utc_time".to_string()));
    assert_eq!(alias(&schema, "\u{3000}Image\r"), Some("image".to_string()));
}

#[test]
fn alias_lookup_is_exact_and_case_sensitive() {
    let schema = schema_of_kind(EventKind::ProcessCreate);
    assert_eq!(alias(&schema, "utctime"), None);
    assert_eq!(alias(&schema, "UTCTIME"), None);
    assert_eq!(alias(&schema, "UtcTim"), None);
    assert_eq!(alias(&schema, "UtcTimes"), None);
    assert_eq!(alias(&schema, "Utc Time"), None);
    assert_eq!(alias(&schema, "utc_time"), None);
    assert_eq!(alias(&schema, "agent_name"), None);
    assert_eq!(alias(&schema, "event_action"), None);
    assert_eq!(alias(&schema, ""), None);
    assert_eq!(alias(&schema, "TotallyUnknownKey"), None);
    assert_eq!(schema.alias_index("TotallyUnknownKey"), None);
}

#[test]
fn aliases_differ_between_kinds() {
    let image_loaded = schema_of_kind(EventKind::ImageLoaded);
    let process_create = schema_of_kind(EventKind::ProcessCreate);
    assert_eq!(alias(&image_loaded, "ImageLoaded"), Some("image_loaded".to_string()));
    assert_eq!(alias(&process_create, "ImageLoaded"), None);
    assert_eq!(alias(&image_loaded, "CommandLine"), None);
    assert_eq!(alias(&process_create, "CommandLine"), Some("command_line".to_string()));
}

#[test]
fn network_connection_feeds_user_into_image() {
    let schema = schema_of_kind(EventKind::NetworkConnection);
    assert_eq!(alias(&schema, "Image"), Some("image".to_string()));
    assert_eq!(alias(&schema, "User"), Some("image".to_string()));
    assert_eq!(schema.alias_index("User"), Some(6));
    let user = &schema.fields()[7];
    assert_eq!(user.name, "user");
    assert!(user.aliases.is_empty());
}

#[test]
fn other_kinds_feed_user_into_user() {
    for kind in [
        EventKind::ProcessCreate,
        EventKind::ImageLoaded,
        EventKind::RegistryValueSet,
        EventKind::FileDeleteArchived,
    ] {
        let schema = schema_of_kind(kind);
        assert_eq!(alias(&schema, "User"), Some("user".to_string()));
    }
}

#[test]
fn a_schema_of_ones_own_starts_with_the_leading_columns() {
    let schema = Schema::new(
        EventKind::NetworkConnection,
        "Network connection detected".to_string(),
        vec![
            FieldSpec::column("image", "Image"),
            FieldSpec::column("user", "User"),
            FieldSpec::column2("port", "SourcePort", "DestinationPort"),
            FieldSpec::bare("note"),
        ],
    );
    assert_eq!(
        names(&schema),
        vec!["agent_name", "agent_id", "event_action", "image", "user", "port", "note"]
    );
    assert_eq!(schema.kind(), EventKind::NetworkConnection);
    assert_eq!(schema.width(), 7);
    assert_eq!(schema.default_action_label(), "Network connection detected");
    assert_eq!(alias(&schema, "User"), Some("user".to_string()));
    assert_eq!(alias(&schema, "SourcePort"), Some("port".to_string()));
    assert_eq!(alias(&schema, "DestinationPort"), Some("port".to_string()));
    assert_eq!(alias(&schema, "note"), None);
}

#[test]
fn of_two_columns_with_one_alias_the_first_is_fed() {
    let schema = Schema::new(
        EventKind::ProcessCreate,
        "Process Create".to_string(),
        vec![FieldSpec::column("first", "Key"), FieldSpec::column("second", "Key")],
    );
    assert_eq!(alias(&schema, "Key"), Some("first".to_string()));
    assert_eq!(schema.alias_index("Key"), Some(3));
}

#[test]
fn field_spec_builders() {
    let c = FieldSpec::column("utc_time", "UtcTime");
    assert_eq!(c.name, "utc_time");
    assert_eq!(c.aliases, vec!["UtcTime".to_string()]);
    assert_eq!(c.default, None);
    let d = FieldSpec::column2("image", "Image", "User");
    assert_eq!(d.aliases, vec!["Image".to_string(), "User".to_string()]);
    let b = FieldSpec::bare("user");
    assert_eq!(b.name, "user");
    assert!(b.aliases.is_empty());
    assert_eq!(b.default, None);
}
