//! The registered schemas, one per event kind.
//!
//! The network-connection table feeds the raw key `User` into the `image`
//! column and leaves the `user` column unfed. That is how the table has always
//! been deployed; a deployment that wants `User` in `user` builds its own
//! schema with `Schema::new`.

use vstd::prelude::*;
use crate::error::ExtractError;
use crate::schema::{
    bare_column, column, column2, fields_view, kind_of_code, schema_of, EventKind, FieldSpec,
    FieldSpecView, Schema, SchemaView,
};

verus! {

/// The label that every record of `kind` carries as its `event_action`.
pub open spec fn label_of(kind: EventKind) -> Seq<char> {
    match kind {
        EventKind::ProcessCreate => "Process Create"@,
        EventKind::NetworkConnection => "Network connection detected"@,
        EventKind::ImageLoaded => "Image loaded"@,
        EventKind::RegistryValueSet => "Registry value set"@,
        EventKind::FileDeleteArchived => "File Delete archived,"@,
    }
}

/// The message columns of a process creation record.
pub open spec fn process_create_columns() -> Seq<FieldSpecView> {
    Seq::empty()
        .push(column("utc_time"@, "UtcTime"@))
        .push(column("process_guid"@, "ProcessGuid"@))
        .push(column("process_id"@, "ProcessId"@))
        .push(column("image"@, "Image"@))
        .push(column("file_version"@, "FileVersion"@))
        .push(column("description"@, "Description"@))
        .push(column("product"@, "Product"@))
        .push(column("company"@, "Company"@))
        .push(column("original_file_name"@, "OriginalFileName"@))
        .push(column("command_line"@, "CommandLine"@))
        .push(column("current_directory"@, "CurrentDirectory"@))
        .push(column("user"@, "User"@))
        .push(column("logon_guid"@, "LogonGuid"@))
        .push(column("logon_id"@, "LogonId"@))
        .push(column("terminal_session_id"@, "TerminalSessionId"@))
        .push(column("integrity_level"@, "IntegrityLevel"@))
        .push(column("hashes"@, "Hashes"@))
        .push(column("parent_process_guid"@, "ParentProcessGuid"@))
        .push(column("parent_process_id"@, "ParentProcessId"@))
        .push(column("parent_image"@, "ParentImage"@))
        .push(column("parent_command_line"@, "ParentCommandLine"@))
        .push(column("parent_user"@, "ParentUser"@))
}

/// The message columns of a network connection record.
pub open spec fn network_connection_columns() -> Seq<FieldSpecView> {
    Seq::empty()
        .push(column("utc_time"@, "UtcTime"@))
        .push(column("process_guid"@, "ProcessGuid"@))
        .push(column("process_id"@, "ProcessId"@))
        .push(column2("image"@, "Image"@, "User"@))
        .push(bare_column("user"@))
        .push(column("protocol"@, "Protocol"@))
        .push(column("initiated"@, "Initiated"@))
        .push(column("source_is_ipv6"@, "SourceIsIpv6"@))
        .push(column("source_ip"@, "SourceIp"@))
        .push(column("source_hostname"@, "SourceHostname"@))
        .push(column("source_port"@, "SourcePort"@))
        .push(column("source_port_name"@, "SourcePortName"@))
        .push(column("destination_is_ipv6"@, "DestinationIsIpv6"@))
        .push(column("destination_ip"@, "DestinationIp"@))
        .push(column("destination_hostname"@, "DestinationHostname"@))
        .push(column("destination_port"@, "DestinationPort"@))
        .push(column("destination_port_name"@, "DestinationPortName"@))
}

/// The message columns of a image load record.
pub open spec fn image_loaded_columns() -> Seq<FieldSpecView> {
    Seq::empty()
        .push(column("utc_time"@, "UtcTime"@))
        .push(column("process_guid"@, "ProcessGuid"@))
        .push(column("process_id"@, "ProcessId"@))
        .push(column("image"@, "Image"@))
        .push(column("image_loaded"@, "ImageLoaded"@))
        .push(column("file_version"@, "FileVersion"@))
        .push(column("description"@, "Description"@))
        .push(column("product"@, "Product"@))
        .push(column("company"@, "Company"@))
        .push(column("original_file_name"@, "OriginalFileName"@))
        .push(column("hashes"@, "Hashes"@))
        .push(column("signed"@, "Signed"@))
        .push(column("signature"@, "Signature"@))
        .push(column("signature_status"@, "SignatureStatus"@))
        .push(column("user"@, "User"@))
}

/// The message columns of a registry value set record.
pub open spec fn registry_value_set_columns() -> Seq<FieldSpecView> {
    Seq::empty()
        .push(column("utc_time"@, "UtcTime"@))
        .push(column("event_type"@, "EventType"@))
        .push(column("process_guid"@, "ProcessGuid"@))
        .push(column("process_id"@, "ProcessId"@))
        .push(column("image"@, "Image"@))
        .push(column("target_object"@, "TargetObject"@))
        .push(column("details"@, "Details"@))
        .push(column("user"@, "User"@))
}

/// The message columns of a archived file deletion record.
pub open spec fn file_delete_archived_columns() -> Seq<FieldSpecView> {
    Seq::empty()
        .push(column("utc_time"@, "UtcTime"@))
        .push(column("process_guid"@, "ProcessGuid"@))
        .push(column("process_id"@, "ProcessId"@))
        .push(column("user"@, "User"@))
        .push(column("image"@, "Image"@))
        .push(column("target_filename"@, "TargetFilename"@))
        .push(column("hashes"@, "Hashes"@))
        .push(column("is_executable"@, "IsExecutable"@))
        .push(column("archived"@, "Archived"@))
}

/// The message columns registered for `kind`.
pub open spec fn columns_of(kind: EventKind) -> Seq<FieldSpecView> {
    match kind {
        EventKind::ProcessCreate => process_create_columns(),
        EventKind::NetworkConnection => network_connection_columns(),
        EventKind::ImageLoaded => image_loaded_columns(),
        EventKind::RegistryValueSet => registry_value_set_columns(),
        EventKind::FileDeleteArchived => file_delete_archived_columns(),
    }
}

/// The schema registered for `kind`.
pub open spec fn registered_schema(kind: EventKind) -> SchemaView {
    schema_of(kind, label_of(kind), columns_of(kind))
}

fn build_process_create_columns() -> (v: Vec<FieldSpec>)
    ensures
        fields_view(v@) == process_create_columns(),
{
    let mut v: Vec<FieldSpec> = Vec::new();
    v.push(FieldSpec::column("utc_time", "UtcTime"));
    v.push(FieldSpec::column("process_guid", "ProcessGuid"));
    v.push(FieldSpec::column("process_id", "ProcessId"));
    v.push(FieldSpec::column("image", "Image"));
    v.push(FieldSpec::column("file_version", "FileVersion"));
    v.push(FieldSpec::column("description", "Description"));
    v.push(FieldSpec::column("product", "Product"));
    v.push(FieldSpec::column("company", "Company"));
    v.push(FieldSpec::column("original_file_name", "OriginalFileName"));
    v.push(FieldSpec::column("command_line", "CommandLine"));
    v.push(FieldSpec::column("current_directory", "CurrentDirectory"));
    v.push(FieldSpec::column("user", "User"));
    v.push(FieldSpec::column("logon_guid", "LogonGuid"));
    v.push(FieldSpec::column("logon_id", "LogonId"));
    v.push(FieldSpec::column("terminal_session_id", "TerminalSessionId"));
    v.push(FieldSpec::column("integrity_level", "IntegrityLevel"));
    v.push(FieldSpec::column("hashes", "Hashes"));
    v.push(FieldSpec::column("parent_process_guid", "ParentProcessGuid"));
    v.push(FieldSpec::column("parent_process_id", "ParentProcessId"));
    v.push(FieldSpec::column("parent_image", "ParentImage"));
    v.push(FieldSpec::column("parent_command_line", "ParentCommandLine"));
    v.push(FieldSpec::column("parent_user", "ParentUser"));
    v
}

fn build_network_connection_columns() -> (v: Vec<FieldSpec>)
    ensures
        fields_view(v@) == network_connection_columns(),
{
    let mut v: Vec<FieldSpec> = Vec::new();
    v.push(FieldSpec::column("utc_time", "UtcTime"));
    v.push(FieldSpec::column("process_guid", "ProcessGuid"));
    v.push(FieldSpec::column("process_id", "ProcessId"));
    v.push(FieldSpec::column2("image", "Image", "User"));
    v.push(FieldSpec::bare("user"));
    v.push(FieldSpec::column("protocol", "Protocol"));
    v.push(FieldSpec::column("initiated", "Initiated"));
    v.push(FieldSpec::column("source_is_ipv6", "SourceIsIpv6"));
    v.push(FieldSpec::column("source_ip", "SourceIp"));
    v.push(FieldSpec::column("source_hostname", "SourceHostname"));
    v.push(FieldSpec::column("source_port", "SourcePort"));
    v.push(FieldSpec::column("source_port_name", "SourcePortName"));
    v.push(FieldSpec::column("destination_is_ipv6", "DestinationIsIpv6"));
    v.push(FieldSpec::column("destination_ip", "DestinationIp"));
    v.push(FieldSpec::column("destination_hostname", "DestinationHostname"));
    v.push(FieldSpec::column("destination_port", "DestinationPort"));
    v.push(FieldSpec::column("destination_port_name", "DestinationPortName"));
    v
}

fn build_image_loaded_columns() -> (v: Vec<FieldSpec>)
    ensures
        fields_view(v@) == image_loaded_columns(),
{
    let mut v: Vec<FieldSpec> = Vec::new();
    v.push(FieldSpec::column("utc_time", "UtcTime"));
    v.push(FieldSpec::column("process_guid", "ProcessGuid"));
    v.push(FieldSpec::column("process_id", "ProcessId"));
    v.push(FieldSpec::column("image", "Image"));
    v.push(FieldSpec::column("image_loaded", "ImageLoaded"));
    v.push(FieldSpec::column("file_version", "FileVersion"));
    v.push(FieldSpec::column("description", "Description"));
    v.push(FieldSpec::column("product", "Product"));
    v.push(FieldSpec::column("company", "Company"));
    v.push(FieldSpec::column("original_file_name", "OriginalFileName"));
    v.push(FieldSpec::column("hashes", "Hashes"));
    v.push(FieldSpec::column("signed", "Signed"));
    v.push(FieldSpec::column("signature", "Signature"));
    v.push(FieldSpec::column("signature_status", "SignatureStatus"));
    v.push(FieldSpec::column("user", "User"));
    v
}

fn build_registry_value_set_columns() -> (v: Vec<FieldSpec>)
    ensures
        fields_view(v@) == registry_value_set_columns(),
{
    let mut v: Vec<FieldSpec> = Vec::new();
    v.push(FieldSpec::column("utc_time", "UtcTime"));
    v.push(FieldSpec::column("event_type", "EventType"));
    v.push(FieldSpec::column("process_guid", "ProcessGuid"));
    v.push(FieldSpec::column("process_id", "ProcessId"));
    v.push(FieldSpec::column("image", "Image"));
    v.push(FieldSpec::column("target_object", "TargetObject"));
    v.push(FieldSpec::column("details", "Details"));
    v.push(FieldSpec::column("user", "User"));
    v
}

fn build_file_delete_archived_columns() -> (v: Vec<FieldSpec>)
    ensures
        fields_view(v@) == file_delete_archived_columns(),
{
    let mut v: Vec<FieldSpec> = Vec::new();
    v.push(FieldSpec::column("utc_time", "UtcTime"));
    v.push(FieldSpec::column("process_guid", "ProcessGuid"));
    v.push(FieldSpec::column("process_id", "ProcessId"));
    v.push(FieldSpec::column("user", "User"));
    v.push(FieldSpec::column("image", "Image"));
    v.push(FieldSpec::column("target_filename", "TargetFilename"));
    v.push(FieldSpec::column("hashes", "Hashes"));
    v.push(FieldSpec::column("is_executable", "IsExecutable"));
    v.push(FieldSpec::column("archived", "Archived"));
    v
}

/// The schema of an event kind.
pub fn schema_of_kind(kind: EventKind) -> (r: Schema)
    ensures
        r@ == registered_schema(kind),
        r@.well_formed(),
{
    match kind {
        EventKind::ProcessCreate => Schema::new(kind, "Process Create".to_owned(), build_process_create_columns()),
        EventKind::NetworkConnection => Schema::new(kind, "Network connection detected".to_owned(), build_network_connection_columns()),
        EventKind::ImageLoaded => Schema::new(kind, "Image loaded".to_owned(), build_image_loaded_columns()),
        EventKind::RegistryValueSet => Schema::new(kind, "Registry value set".to_owned(), build_registry_value_set_columns()),
        EventKind::FileDeleteArchived => Schema::new(kind, "File Delete archived,".to_owned(), build_file_delete_archived_columns()),
    }
}

/// The schema registered under a Sysmon event code.
///
/// Codes 1, 3, 7, 13 and 23 are registered; any other code is refused with
/// `UnknownEventKind`.
pub fn schema_for(code: u32) -> (r: Result<Schema, ExtractError>)
    ensures
        match r {
            Ok(schema) => match kind_of_code(code) {
                Some(kind) => schema@ == registered_schema(kind) && schema@.well_formed(),
                None => false,
            },
            Err(e) => kind_of_code(code) is None && e == ExtractError::UnknownEventKind,
        },
{
    match EventKind::from_code(code) {
        Some(kind) => Ok(schema_of_kind(kind)),
        None => Err(ExtractError::UnknownEventKind),
    }
}

} // verus!
