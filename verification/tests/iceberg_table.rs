use pipeflow::errors::ErrorCode;
use pipeflow::iceberg::{meta_file_path, meta_ptr_path, IcebergMeta, IcebergTable};

fn meta() -> IcebergMeta {
    IcebergMeta { format_version: 2, location: "s3://bucket/db0/t1".to_string() }
}

#[test]
fn metadata_paths() {
    assert_eq!(meta_ptr_path("db0", "t1"), "db0/t1/metadata/version_hint.text");
    assert_eq!(meta_file_path("db0", "t1", 3), "db0/t1/metadata/v3.metadata.json");
    assert_eq!(meta_file_path("db0", "t1", 120), "db0/t1/metadata/v120.metadata.json");
}

#[test]
fn table_from_parsed_parts() {
    let (table, version) =
        IcebergTable::try_create("tenant1", "db0", "t1", &b"1\n".to_vec(), meta()).unwrap();
    assert_eq!(version, 1);
    assert_eq!(table.name(), "t1");
    assert!(!table.is_local());
    let info = table.get_table_info();
    assert_eq!(info.desc, "IcebergTable: 'db0'.'t1'");
    assert_eq!(info.tenant, "tenant1");
    assert_eq!(info.name, "t1");
    assert_eq!(info.ident.table_id, 0);
    assert_eq!(info.ident.seq_number, 0);
}

#[test]
fn table_rejects_a_bad_version_hint() {
    let r = IcebergTable::try_create("tenant1", "db0", "t1", &b"not a number".to_vec(), meta());
    assert!(matches!(r, Err(ErrorCode::ReadTableData)));
}
