//! An immutable externally-catalogued table: the pure half of opening one.
//! Reading the catalog's files and decoding the metadata document are the
//! caller's business; this module states where those files live for a given
//! database and table, reads the version number out of the hint file's
//! bytes, and assembles the table description from the parsed parts.

use crate::decimal::{parse_version_hint, push_u64_dec, trimmed, u64_dec};
use crate::errors::ErrorCode;
use vstd::prelude::*;

verus! {

/// The path of the version-hint file of a table, relative to the catalog
/// root.
pub open spec fn meta_ptr_path_spec(db: Seq<char>, tbl: Seq<char>) -> Seq<char> {
    db + "/"@ + tbl + "/metadata/version_hint.text"@
}

/// The path of the metadata document of version `v`, relative to the
/// catalog root.
pub open spec fn meta_file_path_spec(db: Seq<char>, tbl: Seq<char>, v: u64) -> Seq<char> {
    db + "/"@ + tbl + "/metadata/v"@ + u64_dec(v as nat) + ".metadata.json"@
}

/// The description line of a table.
pub open spec fn table_desc_spec(db: Seq<char>, tbl: Seq<char>) -> Seq<char> {
    "IcebergTable: '"@ + db + "'.'"@ + tbl + "'"@
}

/// Builds the version-hint file path for a table.
pub fn meta_ptr_path(database: &str, table_name: &str) -> (r: String)
    ensures
        r@ == meta_ptr_path_spec(database@, table_name@),
{
    let mut s = String::new();
    s.append(database);
    s.append("/");
    s.append(table_name);
    s.append("/metadata/version_hint.text");
    proof {
        assert(s@ =~= meta_ptr_path_spec(database@, table_name@));
    }
    s
}

/// Builds the metadata-document path for a table at version `version`.
pub fn meta_file_path(database: &str, table_name: &str, version: u64) -> (r: String)
    ensures
        r@ == meta_file_path_spec(database@, table_name@, version),
{
    let mut s = String::new();
    s.append(database);
    s.append("/");
    s.append(table_name);
    s.append("/metadata/v");
    push_u64_dec(&mut s, version);
    s.append(".metadata.json");
    proof {
        assert(s@ =~= meta_file_path_spec(database@, table_name@, version));
    }
    s
}

/// What the runtime keeps of a parsed metadata document.
pub struct IcebergMeta {
    pub format_version: u64,
    pub location: String,
}

/// The identity of a table version in the catalog.
pub struct TableIdent {
    pub table_id: u64,
    pub seq_number: u64,
}

impl TableIdent {
    /// A table identity.
    pub fn new(table_id: u64, seq_number: u64) -> (r: TableIdent)
        ensures
            r.table_id == table_id,
            r.seq_number == seq_number,
    {
        TableIdent { table_id, seq_number }
    }
}

/// The assembled description of a table.
pub struct TableInfo {
    pub ident: TableIdent,
    pub desc: String,
    pub name: String,
    pub tenant: String,
}

/// An immutable externally-catalogued table.
pub struct IcebergTable {
    database: String,
    name: String,
    manifests: IcebergMeta,
    info: TableInfo,
}

impl IcebergTable {
    /// The database the table belongs to.
    pub closed spec fn spec_database(&self) -> Seq<char> {
        self.database@
    }

    /// The parsed metadata document the table was opened from.
    pub closed spec fn spec_manifests(&self) -> IcebergMeta {
        self.manifests
    }

    /// The assembled table description.
    pub closed spec fn spec_info(&self) -> TableInfo {
        self.info
    }

    /// Assembles a table from its parsed parts: the hint file's bytes give
    /// the metadata version (reported to the caller so it can fetch the
    /// right document), the decoded document gives the manifests. The
    /// version read fails exactly when the hint bytes are not one decimal
    /// number with optional surrounding whitespace.
    pub fn try_create(
        tenant: &str,
        database: &str,
        table_name: &str,
        version_hint: &Vec<u8>,
        metadata: IcebergMeta,
    ) -> (r: Result<(IcebergTable, u64), ErrorCode>)
        ensures
            r is Ok <==> {
                let t = trimmed(version_hint@);
                &&& t.len() > 0
                &&& crate::decimal::all_digits(t)
                &&& crate::decimal::dec_val(t) <= u64::MAX
            },
            r is Err ==> r == Err::<(IcebergTable, u64), ErrorCode>(ErrorCode::ReadTableData),
            r is Ok ==> {
                let (table, version) = r->Ok_0;
                &&& version == crate::decimal::dec_val(trimmed(version_hint@))
                &&& table.spec_database() == database@
                &&& table.spec_manifests() == metadata
                &&& table.spec_info().name@ == table_name@
                &&& table.spec_info().tenant@ == tenant@
                &&& table.spec_info().desc@ == table_desc_spec(database@, table_name@)
                &&& table.spec_info().ident.table_id == 0
                &&& table.spec_info().ident.seq_number == 0
            },
    {
        let version = match parse_version_hint(version_hint) {
            Ok(v) => v,
            Err(e) => {
                return Err(e);
            },
        };
        let mut desc = String::new();
        desc.append("IcebergTable: '");
        desc.append(database);
        desc.append("'.'");
        desc.append(table_name);
        desc.append("'");
        proof {
            assert(desc@ =~= table_desc_spec(database@, table_name@));
        }
        let info = TableInfo {
            ident: TableIdent::new(0, 0),
            desc,
            name: table_name.to_owned(),
            tenant: tenant.to_owned(),
        };
        let table = IcebergTable {
            database: database.to_owned(),
            name: table_name.to_owned(),
            manifests: metadata,
            info,
        };
        Ok((table, version))
    }

    /// The table's data does not live on this node.
    pub fn is_local(&self) -> (r: bool)
        ensures
            r == false,
    {
        false
    }

    /// The assembled table description.
    pub fn get_table_info(&self) -> (r: &TableInfo)
        ensures
            *r == self.spec_info(),
    {
        &self.info
    }

    /// The table's name.
    pub fn name(&self) -> (r: &String)
        ensures
            r@ == self.spec_info().name@,
    {
        &self.get_table_info().name
    }
}

} // verus!
