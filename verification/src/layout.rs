//! The layout of a source tree and of the output: which directories a tree
//! has, which files in them are records, and where the artifact goes.

use vstd::prelude::*;
use vstd::string::*;
use crate::text::Text;

verus! {

/// The directory that holds one file per package.
pub const PACKAGES_DIRECTORY: &'static str = "packages";

/// The directory that holds one file per group. It may be absent: a tree
/// without it has no groups.
pub const GROUPS_DIRECTORY: &'static str = "groups";

/// The schema that package records are held against.
pub const PACKAGE_SCHEMA: &'static str = "schemas/package.schema.json";

/// The schema that group records are held against.
pub const GROUP_SCHEMA: &'static str = "schemas/group.schema.json";

/// The directory that the artifact is written to.
pub const OUTPUT_DIRECTORY: &'static str = "target";

/// The encoded database.
pub const DATABASE_FILE: &'static str = "target/packages.db";

/// The integrity stamp of the encoded database.
pub const CHECKSUM_FILE: &'static str = "target/packages.db.sha256";

/// The extension of a record file, with its dot.
pub open spec fn record_extension() -> Text {
    seq!['.', 'y', 'a', 'm', 'l']
}

/// Whether a file of this name is a record: the name ends in `.yaml` and has
/// something before it.
pub open spec fn is_record_name(file_name: Text) -> bool {
    &&& file_name.len() > record_extension().len()
    &&& file_name.skip(file_name.len() - record_extension().len()) == record_extension()
}

/// Decides whether a file of this name is a record to load.
pub fn is_record_file_name(file_name: &str) -> (record: bool)
    ensures
        record == is_record_name(file_name@),
{
    let n: usize = file_name.unicode_len();
    if n <= 5 {
        return false;
    }
    let ghost tail = file_name@.skip(n - 5);
    let record = file_name.get_char(n - 5) == '.' && file_name.get_char(n - 4) == 'y'
        && file_name.get_char(n - 3) == 'a' && file_name.get_char(n - 2) == 'm'
        && file_name.get_char(n - 1) == 'l';
    proof {
        assert(tail.len() == 5);
        assert(tail[0] == file_name@[n - 5]);
        assert(tail[1] == file_name@[n - 4]);
        assert(tail[2] == file_name@[n - 3]);
        assert(tail[3] == file_name@[n - 2]);
        assert(tail[4] == file_name@[n - 1]);
        if record {
            assert(tail =~= record_extension());
        }
    }
    record
}

/// The directories at the root of a source tree, in the order in which the
/// tree is documented.
pub open spec fn required_directory_names() -> Seq<Text> {
    seq![
        "packages"@,
        "groups"@,
        "profiles"@,
        "mappings"@,
        "dependencies"@,
        "suggestions"@,
        "templates"@,
        "schemas"@,
        "scripts"@,
    ]
}

/// Lists the directories at the root of a source tree.
pub fn required_directories() -> (names: Vec<&'static str>)
    ensures
        names.deep_view() == required_directory_names(),
{
    let mut names: Vec<&'static str> = Vec::new();
    names.push(PACKAGES_DIRECTORY);
    names.push(GROUPS_DIRECTORY);
    names.push("profiles");
    names.push("mappings");
    names.push("dependencies");
    names.push("suggestions");
    names.push("templates");
    names.push("schemas");
    names.push("scripts");
    assert(names.deep_view() =~= required_directory_names());
    names
}

} // verus!
