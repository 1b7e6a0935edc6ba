//! Messages of the local schema: recipes of changes, blobs and metadata.

use vstd::prelude::*;
use crate::text::str_equals;

verus! {

/// A recipe: the changes that lead from a base session to a session.
pub struct Recipe {
    pub session_id: String,
    pub base_session_id: String,
    pub changes: Vec<Change>,
}

/// One change of a recipe.
pub struct Change {
    /// The number of a `ChangeType`.
    pub change_type: i32,
    pub file_path: String,
    pub blob_id: Option<String>,
}

/// The kind of a change.
#[derive(Clone, Copy, Debug, PartialEq, Eq, Structural)]
pub enum ChangeType {
    Add,
    Modify,
    Delete,
}

/// The name of a change type in the schema.
pub open spec fn change_type_name(t: ChangeType) -> Seq<char> {
    match t {
        ChangeType::Add => seq!['A', 'D', 'D'],
        ChangeType::Modify => seq!['M', 'O', 'D', 'I', 'F', 'Y'],
        ChangeType::Delete => seq!['D', 'E', 'L', 'E', 'T', 'E'],
    }
}

/// The change type that a schema name stands for, if any.
pub open spec fn change_type_named(name: Seq<char>) -> Option<ChangeType> {
    if name == change_type_name(ChangeType::Add) {
        Some(ChangeType::Add)
    } else if name == change_type_name(ChangeType::Modify) {
        Some(ChangeType::Modify)
    } else if name == change_type_name(ChangeType::Delete) {
        Some(ChangeType::Delete)
    } else {
        None
    }
}

/// The number of a change type in the schema.
pub open spec fn change_type_number(t: ChangeType) -> i32 {
    match t {
        ChangeType::Add => 0,
        ChangeType::Modify => 1,
        ChangeType::Delete => 2,
    }
}

/// The change type that a schema number stands for, if any.
pub open spec fn change_type_numbered(n: i32) -> Option<ChangeType> {
    if n == 0 {
        Some(ChangeType::Add)
    } else if n == 1 {
        Some(ChangeType::Modify)
    } else if n == 2 {
        Some(ChangeType::Delete)
    } else {
        None
    }
}

impl ChangeType {
    /// The number of the change type in the schema, as held in
    /// `Change::change_type`.
    pub fn number(&self) -> (r: i32)
        ensures
            r == change_type_number(*self),
    {
        match self {
            ChangeType::Add => 0,
            ChangeType::Modify => 1,
            ChangeType::Delete => 2,
        }
    }

    /// The change type with a schema number, or `None` for a number that
    /// names none.
    pub fn from_number(n: i32) -> (r: Option<Self>)
        ensures
            r == change_type_numbered(n),
    {
        if n == 0 {
            Some(ChangeType::Add)
        } else if n == 1 {
            Some(ChangeType::Modify)
        } else if n == 2 {
            Some(ChangeType::Delete)
        } else {
            None
        }
    }

    /// String value of the enum field names used in the schema.
    pub fn as_str_name(&self) -> (r: &'static str)
        ensures
            r@ == change_type_name(*self),
    {
        match self {
            ChangeType::Add => {
                proof { reveal_strlit("ADD"); }
                "ADD"
            },
            ChangeType::Modify => {
                proof { reveal_strlit("MODIFY"); }
                "MODIFY"
            },
            ChangeType::Delete => {
                proof { reveal_strlit("DELETE"); }
                "DELETE"
            },
        }
    }

    /// Creates an enum from field names used in the schema.
    pub fn from_str_name(value: &str) -> (r: Option<Self>)
        ensures
            r == change_type_named(value@),
    {
        proof {
            reveal_strlit("ADD");
            reveal_strlit("MODIFY");
            reveal_strlit("DELETE");
            assert("ADD"@ =~= change_type_name(ChangeType::Add));
            assert("MODIFY"@ =~= change_type_name(ChangeType::Modify));
            assert("DELETE"@ =~= change_type_name(ChangeType::Delete));
        }
        if str_equals(value, "ADD") {
            Some(ChangeType::Add)
        } else if str_equals(value, "MODIFY") {
            Some(ChangeType::Modify)
        } else if str_equals(value, "DELETE") {
            Some(ChangeType::Delete)
        } else {
            None
        }
    }
}

/// A stored blob of file content.
pub struct Blob {
    pub blob_id: String,
    pub file_path: String,
    pub size: u64,
    pub checksum: String,
}

/// A list of blobs.
pub struct BlobList {
    pub blobs: Vec<Blob>,
}

/// Metadata of a project.
pub struct Metadata {
    pub id: String,
    pub name: String,
}

/// Reading back the name of a change type gives that change type.
pub proof fn law_change_type_name_round_trip(t: ChangeType)
    ensures
        change_type_named(change_type_name(t)) == Some(t),
{
}

/// A name that reads as a change type is that change type's name.
pub proof fn law_change_type_named_is_name(name: Seq<char>)
    ensures
        change_type_named(name) matches Some(t) ==> change_type_name(t) == name,
{
}

/// Reading back the number of a change type gives that change type, and a
/// number that reads as a change type is that change type's number.
pub proof fn law_change_type_number_round_trip(t: ChangeType, n: i32)
    ensures
        change_type_numbered(change_type_number(t)) == Some(t),
        change_type_numbered(n) matches Some(u) ==> change_type_number(u) == n,
{
}

} // verus!
