//! The rows that the catalog queries of a database return, and the
//! parameters of those queries.

use crate::models::column::Column;
use crate::models::constraint::ConstraintType;
use vstd::prelude::*;
use vstd::string::*;

verus! {

/// The query for the schemas of a database.
#[derive(Clone, Copy, Debug, Default)]
pub struct Schemas {}

/// A row of [`Schemas`].
#[derive(Clone, Debug)]
pub struct Schema {
    pub name: String,
}

/// The query for the relations of a schema.
#[derive(Clone, Debug)]
pub struct Classes {
    pub schema: String,
}

/// A row of [`Classes`]: a relation with its columns.
#[derive(Clone, Debug)]
pub struct Class {
    pub schema: String,
    pub name: String,
    pub relkind: Relkind,
    pub columns: Vec<Column>,
    /// The body of a view; none for relations that are no views.
    pub viewdef: Option<String>,
}

impl Class {
    /// Whether the relation, if it is a view, comes with the body of the view.
    pub open spec fn complete(&self) -> bool {
        self.relkind is View || self.relkind is MaterializedView ==> self.viewdef is Some
    }

    /// Tells whether the relation, if it is a view, comes with the body of
    /// the view.
    pub fn is_complete(&self) -> (r: bool)
        ensures
            r == self.complete(),
    {
        match self.relkind {
            Relkind::View | Relkind::MaterializedView => self.viewdef.is_some(),
            _ => true,
        }
    }
}

/// The query for the constraints of a schema.
#[derive(Clone, Debug)]
pub struct Constraints {
    pub schema: String,
}

/// A row of [`Constraints`].
#[derive(Clone, Debug)]
pub struct Constraint {
    pub table: String,
    pub name: String,
    pub ty: ConstraintType,
    pub def: String,
}

/// The kind of a relation.
#[derive(Clone, Copy, Debug, PartialEq, Eq, Structural, Hash)]
pub enum Relkind {
    OrdinaryTable,
    Index,
    Sequence,
    ToastTable,
    View,
    MaterializedView,
    CompositeType,
    ForeignTable,
    PartitionedTable,
    PartitionedIndex,
}

/// A relation kind code that is not supported, as it was read.
#[derive(Clone, Debug)]
pub struct UnsupportedRelkind(pub Vec<u8>);

impl Relkind {
    /// The character that stands for the kind in the catalog.
    pub open spec fn spec_code(self) -> char {
        match self {
            Relkind::OrdinaryTable => 'r',
            Relkind::Index => 'i',
            Relkind::Sequence => 'S',
            Relkind::ToastTable => 't',
            Relkind::View => 'v',
            Relkind::MaterializedView => 'm',
            Relkind::CompositeType => 'c',
            Relkind::ForeignTable => 'f',
            Relkind::PartitionedTable => 'p',
            Relkind::PartitionedIndex => 'I',
        }
    }

    /// The character that stands for the kind in the catalog.
    #[verifier::when_used_as_spec(spec_code)]
    pub fn code(self) -> (c: char)
        ensures
            c == self.spec_code(),
    {
        match self {
            Relkind::OrdinaryTable => 'r',
            Relkind::Index => 'i',
            Relkind::Sequence => 'S',
            Relkind::ToastTable => 't',
            Relkind::View => 'v',
            Relkind::MaterializedView => 'm',
            Relkind::CompositeType => 'c',
            Relkind::ForeignTable => 'f',
            Relkind::PartitionedTable => 'p',
            Relkind::PartitionedIndex => 'I',
        }
    }

    /// The kind that a catalog value stands for: the value is one byte, the
    /// code of a kind other than a foreign table.
    pub open spec fn decoded(raw: Seq<u8>) -> Option<Relkind> {
        if raw.len() != 1 {
            None
        } else if raw[0] == 'r' as u8 {
            Some(Relkind::OrdinaryTable)
        } else if raw[0] == 'i' as u8 {
            Some(Relkind::Index)
        } else if raw[0] == 'S' as u8 {
            Some(Relkind::Sequence)
        } else if raw[0] == 't' as u8 {
            Some(Relkind::ToastTable)
        } else if raw[0] == 'v' as u8 {
            Some(Relkind::View)
        } else if raw[0] == 'm' as u8 {
            Some(Relkind::MaterializedView)
        } else if raw[0] == 'c' as u8 {
            Some(Relkind::CompositeType)
        } else if raw[0] == 'p' as u8 {
            Some(Relkind::PartitionedTable)
        } else if raw[0] == 'I' as u8 {
            Some(Relkind::PartitionedIndex)
        } else {
            None
        }
    }

    /// Decodes a catalog value. A value that is not the code of a supported
    /// kind is handed back in the error.
    pub fn from_sql(raw: &[u8]) -> (r: Result<Relkind, UnsupportedRelkind>)
        ensures
            match r {
                Ok(k) => Self::decoded(raw@) == Some(k),
                Err(e) => Self::decoded(raw@) is None && e.0@ == raw@,
            },
    {
        if raw.len() == 1 {
            let b = raw[0];
            if b == 'r' as u8 {
                return Ok(Relkind::OrdinaryTable);
            } else if b == 'i' as u8 {
                return Ok(Relkind::Index);
            } else if b == 'S' as u8 {
                return Ok(Relkind::Sequence);
            } else if b == 't' as u8 {
                return Ok(Relkind::ToastTable);
            } else if b == 'v' as u8 {
                return Ok(Relkind::View);
            } else if b == 'm' as u8 {
                return Ok(Relkind::MaterializedView);
            } else if b == 'c' as u8 {
                return Ok(Relkind::CompositeType);
            } else if b == 'p' as u8 {
                return Ok(Relkind::PartitionedTable);
            } else if b == 'I' as u8 {
                return Ok(Relkind::PartitionedIndex);
            }
        }
        Err(UnsupportedRelkind(vstd::slice::slice_to_vec(raw)))
    }

    /// The kind as text: its code between double quotes.
    pub open spec fn text(self) -> Seq<char> {
        seq!['"', self.spec_code(), '"']
    }

    /// Renders the kind as text: its code between double quotes.
    pub fn to_string(&self) -> (r: String)
        ensures
            r@ == self.text(),
    {
        let s = match self {
            Relkind::OrdinaryTable => "\"r\"",
            Relkind::Index => "\"i\"",
            Relkind::Sequence => "\"S\"",
            Relkind::ToastTable => "\"t\"",
            Relkind::View => "\"v\"",
            Relkind::MaterializedView => "\"m\"",
            Relkind::CompositeType => "\"c\"",
            Relkind::ForeignTable => "\"f\"",
            Relkind::PartitionedTable => "\"p\"",
            Relkind::PartitionedIndex => "\"I\"",
        };
        proof {
            reveal_strlit("\"r\"");
            reveal_strlit("\"i\"");
            reveal_strlit("\"S\"");
            reveal_strlit("\"t\"");
            reveal_strlit("\"v\"");
            reveal_strlit("\"m\"");
            reveal_strlit("\"c\"");
            reveal_strlit("\"f\"");
            reveal_strlit("\"p\"");
            reveal_strlit("\"I\"");
            assert(s@ =~= self.text());
        }
        String::from_str(s)
    }
}

impl UnsupportedRelkind {
    /// The message of the error.
    pub fn to_string(&self) -> (r: String)
        ensures
            r@ == "Unsupported relkind value"@,
    {
        String::from_str("Unsupported relkind value")
    }
}

} // verus!
