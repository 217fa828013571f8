//! Views.

use crate::diff::Keyed;
use crate::queries::{Class, Relkind};
use crate::sql::{quote_ident, quoted};
use vstd::prelude::*;
use vstd::std_specs::cmp::PartialEqSpecImpl;
use vstd::string::*;

verus! {

/// A view, plain or materialized.
#[derive(Clone, Debug)]
pub struct DbView {
    pub schema: String,
    pub name: String,
    pub kind: Relkind,
    pub materialized: bool,
    /// The body of the view.
    pub viewdef: String,
}

/// A relation of a kind that cannot be read as a view.
#[derive(Clone, Copy, Debug)]
pub struct InvalidRelkind(pub Relkind);

impl InvalidRelkind {
    /// The message of the error.
    pub fn to_string(&self) -> (r: String)
        ensures
            r@ == "Unsupported table for view: "@ + self.0.text(),
    {
        let mut r = String::from_str("Unsupported table for view: ");
        let kind = self.0.to_string();
        r.append(kind.as_str());
        r
    }
}

impl DbView {
    /// Whether two views are equal in every field.
    pub open spec fn same(&self, other: &DbView) -> bool {
        &&& self.schema@ == other.schema@
        &&& self.name@ == other.name@
        &&& self.kind == other.kind
        &&& self.materialized == other.materialized
        &&& self.viewdef@ == other.viewdef@
    }
}

impl PartialEq for DbView {
    fn eq(&self, other: &Self) -> (r: bool) {
        self.schema == other.schema && self.name == other.name && self.kind == other.kind
            && self.materialized == other.materialized && self.viewdef == other.viewdef
    }
}

impl PartialEqSpecImpl for DbView {
    open spec fn obeys_eq_spec() -> bool {
        true
    }

    open spec fn eq_spec(&self, other: &Self) -> bool {
        self.same(other)
    }
}

impl Keyed for DbView {
    type Key = Seq<char>;

    open spec fn key(&self) -> Seq<char> {
        self.name@
    }

    open spec fn index_text(k: Seq<char>) -> Seq<char> {
        k
    }

    fn index_key(&self) -> (r: String) {
        self.name.clone()
    }

    fn same_key(&self, other: &Self) -> (r: bool) {
        self.name == other.name
    }
}

impl DbView {
    /// The statement that creates the view or replaces it. A materialized
    /// view differs from a plain one in the keyword only.
    pub open spec fn create_text(&self) -> Seq<char> {
        "CREATE OR REPLACE "@ + (if self.materialized {
            "MATERIALIZED "@
        } else {
            Seq::empty()
        }) + "VIEW "@ + quoted(self.schema@) + "."@ + quoted(self.name@) + " AS\n"@ + self.viewdef@
    }

    /// Renders the statement that creates the view or replaces it.
    pub fn create(&self) -> (r: String)
        ensures
            r@ == self.create_text(),
    {
        let mut r = String::from_str("CREATE OR REPLACE ");
        if self.materialized {
            r.append("MATERIALIZED ");
        }
        r.append("VIEW ");
        let schema = quote_ident(self.schema.as_str());
        r.append(schema.as_str());
        r.append(".");
        let name = quote_ident(self.name.as_str());
        r.append(name.as_str());
        r.append(" AS\n");
        r.append(self.viewdef.as_str());
        assert(r@ =~= self.create_text());
        r
    }

    /// Reads a relation as a view. A relation that is neither a view nor a
    /// materialized view is refused.
    pub fn try_from(cls: Class) -> (r: Result<DbView, InvalidRelkind>)
        requires
            cls.complete(),
        ensures
            match r {
                Ok(v) => (cls.relkind is View || cls.relkind is MaterializedView) && v == (DbView {
                    schema: cls.schema,
                    name: cls.name,
                    kind: cls.relkind,
                    materialized: cls.relkind is MaterializedView,
                    viewdef: cls.viewdef->0,
                }),
                Err(e) => !(cls.relkind is View || cls.relkind is MaterializedView) && e.0
                    == cls.relkind,
            },
    {
        let materialized = match cls.relkind {
            Relkind::View => false,
            Relkind::MaterializedView => true,
            _ => {
                return Err(InvalidRelkind(cls.relkind));
            },
        };
        Ok(
            DbView {
                schema: cls.schema,
                name: cls.name,
                kind: cls.relkind,
                materialized,
                viewdef: cls.viewdef.unwrap(),
            },
        )
    }
}

} // verus!
