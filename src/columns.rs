use vstd::prelude::*;

verus! {

/// One column of a table, as the database catalog reports it.
#[derive(Debug, PartialEq, Eq)]
pub struct ColumnDef {
    pub name: String,
    pub ty: String,
    pub null: bool,
}

/// One field of the data model, with the type and nullability it declares.
#[derive(Debug, PartialEq, Eq)]
pub struct Column {
    pub name: String,
    pub rust_type: String,
    pub nullable: bool,
}

/// A column present on both sides whose type or nullability disagree.
///
/// `type_changed` records only the type disagreement: a column that differs
/// in nullability alone still yields a `Diff`, with `type_changed` false.
#[derive(Clone, Debug, PartialEq, Eq)]
pub struct Diff {
    pub column: String,
    pub db_type: String,
    pub db_nullable: bool,
    pub model_type: String,
    pub model_nullable: bool,
    pub type_changed: bool,
}

impl Clone for ColumnDef {
    fn clone(&self) -> (r: Self)
        ensures
            r == *self,
    {
        ColumnDef { name: self.name.clone(), ty: self.ty.clone(), null: self.null }
    }
}

impl Clone for Column {
    fn clone(&self) -> (r: Self)
        ensures
            r == *self,
    {
        Column { name: self.name.clone(), rust_type: self.rust_type.clone(), nullable: self.nullable }
    }
}

} // verus!
