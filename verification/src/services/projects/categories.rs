//! Statements on portfolio categories.
use vstd::prelude::*;
use crate::services::{statement_params, statement_text, Update};
use crate::utils::patch::{FieldMap, FieldSpec};

verus! {

/// The table that holds the rows.
pub open spec fn table() -> Seq<char> {
    "project_categories"@
}

/// Plans the update of the row `id` with the columns of `fields`; an empty
/// map issues no statement.
pub fn partial_update(id: i16, fields: &FieldMap) -> (plan: Update)
    requires
        fields.wf(),
    ensures
        match plan {
            Update::NothingToDo => fields@ == Map::<Seq<char>, FieldSpec>::empty(),
            Update::Execute(statement) => fields@ != Map::<Seq<char>, FieldSpec>::empty()
                && statement.text@ == statement_text(table(), fields.order())
                && statement.params_view() == statement_params(*fields, id as int),
        },
{
    crate::services::partial_update("project_categories", id, fields)
}

} // verus!
