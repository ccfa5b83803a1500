//! The site's settings: one row of colours.
use vstd::prelude::*;
use crate::services::{assignments, column_values, Update};
use crate::utils::patch::{FieldMap, FieldSpec};

verus! {

/// The settings as the store records them.
#[derive(Debug, Clone, PartialEq)]
pub struct Settings {
    pub background_color: String,
    pub title_color: String,
    pub text_color: String,
}

/// Plans the update of the settings with the columns of `fields`; an empty
/// map issues no statement. The table has one row, so no row is selected.
pub fn partial_update(fields: &FieldMap) -> (plan: Update)
    requires
        fields.wf(),
    ensures
        match plan {
            Update::NothingToDo => fields@ == Map::<Seq<char>, FieldSpec>::empty(),
            Update::Execute(statement) => fields@ != Map::<Seq<char>, FieldSpec>::empty()
                && statement.text@ == "UPDATE "@ + "settings"@ + " SET "@ + assignments(
                fields.order(),
            ) && statement.params_view() == column_values(*fields),
        },
{
    crate::services::partial_update_all("settings", fields)
}

} // verus!
