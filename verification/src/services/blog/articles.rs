//! Rows and statements of blog articles.
use vstd::prelude::*;
use crate::services::{statement_params, statement_text, Update};
use crate::utils::patch::{FieldMap, FieldSpec};

verus! {

/// The table that holds the rows.
pub open spec fn table() -> Seq<char> {
    "blog_articles"@
}

/// Plans the update of the row `id` with the columns of `fields`; an empty
/// map issues no statement.
pub fn partial_update(id: i16, fields: &FieldMap) -> (plan: Update)
    requires
        fields.wf(),
    ensures
        match plan {
            Update::NothingToDo => fields@ == Map::<Seq<char>, FieldSpec>::empty(),
            Update::Execute(statement) => fields@ != Map::<Seq<char>, FieldSpec>::empty()
                && statement.text@ == statement_text(table(), fields.order())
                && statement.params_view() == statement_params(*fields, id as int),
        },
{
    crate::services::partial_update("blog_articles", id, fields)
}

/// What the store needs to record a new article.
#[derive(Debug, Clone, PartialEq)]
pub struct ArticleInformations {
    pub category_id: Option<i16>,
    pub cover_id: Option<i32>,
    pub name: String,
    pub content: String,
    pub is_published: bool,
    pub is_seo: bool,
}

} // verus!
