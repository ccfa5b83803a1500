//! The dynamic partial-update executor: from a field map to one parameterized
//! `UPDATE` statement, and from the store's row count to the outcome.
use vstd::prelude::*;
use vstd::string::*;
use crate::utils::patch::{FieldMap, FieldSpec, FieldValue};
use crate::utils::text::{decimal, decimal_text_nat};

pub mod blog;
pub mod projects;
pub mod settings;

verus! {

/// The `SET` list for the columns in `order`: each column quoted and bound to
/// the positional parameter of its place, counting from one.
pub open spec fn assignments(order: Seq<Seq<char>>) -> Seq<char>
    decreases order.len(),
{
    if order.len() == 0 {
        Seq::empty()
    } else {
        assignments(order.drop_last()) + (if order.len() > 1 {
            ", "@
        } else {
            Seq::empty()
        }) + "\""@ + order.last() + "\" = $"@ + decimal(order.len() as int)
    }
}

/// The text of the statement that writes the columns in `order` of one row of `table`.
pub open spec fn statement_text(table: Seq<char>, order: Seq<Seq<char>>) -> Seq<char> {
    "UPDATE "@ + table + " SET "@ + assignments(order) + " WHERE id = $"@ + decimal(
        (order.len() + 1) as int,
    )
}

/// The parameters of that statement: the column values in order, then the row's id.
pub open spec fn statement_params(fields: FieldMap, id: int) -> Seq<FieldSpec> {
    Seq::new(
        fields.order().len() + 1,
        |i: int|
            if i < fields.order().len() {
                fields.value_at(i)
            } else {
                FieldSpec::Int(id)
            },
    )
}

/// A parameterized statement, ready to be handed to the store.
#[derive(Debug, Clone, PartialEq)]
pub struct Statement {
    pub text: String,
    pub params: Vec<FieldValue>,
}

impl Statement {
    /// The parameters as contracts see them.
    pub open spec fn params_view(&self) -> Seq<FieldSpec> {
        Seq::new(self.params@.len(), |i: int| self.params@[i]@)
    }
}

/// What a partial update asks of the store.
#[derive(Debug, Clone, PartialEq)]
pub enum Update {
    /// The field map is empty: no statement is issued.
    NothingToDo,
    /// Execute this statement and report the number of rows it touched.
    Execute(Statement),
}

/// How a partial update ended.
#[derive(Debug, Clone, Copy, PartialEq, Eq)]
pub enum Outcome {
    /// There was nothing to write and the store was not asked.
    NothingToDo,
    /// Exactly one row was written.
    Updated,
    /// The statement ran and did not touch exactly one row: the entity vanished.
    Vanished,
}

/// The values of the columns of a map, in the map's order.
pub open spec fn column_values(fields: FieldMap) -> Seq<FieldSpec> {
    Seq::new(fields.order().len(), |i: int| fields.value_at(i))
}

/// The views of a vector of values.
pub open spec fn value_views(values: Seq<FieldValue>) -> Seq<FieldSpec> {
    Seq::new(values.len(), |i: int| values[i]@)
}

/// Starts a statement: `UPDATE`, the table, and the `SET` list with one
/// positional parameter for each column of the map, and collects the values.
fn set_clause(table: &'static str, fields: &FieldMap) -> (r: (String, Vec<FieldValue>))
    requires
        fields.wf(),
    ensures
        r.0@ == "UPDATE "@ + table@ + " SET "@ + assignments(fields.order()),
        value_views(r.1@) == column_values(*fields),
{
    let n = fields.len();
    let mut text = String::from_str("UPDATE ");
    text.append(table);
    text.append(" SET ");
    let mut params: Vec<FieldValue> = Vec::new();
    let mut i: usize = 0;
    proof {
        assert(fields.order().take(0) =~= Seq::<Seq<char>>::empty());
        assert(text@ =~= "UPDATE "@ + table@ + " SET "@ + assignments(fields.order().take(0)));
    }
    while i < n
        invariant
            fields.wf(),
            i <= n,
            n == fields.order().len(),
            text@ == "UPDATE "@ + table@ + " SET "@ + assignments(fields.order().take(i as int)),
            params@.len() == i,
            forall|j: int| 0 <= j < i ==> (#[trigger] params@[j])@ == fields.value_at(j),
        decreases n - i,
    {
        let ghost before = text@;
        let ghost prefix = fields.order().take(i as int);
        let ghost next = fields.order().take(i + 1);
        if i > 0 {
            text.append(", ");
        }
        text.append("\"");
        text.append(fields.name(i));
        text.append("\" = $");
        let index = decimal_text_nat(i as u128 + 1);
        text.append(index.as_str());
        params.push(fields.value(i).duplicate());
        proof {
            assert(next.drop_last() =~= prefix);
            assert(next.last() == fields.order()[i as int]);
            assert(text@ =~= before + (if next.len() > 1 {
                ", "@
            } else {
                Seq::empty()
            }) + "\""@ + next.last() + "\" = $"@ + decimal(next.len() as int));
            assert(text@ =~= "UPDATE "@ + table@ + " SET "@ + assignments(next));
        }
        i += 1;
    }
    proof {
        assert(fields.order().take(n as int) =~= fields.order());
        assert(value_views(params@) =~= column_values(*fields));
    }
    (text, params)
}

/// Plans the update of the row `id` of `table` with the columns of `fields`.
/// An empty map issues no statement; otherwise the statement sets exactly the
/// columns of the map, one positional parameter each in the map's order, and
/// selects the row by the last parameter. The table's name, like the names
/// of the columns, is fixed when the program is written; every value reaches
/// the store as a parameter.
pub fn partial_update(table: &'static str, id: i16, fields: &FieldMap) -> (plan: Update)
    requires
        fields.wf(),
    ensures
        match plan {
            Update::NothingToDo => fields@ == Map::<Seq<char>, FieldSpec>::empty(),
            Update::Execute(statement) => fields@ != Map::<Seq<char>, FieldSpec>::empty()
                && statement.text@ == statement_text(table@, fields.order())
                && statement.params_view() == statement_params(*fields, id as int),
        },
{
    if fields.is_empty() {
        return Update::NothingToDo;
    }
    let n = fields.len();
    let (mut text, mut params) = set_clause(table, fields);
    let ghost collected = params@;
    text.append(" WHERE id = $");
    let last = decimal_text_nat(n as u128 + 1);
    text.append(last.as_str());
    params.push(FieldValue::Int(id as i64));
    let statement = Statement { text, params };
    proof {
        assert(statement.text@ =~= statement_text(table@, fields.order()));
        assert(value_views(collected).len() == n);
        assert forall|j: int| 0 <= j < n implies statement.params_view()[j] == fields.value_at(
            j,
        ) by {
            assert(statement.params@[j] == collected[j]);
            assert(value_views(collected)[j] == collected[j]@);
            assert(column_values(*fields)[j] == fields.value_at(j));
        }
        assert(statement.params_view() =~= statement_params(*fields, id as int));
    }
    Update::Execute(statement)
}

/// Plans the update of the only row of `table` with the columns of `fields`:
/// as `partial_update`, but the statement selects no row by id.
pub fn partial_update_all(table: &'static str, fields: &FieldMap) -> (plan: Update)
    requires
        fields.wf(),
    ensures
        match plan {
            Update::NothingToDo => fields@ == Map::<Seq<char>, FieldSpec>::empty(),
            Update::Execute(statement) => fields@ != Map::<Seq<char>, FieldSpec>::empty()
                && statement.text@ == "UPDATE "@ + table@ + " SET "@ + assignments(fields.order())
                && statement.params_view() == column_values(*fields),
        },
{
    if fields.is_empty() {
        return Update::NothingToDo;
    }
    let (text, params) = set_clause(table, fields);
    let statement = Statement { text, params };
    proof {
        assert(statement.params_view() =~= column_values(*fields));
    }
    Update::Execute(statement)
}

/// A planned statement names exactly the columns of the field map: the `SET`
/// list has one assignment for each column, and each column's value is the
/// parameter at its place.
pub proof fn lemma_statement_covers(fields: FieldMap, id: int, i: int)
    requires
        fields.wf(),
        0 <= i < fields.order().len(),
    ensures
        fields@.contains_key(fields.order()[i]),
        statement_params(fields, id)[i] == fields@[fields.order()[i]],
        statement_params(fields, id).len() == fields@.dom().len() + 1,
        statement_params(fields, id).last() == FieldSpec::Int(id),
{
    fields.lemma_order();
    assert(fields.order().contains(fields.order()[i]));
}

/// Reads the number of rows that a statement touched: it succeeded when it
/// touched exactly one.
pub fn written(rows_affected: u64) -> (r: Outcome)
    ensures
        r == (if rows_affected == 1 {
            Outcome::Updated
        } else {
            Outcome::Vanished
        }),
{
    if rows_affected == 1 {
        Outcome::Updated
    } else {
        Outcome::Vanished
    }
}

/// Reads the store's answer to a planned update: a plan without a statement is
/// `NothingToDo` whatever the count; a statement succeeded when it touched
/// exactly one row.
pub fn conclude(plan: &Update, rows_affected: u64) -> (r: Outcome)
    ensures
        r == (match plan {
            Update::NothingToDo => Outcome::NothingToDo,
            Update::Execute(_) => if rows_affected == 1 {
                Outcome::Updated
            } else {
                Outcome::Vanished
            },
        }),
{
    match plan {
        Update::NothingToDo => Outcome::NothingToDo,
        Update::Execute(_) => if rows_affected == 1 {
            Outcome::Updated
        } else {
            Outcome::Vanished
        },
    }
}

} // verus!
