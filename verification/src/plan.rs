//! From a query to the statement that answers it.

use vstd::prelude::*;

use crate::identifier::{is_valid_identifier, valid_identifier};
use crate::json::{
    field_value_to_sql, field_view, sql_of, sql_views, FieldValue, FieldView, SqlValue, SqlView,
};
use crate::persistence::{ErrorView, Query, QueryView, StoreError};
use crate::sql::{
    select_all_sql, select_by_id_sql, select_field_equal_sql, select_field_null_sql, Statement,
};
use crate::text::{contains_string, texts};

verus! {

/// A statement's text and the values to bind.
pub struct Plan {
    pub sql: String,
    pub values: Vec<SqlValue>,
}

/// A statement and the values to bind.
pub struct PlanView {
    pub statement: Statement,
    pub values: Seq<SqlView>,
}

/// The statement that answers a query on a declared collection.
pub open spec fn plan_of(name: Seq<char>, declared: Seq<Seq<char>>, query: QueryView) -> Result<
    PlanView,
    ErrorView,
> {
    match query {
        QueryView::All => Ok(
            PlanView { statement: Statement::SelectAll { name }, values: seq![] },
        ),
        QueryView::ById(id) => Ok(
            PlanView {
                statement: Statement::SelectById { name },
                values: seq![SqlView::Text(id)],
            },
        ),
        QueryView::ByField { field, value } => field_plan_of(
            name,
            declared,
            field,
            field_view(value),
        ),
    }
}

/// The statement that answers a query by field. The field must be an identifier and one of
/// the declared fields, and the value a scalar. A null value is looked for with `IS NULL`,
/// since nothing equals NULL.
pub open spec fn field_plan_of(
    name: Seq<char>,
    declared: Seq<Seq<char>>,
    field: Seq<char>,
    value: FieldView,
) -> Result<PlanView, ErrorView> {
    if !valid_identifier(field) {
        Err(ErrorView::InvalidIdentifier(field))
    } else if !declared.contains(field) {
        Err(ErrorView::FieldNotIndexed(field))
    } else {
        match sql_of(value) {
            Err(error) => Err(error),
            Ok(SqlView::Null) => Ok(
                PlanView { statement: Statement::SelectFieldNull { name, field }, values: seq![] },
            ),
            Ok(wanted) => Ok(
                PlanView {
                    statement: Statement::SelectFieldEqual { name, field },
                    values: seq![wanted],
                },
            ),
        }
    }
}

/// Whether a plan, or an error, is the expected one.
pub open spec fn is_plan(
    result: Result<Plan, StoreError>,
    expected: Result<PlanView, ErrorView>,
) -> bool {
    match expected {
        Ok(expected) => result matches Ok(plan) && plan.sql@ == expected.statement.text()
            && sql_views(plan.values@) == expected.values,
        Err(expected) => result matches Err(error) && error@ == expected,
    }
}

/// Builds the statement that answers a query on a declared collection.
pub fn plan_query(name: &str, declared: &Vec<String>, query: &Query) -> (result: Result<
    Plan,
    StoreError,
>)
    ensures
        is_plan(result, plan_of(name@, texts(declared@), query@)),
{
    match query {
        Query::All => {
            let values: Vec<SqlValue> = Vec::new();
            assert(sql_views(values@) =~= seq![]);
            Ok(Plan { sql: select_all_sql(name), values })
        },
        Query::ById(id) => {
            let mut values: Vec<SqlValue> = Vec::new();
            values.push(SqlValue::Text(id.clone()));
            assert(sql_views(values@) =~= seq![SqlView::Text(id@)]);
            Ok(Plan { sql: select_by_id_sql(name), values })
        },
        Query::ByField { field, value } => {
            plan_field_query(name, declared, field, &FieldValue::from_json(value))
        },
    }
}

/// Builds the statement that answers a query by field on a declared collection.
pub fn plan_field_query(
    name: &str,
    declared: &Vec<String>,
    field: &String,
    value: &FieldValue,
) -> (result: Result<Plan, StoreError>)
    ensures
        is_plan(result, field_plan_of(name@, texts(declared@), field@, value@)),
{
    if !is_valid_identifier(field.as_str()) {
        return Err(StoreError::InvalidIdentifier(field.clone()));
    }
    if !contains_string(declared, field) {
        return Err(StoreError::FieldNotIndexed(field.clone()));
    }
    match field_value_to_sql(value) {
        Err(error) => Err(error),
        Ok(SqlValue::Null) => {
            let values: Vec<SqlValue> = Vec::new();
            assert(sql_views(values@) =~= seq![]);
            Ok(Plan { sql: select_field_null_sql(name, field.as_str()), values })
        },
        Ok(wanted) => {
            let ghost wanted_view = wanted@;
            let mut values: Vec<SqlValue> = Vec::new();
            values.push(wanted);
            assert(sql_views(values@) =~= seq![wanted_view]);
            Ok(Plan { sql: select_field_equal_sql(name, field.as_str()), values })
        },
    }
}

} // verus!
