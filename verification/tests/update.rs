use portfolio_cms::services::{conclude, partial_update, partial_update_all, Outcome, Statement, Update};
use portfolio_cms::utils::patch::{FieldMap, FieldValue};
use portfolio_cms::utils::text::{decimal_text, decimal_text_nat, same_text, stem, join};

#[test]
fn empty_map_issues_no_statement() {
    let fields = FieldMap::new();
    let plan = partial_update("blog_categories", 4, &fields);
    assert_eq!(plan, Update::NothingToDo);
    assert_eq!(conclude(&plan, 0), Outcome::NothingToDo);
    assert_eq!(conclude(&plan, 1), Outcome::NothingToDo);
    assert_eq!(partial_update_all("settings", &fields), Update::NothingToDo);
}

#[test]
fn statement_sets_each_column_once() {
    let mut fields = FieldMap::new();
    fields.insert("name", FieldValue::Text("New Name".to_string()));
    fields.insert("order", FieldValue::Int(3));
    fields.insert("is_seo", FieldValue::Bool(false));
    fields.insert("description", FieldValue::Null);
    let plan = partial_update("blog_categories", 12, &fields);
    assert_eq!(
        plan,
        Update::Execute(Statement {
            text: "UPDATE blog_categories SET \"name\" = $1, \"order\" = $2, \"is_seo\" = $3, \"description\" = $4 WHERE id = $5".to_string(),
            params: vec![
                FieldValue::Text("New Name".to_string()),
                FieldValue::Int(3),
                FieldValue::Bool(false),
                FieldValue::Null,
                FieldValue::Int(12),
            ],
        })
    );
}

#[test]
fn statement_with_one_column() {
    let mut fields = FieldMap::new();
    fields.insert("uri", FieldValue::Text("a-1".to_string()));
    let plan = partial_update("projects", -3, &fields);
    assert_eq!(
        plan,
        Update::Execute(Statement {
            text: "UPDATE projects SET \"uri\" = $1 WHERE id = $2".to_string(),
            params: vec![FieldValue::Text("a-1".to_string()), FieldValue::Int(-3)],
        })
    );
}

#[test]
fn statement_numbers_past_nine() {
    let mut fields = FieldMap::new();
    let names = ["c0", "c1", "c2", "c3", "c4", "c5", "c6", "c7", "c8", "c9", "c10"];
    for (i, name) in names.into_iter().enumerate() {
        fields.insert(name, FieldValue::Int(i as i64));
    }
    match partial_update("t", 1, &fields) {
        Update::Execute(statement) => {
            assert!(statement.text.ends_with("\"c9\" = $10, \"c10\" = $11 WHERE id = $12"));
            assert_eq!(statement.params.len(), 12);
        }
        Update::NothingToDo => panic!("a statement was expected"),
    }
}

#[test]
fn per_entity_statements_name_their_table() {
    let mut fields = FieldMap::new();
    fields.insert("name", FieldValue::Text("n".to_string()));
    let expect = |table: &str| {
        Update::Execute(Statement {
            text: format!("UPDATE {} SET \"name\" = $1 WHERE id = $2", table),
            params: vec![FieldValue::Text("n".to_string()), FieldValue::Int(5)],
        })
    };
    assert_eq!(
        portfolio_cms::services::blog::categories::partial_update(5, &fields),
        expect("blog_categories")
    );
    assert_eq!(
        portfolio_cms::services::blog::articles::partial_update(5, &fields),
        expect("blog_articles")
    );
    assert_eq!(
        portfolio_cms::services::projects::partial_update(5, &fields),
        expect("projects")
    );
    assert_eq!(
        portfolio_cms::services::projects::categories::partial_update(5, &fields),
        expect("project_categories")
    );
}

#[test]
fn settings_statement_selects_no_row() {
    let mut fields = FieldMap::new();
    fields.insert("title_color", FieldValue::Text("#fff".to_string()));
    fields.insert("text_color", FieldValue::Text("#000".to_string()));
    assert_eq!(
        portfolio_cms::services::settings::partial_update(&fields),
        Update::Execute(Statement {
            text: "UPDATE settings SET \"title_color\" = $1, \"text_color\" = $2".to_string(),
            params: vec![
                FieldValue::Text("#fff".to_string()),
                FieldValue::Text("#000".to_string()),
            ],
        })
    );
}

#[test]
fn one_row_is_success_and_any_other_count_a_conflict() {
    let mut fields = FieldMap::new();
    fields.insert("name", FieldValue::Text("n".to_string()));
    let plan = partial_update("projects", 1, &fields);
    assert_eq!(conclude(&plan, 1), Outcome::Updated);
    assert_eq!(conclude(&plan, 0), Outcome::Vanished);
    assert_eq!(conclude(&plan, 2), Outcome::Vanished);
}

#[test]
fn decimal_rendering() {
    assert_eq!(decimal_text(0), "0");
    assert_eq!(decimal_text(7), "7");
    assert_eq!(decimal_text(10), "10");
    assert_eq!(decimal_text(-1), "-1");
    assert_eq!(decimal_text(1650000000), "1650000000");
    assert_eq!(decimal_text(i64::MIN), "-9223372036854775808");
    assert_eq!(decimal_text(i64::MAX), "9223372036854775807");
    assert_eq!(decimal_text_nat(u128::MAX), u128::MAX.to_string());
}

#[test]
fn stems_and_joins() {
    assert_eq!(stem("cover_1.png"), "cover_1");
    assert_eq!(stem("a.b.c"), "a");
    assert_eq!(stem("plain"), "plain");
    assert_eq!(stem(".hidden"), "");
    assert_eq!(stem(""), "");
    assert_eq!(join("a", "b"), "ab");
    assert!(same_text("é", "é"));
    assert!(!same_text("a", "b"));
}
