use budget_api::category::{CategoryType, ChildCategory, InvalidCategoryTypeError, ParentCategory};

#[test]
fn decode_known_codes() {
    assert_eq!(CategoryType::decode(1), Ok(CategoryType::Income));
    assert_eq!(CategoryType::decode(2), Ok(CategoryType::Expense));
}

#[test]
fn decode_unknown_code() {
    assert_eq!(CategoryType::decode(0), Err(InvalidCategoryTypeError { value: 0 }));
    assert_eq!(CategoryType::decode(3), Err(InvalidCategoryTypeError { value: 3 }));
    assert_eq!(CategoryType::decode(-1), Err(InvalidCategoryTypeError { value: -1 }));
}

#[test]
fn code_round_trip() {
    for t in [CategoryType::Income, CategoryType::Expense] {
        assert_eq!(CategoryType::decode(t.code()), Ok(t));
        assert_eq!(CategoryType::from(t.code()), t);
    }
    assert_eq!(CategoryType::Income.code(), 1);
    assert_eq!(CategoryType::Expense.code(), 2);
}

#[test]
fn category_records_hold_their_fields() {
    let p = ParentCategory {
        parent_category_id: Some(7),
        account_id: 3,
        parent_category_name: "Food".to_string(),
        color: "#ff0000".to_string(),
        category_type: CategoryType::from(2),
    };
    let c = ChildCategory { child_category_id: None, parent_category_id: 7, child_category_name: "Lunch".to_string() };
    assert_eq!(p.category_type, CategoryType::Expense);
    assert_eq!(c.parent_category_id, p.parent_category_id.unwrap());
}
