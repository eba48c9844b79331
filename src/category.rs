use vstd::prelude::*;

verus! {

/// Whether a parent category books income or expenses.
#[derive(Debug, Clone, Copy, PartialEq, Eq, Structural)]
pub enum CategoryType {
    Income,
    Expense,
}

/// A stored integer that names no category type.
#[derive(Debug, Clone, Copy, PartialEq, Eq, Structural)]
pub struct InvalidCategoryTypeError {
    pub value: i32,
}

/// The integer under which a category type is stored.
pub open spec fn category_code(t: CategoryType) -> i32 {
    match t {
        CategoryType::Income => 1,
        CategoryType::Expense => 2,
    }
}

/// The category type stored under `v`, if any.
pub open spec fn category_of_code(v: i32) -> Option<CategoryType> {
    if v == 1 {
        Some(CategoryType::Income)
    } else if v == 2 {
        Some(CategoryType::Expense)
    } else {
        None
    }
}

impl CategoryType {
    /// The stored integer of this category type.
    pub fn code(&self) -> (r: i32)
        ensures
            r == category_code(*self),
    {
        match self {
            CategoryType::Income => 1,
            CategoryType::Expense => 2,
        }
    }

    /// Reads a stored integer; any value but 1 and 2 is refused.
    pub fn decode(value: i32) -> (r: Result<CategoryType, InvalidCategoryTypeError>)
        ensures
            category_of_code(value) is Some ==> r == Ok::<CategoryType, InvalidCategoryTypeError>(
                category_of_code(value)->Some_0,
            ),
            category_of_code(value) is None ==> r == Err::<CategoryType, InvalidCategoryTypeError>(
                InvalidCategoryTypeError { value },
            ),
    {
        if value == 1 {
            Ok(CategoryType::Income)
        } else if value == 2 {
            Ok(CategoryType::Expense)
        } else {
            Err(InvalidCategoryTypeError { value })
        }
    }

    /// Reads a stored integer that is known to name a category type.
    pub fn from(value: i32) -> (r: CategoryType)
        requires
            category_of_code(value) is Some,
        ensures
            category_code(r) == value,
    {
        if value == 1 {
            CategoryType::Income
        } else {
            CategoryType::Expense
        }
    }
}

/// Storing a category type and reading it back gives the same type.
pub proof fn lemma_category_code_round_trip(t: CategoryType)
    ensures
        category_of_code(category_code(t)) == Some(t),
{
}

/// A top-level category of an account.
pub struct ParentCategory {
    pub parent_category_id: Option<i32>,
    pub account_id: i32,
    pub parent_category_name: String,
    pub color: String,
    pub category_type: CategoryType,
}

/// A category nested under a parent category.
pub struct ChildCategory {
    pub child_category_id: Option<i32>,
    pub parent_category_id: i32,
    pub child_category_name: String,
}

} // verus!
