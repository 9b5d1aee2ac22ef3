//! The rule registry and the operators that rule predicates are built from.

pub mod comparison;
pub mod field_set;
pub mod framework;
pub mod membership;
pub mod presence;
pub mod selection;
pub mod summation;
pub mod summary;
pub mod text_order;

pub use comparison::{
    EQUALS, GREATER_OR_EQUALS, GREATER_THAN, LESS_OR_EQUALS, LESS_THAN, NOT_EQUALS,
};
pub use framework::{HumlFrameWork, RuleToggle};
pub use membership::{AT_LEAST_ONE_OF, EXACTLY_ONE_OF, NONE_OF, ONE_OF, WHERE};
pub use presence::{EMPTY, EXISTS, NOT_EMPTY, NOT_EXISTS};
pub use selection::{FIRST, LAST};
pub use summary::{ValidationError, ValidationSummary};
pub use summation::{Summable, SUM_OF};
