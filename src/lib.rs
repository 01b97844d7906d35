pub mod compose;
pub mod error;
pub mod expression;
pub mod field_set;
pub mod generator;
pub mod normalize;
pub mod tag;
