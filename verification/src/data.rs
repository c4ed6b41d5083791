//! Conversions between the generic code tree the parser hands over and the
//! evaluator's values.

pub mod cirru;
