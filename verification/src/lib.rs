//! A four-operand decimal calculator core: strict validation of typed numbers,
//! a two-tier precedence evaluator and a thousands-grouped formatter.

pub mod error;
pub mod text;
pub mod spacing;
pub mod grouping;
pub mod rounding;
pub mod decimal;
pub mod limits;
pub mod op;
pub mod eval;
pub mod operand;
pub mod state;
pub mod roundtrip;

pub use decimal::Decimal;
pub use error::ErrorKind;
pub use eval::{
    conclude, display_text, evaluate, execute, keep, mathematical_round, Applied, EvalOutcome,
    Evaluation,
};
pub use grouping::format_with_spaces;
pub use limits::{check_limits, lower_limit, upper_limit};
pub use op::Op;
pub use operand::{accept, read_operand, Operand};
pub use rounding::{rounding_strategy_to_str, RoundingStrategy};
pub use spacing::check_spaces;
pub use state::{Calculator, Report};
pub use text::normalize;
