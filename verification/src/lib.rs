//! Expression core of an embedded data-transformation language.
//!
//! Every expression node answers two independent questions: what type and
//! failure modes it can produce, known from static context alone
//! ([`type_def::TypeDef`] against [`state::Compiler`]), and what value it
//! produces for the live data of one event ([`value::Value`] against
//! [`state::Program`]). The [`variable::Variable`] node is the worked
//! instance of that contract.
//!
//! Around the core stand the other pure pieces of the surrounding system:
//! interpolation of environment variables into configuration text
//! ([`vars`]), the per-metric decisions of the metrics observation API
//! ([`metrics`]), and the observability events of the split transform
//! ([`internal_events`]).

pub mod expression;
pub mod internal_events;
pub mod metrics;
pub mod state;
pub mod symbols;
pub mod type_def;
pub mod value;
pub mod variable;
pub mod vars;
