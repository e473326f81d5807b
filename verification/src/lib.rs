//! A small, strongly typed expression language over a named variable context.
//!
//! Expressions are trees of literals, variable lookups (`get`), and the
//! comparison operators `eq` and `gt`. A [`Context`] maps variable names to
//! [`Value`]s, a [`ContextSchema`] declares the expected [`Type`] of each
//! variable, and a [`Runner`] binds a validated context to repeated
//! evaluation. Expressions can be read from and written back to a JSON text
//! form.

mod context;
mod eval_type;
mod expression;
mod float64;
mod json;
mod laws;
mod parser;
mod runner;
mod serialize;
mod text;
mod value;

pub mod ops;

pub use context::Context;
pub use context::ContextError;
pub use context::ContextErrorView;
pub use context::ContextSchema;
pub use context::ContextSchemaMismatch;
pub use context::entries_map;
pub use context::lemma_validation_complete;
pub use context::schema_map;
pub use context::spec_declare;
pub use context::spec_mismatch_of;
pub use context::spec_mismatches;
pub use eval_type::Type;
pub use eval_type::type_check_all_args_have_same_type;
pub use expression::EvalError;
pub use expression::EvalErrorView;
pub use expression::Expression;
pub use expression::ExpressionView;
pub use expression::lemma_arg_types;
pub use expression::lemma_args_height;
pub use expression::spec_arg_types;
pub use expression::spec_args;
pub use expression::spec_check_types;
pub use expression::spec_eval;
pub use expression::spec_eval_type;
pub use expression::spec_expr_name;
pub use expression::spec_first_mismatch;
pub use expression::spec_height;
pub use expression::spec_type_check;
pub use expression::spec_value_name;
pub use float64::Float64;
pub use float64::FloatView;
pub use float64::f64_is_nan;
pub use float64::f64_is_zero;
pub use float64::f64_order_key;
pub use float64::spec_float_eq;
pub use float64::spec_float_gt;
pub use json::JsonNode;
pub use json::JsonView;
pub use json::json_doc_of;
pub use json::spec_digit;
pub use json::spec_escape_char;
pub use json::spec_escape_seq;
pub use json::spec_fields_view;
pub use json::spec_hex_digit;
pub use json::spec_int_token;
pub use json::spec_nat_token;
pub use json::spec_node_view;
pub use json::spec_nodes_view;
pub use json::spec_string_token;
pub use laws::lemma_eq_different;
pub use laws::lemma_eq_self;
pub use laws::lemma_eval_type_agrees;
pub use laws::lemma_get_eval;
pub use laws::lemma_literal_eval;
pub use parser::ParserError;
pub use parser::ParserErrorView;
pub use parser::parse;
pub use parser::spec_parse_array;
pub use parser::spec_parse_bool_items;
pub use parser::spec_parse_float_items;
pub use parser::spec_parse_int_items;
pub use parser::spec_parse_node;
pub use parser::spec_parse_object;
pub use parser::spec_parse_str_items;
pub use runner::Runner;
pub use runner::RunnerError;
pub use runner::RunnerErrorView;
pub use runner::spec_runner_err_of_eval;
pub use serialize::spec_bool_token;
pub use serialize::spec_expr_json;
pub use serialize::spec_join_comma;
pub use serialize::spec_value_json;
pub use text::spec_str_gt;
pub use value::Value;
pub use value::ValueView;
pub use value::spec_as_bool;
pub use value::spec_as_bool_array;
pub use value::spec_as_float;
pub use value::spec_as_float_array;
pub use value::spec_as_int;
pub use value::spec_as_int_array;
pub use value::spec_as_str;
pub use value::spec_as_str_array;
pub use value::spec_bool_seq_gt;
pub use value::spec_concrete_type;
pub use value::spec_float_free;
pub use value::spec_float_seq_gt;
pub use value::spec_int_seq_gt;
pub use value::spec_nan_free;
pub use value::spec_str_seq_gt;
pub use value::spec_value_eq;
pub use value::spec_value_gt;
pub use value::spec_variant_rank;
