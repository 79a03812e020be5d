//! Query-execution logic of a CQL server: guardrail checks, the
//! Java-compatible user-defined-function interpreter, and the helpers
//! the executor uses for paging, filtering, aggregation and DDL rendering.

pub mod error;
pub mod text;
pub mod entries;
pub mod guardrails;
pub mod write_guardrails;
pub mod chars;
pub mod udf_value;
pub mod java_body;
pub mod java_parse;
pub mod java_semantics;
pub mod java_exec;
pub mod java_udf;
pub mod paging;
pub mod like;
pub mod types;
pub mod relations;
pub mod tuples;
pub mod bytes;
pub mod options;
pub mod permissions;
pub mod clock;
pub mod numbers;
pub mod bigint;
pub mod aggregates;
pub mod constraints;
pub mod ddl;
pub mod selectors;
pub mod collections;
pub mod cells;
pub mod filtering;
pub mod masks;
pub mod udf_catalog;
pub mod alter_table;
pub mod mutations;
pub mod alter_type;
pub mod schema;
pub mod create_table;
pub mod select_plan;
pub mod roles;
pub mod describe;
pub mod scan;
