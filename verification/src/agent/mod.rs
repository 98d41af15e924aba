//! The agent loop: the rules by which a session's turns run.
pub mod assembly;
pub mod assembly_laws;
pub mod guard_laws;
pub mod loop_guard;
pub mod error_laws;
pub mod errors;
pub mod compact;
pub mod compact_laws;
pub mod fold_laws;
pub mod summary_laws;
pub mod clearing_laws;
pub mod microcompact;
pub mod rescue;
pub mod rescue_laws;
pub mod instruction_laws;
pub mod instructions;
pub mod background_laws;
pub mod injections;
pub mod runtime_context;
pub mod log;
pub mod log_laws;
pub mod input;
pub mod ids;
pub mod turn;
pub mod turn_laws;
pub mod course;
pub mod course_laws;
pub mod offer_laws;
pub mod step;
pub mod request;
pub mod pool;
pub mod pool_laws;
pub mod exec;
pub mod exec_laws;
pub mod driver;
