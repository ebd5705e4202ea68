//! The orchestrator: what one turn of the conversation decides, asks for and
//! writes down.

pub mod decision_laws;
pub mod decisions;
pub mod log_laws;
pub mod tool_loop;
pub mod tool_loop_laws;
pub mod tool_loop_step_laws;
pub mod turn;
pub mod turn_laws;
pub mod turn_step_laws;
