pub mod logic_gate_app;
pub mod update_draw;
