pub mod logic_gate_app_state;
