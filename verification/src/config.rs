pub mod logic_gate_config;
