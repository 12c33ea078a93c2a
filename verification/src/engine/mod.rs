pub mod dummy_graph;
pub mod effect;
pub mod synth_graph;
