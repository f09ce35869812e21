pub mod unicode;
pub mod text;
pub mod lang;
pub mod context;
pub mod stage;
pub mod small_vec;
pub mod process;
pub mod fused_process;
pub mod normy;
pub mod pipeline;
pub mod profile;
pub mod static_fused_process;
