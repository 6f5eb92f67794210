pub mod arch;
pub mod drivers;
pub mod graphics;
pub mod ui;
pub mod text;
pub mod task;
