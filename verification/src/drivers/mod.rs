pub mod input;
pub mod ramfb;
pub mod fw_cfg;
pub mod gicv2;
pub mod timer;
pub mod uart_pl011;
