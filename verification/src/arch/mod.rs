pub mod exceptions;
pub mod mmu;
