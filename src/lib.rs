//! Asynchronous I2C master driver logic: status flags, interrupt handling,
//! the wait-for-flags protocol, and the transaction plans of the byte-wise
//! and DMA-backed engines, with the laws that relate them.
pub mod flags;
pub mod irq;
pub mod laws;
pub mod plan;
pub mod session;
pub mod transfer;

pub use flags::Flags;
pub use irq::{
    wait_flags_begin, wait_flags_recheck, ArmPlan, InterruptHandler, IsrOutcome, WaitStep,
    WakerSlot,
};
pub use session::{Dma, I2cFuture, NoDma};
pub use transfer::{Command, DmaError, Error, Outcome, Transfer};
