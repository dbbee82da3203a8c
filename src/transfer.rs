use vstd::prelude::*;

use crate::flags::{Flags, ERROR_BIT, MB_BIT, SB_BIT};

verus! {

/// Failures of a DMA transfer, as reported by the DMA engine.
#[derive(Clone, Copy, Debug, PartialEq, Eq, Structural)]
pub enum DmaError {
    InvalidState,
    TransferError,
}

/// Errors of an I2C transaction.
#[derive(Clone, Copy, Debug, PartialEq, Eq, Structural)]
pub enum Error {
    BusError,
    ArbitrationLost,
    LengthError,
    Nack,
    Timeout,
    /// The DMA engine failed the bulk transfer.
    Dma(DmaError),
    /// The buffer length is outside what the operation accepts: an empty read
    /// buffer, or a DMA transfer outside 1 to 255 bytes.
    InvalidLength,
}

/// One register-level step of a transaction. The driver performs the steps
/// of a plan in order and reports each outcome back.
#[derive(Clone, Copy, Debug, PartialEq, Eq, Structural)]
pub enum Command {
    /// Issue a start condition addressed for writing; may fail.
    StartWrite(u8),
    /// Issue a start condition addressed for reading; may fail.
    StartRead(u8),
    /// Wait until a flag of the set is pending, then check the bus for an
    /// error; fails with that error.
    Wait(Flags),
    /// Put one byte into the data register.
    WriteByte(u8),
    /// Take one byte from the data register; reports the byte.
    ReadByte,
    /// Acknowledge the last byte so that the slave sends another one.
    Ack,
    /// Arrange a NACK so that the slave stops sending.
    Nack,
    /// Issue a stop condition.
    Stop,
    /// Put the peripheral into DMA transfer mode; may fail.
    InitDma,
    /// Issue a start condition for a DMA write of the given byte count.
    StartDmaWrite(u8, u8),
    /// Issue a start condition for a DMA read of the given byte count.
    StartDmaRead(u8, u8),
    /// Hand the caller's buffer to the DMA engine, towards the peripheral.
    DmaWrite,
    /// Hand the caller's buffer to the DMA engine, from the peripheral.
    DmaRead,
}

/// What performing the current command gave.
#[derive(Clone, Copy, Debug, PartialEq, Eq, Structural)]
pub enum Outcome {
    Done,
    Byte(u8),
    Failed(Error),
}

/// The flags waited on before each byte written.
pub open spec fn write_wait() -> Flags {
    Flags { bits: MB_BIT | ERROR_BIT }
}

/// The flags waited on before each byte read.
pub open spec fn read_wait() -> Flags {
    Flags { bits: SB_BIT | ERROR_BIT }
}

/// A transaction in progress: its plan, how far it got, the bytes read so
/// far and the error that stopped it, if any.
pub struct Transfer {
    plan: Vec<Command>,
    pos: usize,
    received: Vec<u8>,
    failure: Option<Error>,
}

impl Transfer {
    pub closed spec fn plan(&self) -> Seq<Command> {
        self.plan@
    }

    /// How many commands of the plan were performed successfully.
    pub closed spec fn pos(&self) -> nat {
        self.pos as nat
    }

    pub closed spec fn received(&self) -> Seq<u8> {
        self.received@
    }

    pub closed spec fn failure(&self) -> Option<Error> {
        self.failure
    }

    /// The commands performed so far, in order.
    pub open spec fn performed(&self) -> Seq<Command> {
        self.plan().take(self.pos() as int)
    }

    pub open spec fn wf(&self) -> bool {
        self.pos() <= self.plan().len()
    }

    pub open spec fn spec_is_finished(&self) -> bool {
        self.failure() is Some || self.pos() == self.plan().len()
    }

    /// A transfer of `plan` that has not started.
    pub open spec fn is_fresh_for(&self, plan: Seq<Command>) -> bool {
        &&& self.plan() == plan
        &&& self.pos() == 0
        &&& self.received() == Seq::<u8>::empty()
        &&& self.failure() is None
    }

    pub fn new(plan: Vec<Command>) -> (r: Transfer)
        ensures
            r.is_fresh_for(plan@),
            r.wf(),
    {
        Transfer { plan, pos: 0, received: Vec::new(), failure: None }
    }

    pub fn is_finished(&self) -> (r: bool)
        requires
            self.wf(),
        ensures
            r == self.spec_is_finished(),
    {
        self.failure.is_some() || self.pos == self.plan.len()
    }

    /// The command to perform next, or `None` once the transfer is over.
    pub fn next_command(&self) -> (r: Option<Command>)
        requires
            self.wf(),
        ensures
            self.spec_is_finished() ==> r is None,
            !self.spec_is_finished() ==> r == Some(self.plan()[self.pos() as int]),
    {
        if self.failure.is_some() || self.pos == self.plan.len() {
            None
        } else {
            Some(self.plan[self.pos])
        }
    }

    /// Records the outcome of the current command. A failure ends the
    /// transfer at that command; a byte is kept when the command read one.
    pub fn advance(&mut self, outcome: Outcome)
        requires
            old(self).wf(),
            !old(self).spec_is_finished(),
        ensures
            final(self).wf(),
            final(self).plan() == old(self).plan(),
            match outcome {
                Outcome::Failed(e) => {
                    &&& final(self).failure() == Some(e)
                    &&& final(self).pos() == old(self).pos()
                    &&& final(self).received() == old(self).received()
                },
                Outcome::Byte(b) => {
                    &&& final(self).failure() is None
                    &&& final(self).pos() == old(self).pos() + 1
                    &&& final(self).received() == if old(self).plan()[old(self).pos() as int]
                        == Command::ReadByte {
                        old(self).received().push(b)
                    } else {
                        old(self).received()
                    }
                },
                Outcome::Done => {
                    &&& final(self).failure() is None
                    &&& final(self).pos() == old(self).pos() + 1
                    &&& final(self).received() == old(self).received()
                },
            },
    {
        let n = self.plan.len();
        assert(self.pos < n);
        match outcome {
            Outcome::Failed(e) => {
                self.failure = Some(e);
            },
            Outcome::Byte(b) => {
                if self.plan[self.pos] == Command::ReadByte {
                    self.received.push(b);
                }
                self.pos = self.pos + 1;
            },
            Outcome::Done => {
                self.pos = self.pos + 1;
            },
        }
    }

    /// The result once the transfer is over: the bytes read, or the error
    /// that stopped it.
    pub fn result(&self) -> (r: Option<Result<Vec<u8>, Error>>)
        requires
            self.wf(),
        ensures
            !self.spec_is_finished() ==> r is None,
            self.failure() matches Some(e) ==> r == Some(Err::<Vec<u8>, Error>(e)),
            self.failure() is None && self.pos() == self.plan().len() ==> (r matches Some(
                Ok(v),
            ) && v@ == self.received()),
    {
        match self.failure {
            Some(e) => Some(Err(e)),
            None => {
                if self.pos == self.plan.len() {
                    Some(Ok(self.received.clone()))
                } else {
                    None
                }
            },
        }
    }
}

} // verus!
