use vstd::prelude::*;

use crate::transfer::{read_wait, write_wait, Command};

verus! {

/// For each byte: wait until it can be sent, then send it.
pub open spec fn write_body(bytes: Seq<u8>) -> Seq<Command>
    decreases bytes.len(),
{
    if bytes.len() == 0 {
        Seq::empty()
    } else {
        write_body(bytes.drop_last()) + seq![
            Command::Wait(write_wait()),
            Command::WriteByte(bytes.last()),
        ]
    }
}

/// The byte-wise write: start, each byte, stop.
pub open spec fn write_plan(addr: u8, bytes: Seq<u8>) -> Seq<Command> {
    seq![Command::StartWrite(addr)] + write_body(bytes) + seq![Command::Stop]
}

/// For each byte after the first: acknowledge the previous one, wait, read.
pub open spec fn read_more(n: nat) -> Seq<Command>
    decreases n,
{
    if n == 0 {
        Seq::empty()
    } else {
        read_more((n - 1) as nat) + seq![
            Command::Ack,
            Command::Wait(read_wait()),
            Command::ReadByte,
        ]
    }
}

/// The byte-wise read of `n >= 1` bytes: start, the first byte, the others
/// each after an acknowledge, then a NACK.
pub open spec fn read_plan(addr: u8, n: nat) -> Seq<Command> {
    seq![Command::StartRead(addr), Command::Wait(read_wait()), Command::ReadByte] + read_more(
        (n - 1) as nat,
    ) + seq![Command::Nack]
}

/// The DMA write of `n` bytes.
pub open spec fn dma_write_plan(addr: u8, n: nat) -> Seq<Command> {
    seq![Command::InitDma, Command::StartDmaWrite(addr, n as u8), Command::DmaWrite]
}

/// The DMA read of `n` bytes.
pub open spec fn dma_read_plan(addr: u8, n: nat) -> Seq<Command> {
    seq![Command::InitDma, Command::StartDmaRead(addr, n as u8), Command::DmaRead]
}

/// A length that one DMA transfer accepts.
pub open spec fn dma_len_ok(n: nat) -> bool {
    1 <= n <= 255
}

} // verus!
