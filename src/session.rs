use vstd::prelude::*;

use crate::flags::Flags;
use crate::plan::{
    dma_len_ok, dma_read_plan, dma_write_plan, read_more, read_plan, write_body, write_plan,
};
use crate::transfer::{read_wait, write_wait, Command, Error, Transfer};

verus! {

/// The capability of a session that holds no DMA channel.
#[derive(Clone, Copy, Debug, PartialEq, Eq, Structural)]
pub struct NoDma;

/// The capability of a session that holds DMA channel `C`.
pub struct Dma<C> {
    pub channel: C,
}

/// An I2C master in asynchronous mode: it owns the peripheral handle `P`
/// and the capability `D` (`NoDma` or `Dma<C>`), and plans each
/// transaction as a sequence of register commands.
pub struct I2cFuture<P, D> {
    i2c: P,
    data_register: usize,
    dma_channel: D,
}

impl<P, D> I2cFuture<P, D> {
    pub closed spec fn spec_i2c(&self) -> P {
        self.i2c
    }

    pub closed spec fn spec_data_register(&self) -> usize {
        self.data_register
    }

    pub closed spec fn spec_dma_channel(&self) -> D {
        self.dma_channel
    }

    /// The peripheral handle, for performing the planned commands.
    pub fn as_ref(&self) -> (r: &P)
        ensures
            *r == self.spec_i2c(),
    {
        &self.i2c
    }

    /// The peripheral handle, for performing the planned commands.
    pub fn as_mut(&mut self) -> (r: &mut P)
        ensures
            *r == old(self).spec_i2c(),
    {
        &mut self.i2c
    }
}

fn write_commands(addr: u8, bytes: &[u8]) -> (r: Vec<Command>)
    ensures
        r@ == write_plan(addr, bytes@),
{
    let mut v: Vec<Command> = Vec::new();
    v.push(Command::StartWrite(addr));
    let wait = Flags::mb().union(Flags::error());
    let mut i: usize = 0;
    while i < bytes.len()
        invariant
            i <= bytes@.len(),
            wait == write_wait(),
            v@ == seq![Command::StartWrite(addr)] + write_body(bytes@.take(i as int)),
        decreases bytes@.len() - i,
    {
        proof {
            let next = bytes@.take(i + 1);
            assert(next.drop_last() =~= bytes@.take(i as int));
        }
        v.push(Command::Wait(wait));
        v.push(Command::WriteByte(bytes[i]));
        i = i + 1;
        assert(v@ =~= seq![Command::StartWrite(addr)] + write_body(bytes@.take(i as int)));
    }
    assert(bytes@.take(i as int) =~= bytes@);
    v.push(Command::Stop);
    v
}

fn read_commands(addr: u8, len: usize) -> (r: Vec<Command>)
    requires
        len >= 1,
    ensures
        r@ == read_plan(addr, len as nat),
{
    let wait = Flags::sb().union(Flags::error());
    let mut v: Vec<Command> = Vec::new();
    v.push(Command::StartRead(addr));
    v.push(Command::Wait(wait));
    v.push(Command::ReadByte);
    let mut i: usize = 1;
    while i < len
        invariant
            1 <= i <= len,
            wait == read_wait(),
            v@ == seq![Command::StartRead(addr), Command::Wait(read_wait()), Command::ReadByte]
                + read_more((i - 1) as nat),
        decreases len - i,
    {
        v.push(Command::Ack);
        v.push(Command::Wait(wait));
        v.push(Command::ReadByte);
        i = i + 1;
        assert(v@ =~= seq![
            Command::StartRead(addr),
            Command::Wait(read_wait()),
            Command::ReadByte,
        ] + read_more((i - 1) as nat));
    }
    v.push(Command::Nack);
    v
}

impl<P> I2cFuture<P, NoDma> {
    /// Enters asynchronous mode with the peripheral handle `i2c`, whose data
    /// register sits at address `data_register`. The caller has cleared any
    /// stale interrupt request of the instance and enabled its line.
    pub fn into_future(i2c: P, data_register: usize) -> (r: I2cFuture<P, NoDma>)
        ensures
            r.spec_i2c() == i2c,
            r.spec_data_register() == data_register,
    {
        I2cFuture { i2c, data_register, dma_channel: NoDma }
    }

    /// Takes up a DMA channel for reads and writes.
    pub fn with_dma_channel<C>(self, dma_channel: C) -> (r: I2cFuture<P, Dma<C>>)
        ensures
            r.spec_i2c() == self.spec_i2c(),
            r.spec_data_register() == self.spec_data_register(),
            r.spec_dma_channel() == (Dma { channel: dma_channel }),
    {
        I2cFuture {
            i2c: self.i2c,
            data_register: self.data_register,
            dma_channel: Dma { channel: dma_channel },
        }
    }

    /// Gives back the peripheral handle.
    pub fn free(self) -> (r: P)
        ensures
            r == self.spec_i2c(),
    {
        self.i2c
    }

    /// Plans the write of `bytes` to the slave at `addr`.
    pub fn write(&self, addr: u8, bytes: &[u8]) -> (r: Transfer)
        ensures
            r.is_fresh_for(write_plan(addr, bytes@)),
            r.wf(),
    {
        Transfer::new(write_commands(addr, bytes))
    }

    /// Plans the read of `len` bytes from the slave at `addr`; an empty
    /// read is refused.
    pub fn read(&self, addr: u8, len: usize) -> (r: Result<Transfer, Error>)
        ensures
            len == 0 <==> r is Err,
            r matches Err(e) ==> e == Error::InvalidLength,
            r matches Ok(t) ==> t.is_fresh_for(read_plan(addr, len as nat)) && t.wf(),
    {
        if len == 0 {
            Err(Error::InvalidLength)
        } else {
            Ok(Transfer::new(read_commands(addr, len)))
        }
    }

    /// Plans the write of `write_buf`, then the read of `read_len` bytes,
    /// both from the slave at `addr`. An empty read is refused before any
    /// bus activity.
    pub fn write_read(&self, addr: u8, write_buf: &[u8], read_len: usize) -> (r: Result<
        Transfer,
        Error,
    >)
        ensures
            read_len == 0 <==> r is Err,
            r matches Err(e) ==> e == Error::InvalidLength,
            r matches Ok(t) ==> t.is_fresh_for(
                write_plan(addr, write_buf@) + read_plan(addr, read_len as nat),
            ) && t.wf(),
    {
        if read_len == 0 {
            return Err(Error::InvalidLength);
        }
        let mut v = write_commands(addr, write_buf);
        let mut rest = read_commands(addr, read_len);
        v.append(&mut rest);
        Ok(Transfer::new(v))
    }
}

impl<P, C> I2cFuture<P, Dma<C>> {
    /// The address of the peripheral's data register, the fixed end of each
    /// DMA transfer.
    pub fn sercom_ptr(&self) -> (r: usize)
        ensures
            r == self.spec_data_register(),
    {
        self.data_register
    }

    /// The DMA channel, for performing the bulk transfers of a plan.
    pub fn dma_channel(&mut self) -> (r: &mut C)
        ensures
            *r == old(self).spec_dma_channel().channel,
    {
        &mut self.dma_channel.channel
    }

    /// Plans the DMA write of `bytes` to the slave at `addr`; a length
    /// outside 1 to 255 is refused.
    pub fn write(&self, addr: u8, bytes: &[u8]) -> (r: Result<Transfer, Error>)
        ensures
            dma_len_ok(bytes@.len()) <==> r is Ok,
            r matches Err(e) ==> e == Error::InvalidLength,
            r matches Ok(t) ==> t.is_fresh_for(dma_write_plan(addr, bytes@.len())) && t.wf(),
    {
        let len = bytes.len();
        if len == 0 || len > 255 {
            return Err(Error::InvalidLength);
        }
        let v = vec![Command::InitDma, Command::StartDmaWrite(addr, len as u8), Command::DmaWrite];
        Ok(Transfer::new(v))
    }

    /// Plans the DMA read of `len` bytes from the slave at `addr`; a length
    /// outside 1 to 255 is refused.
    pub fn read(&self, addr: u8, len: usize) -> (r: Result<Transfer, Error>)
        ensures
            dma_len_ok(len as nat) <==> r is Ok,
            r matches Err(e) ==> e == Error::InvalidLength,
            r matches Ok(t) ==> t.is_fresh_for(dma_read_plan(addr, len as nat)) && t.wf(),
    {
        if len == 0 || len > 255 {
            return Err(Error::InvalidLength);
        }
        let v = vec![Command::InitDma, Command::StartDmaRead(addr, len as u8), Command::DmaRead];
        Ok(Transfer::new(v))
    }

    /// Plans the DMA write of `write_buf`, then the DMA read of `read_len`
    /// bytes, both from the slave at `addr`. Either length outside 1 to 255
    /// is refused before any bus activity.
    pub fn write_read(&self, addr: u8, write_buf: &[u8], read_len: usize) -> (r: Result<
        Transfer,
        Error,
    >)
        ensures
            dma_len_ok(write_buf@.len()) && dma_len_ok(read_len as nat) <==> r is Ok,
            r matches Err(e) ==> e == Error::InvalidLength,
            r matches Ok(t) ==> t.is_fresh_for(
                dma_write_plan(addr, write_buf@.len()) + dma_read_plan(addr, read_len as nat),
            ) && t.wf(),
    {
        let wlen = write_buf.len();
        if wlen == 0 || wlen > 255 || read_len == 0 || read_len > 255 {
            return Err(Error::InvalidLength);
        }
        let v = vec![
            Command::InitDma,
            Command::StartDmaWrite(addr, wlen as u8),
            Command::DmaWrite,
            Command::InitDma,
            Command::StartDmaRead(addr, read_len as u8),
            Command::DmaRead,
        ];
        let t = Transfer::new(v);
        assert(t.plan() =~= dma_write_plan(addr, write_buf@.len()) + dma_read_plan(
            addr,
            read_len as nat,
        ));
        Ok(t)
    }
}

} // verus!
