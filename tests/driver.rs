use i2c_async::{
    wait_flags_begin, wait_flags_recheck, ArmPlan, Command, DmaError, Error, Flags, I2cFuture,
    InterruptHandler, NoDma, Outcome, Transfer, WaitStep, WakerSlot,
};

/// A register layer that always reports ready: every command succeeds and
/// each read yields the next byte of `incoming`. Returns the trace and the
/// transfer's result.
fn run_ready(mut t: Transfer, incoming: &[u8]) -> (Vec<Command>, Result<Vec<u8>, Error>) {
    let mut trace = Vec::new();
    let mut next_in = 0;
    while let Some(cmd) = t.next_command() {
        trace.push(cmd);
        let outcome = if cmd == Command::ReadByte {
            next_in += 1;
            Outcome::Byte(incoming[next_in - 1])
        } else {
            Outcome::Done
        };
        t.advance(outcome);
    }
    (trace, t.result().unwrap())
}

fn session() -> I2cFuture<u32, NoDma> {
    I2cFuture::into_future(7u32, 0x4200_0828)
}

fn write_wait() -> Flags {
    Flags::mb().union(Flags::error())
}

fn read_wait() -> Flags {
    Flags::sb().union(Flags::error())
}

#[test]
fn flags_set_operations() {
    let mb = Flags::mb();
    let both = mb.union(Flags::error());
    assert_eq!(both.bits(), 0x81);
    assert!(both.intersects(mb));
    assert!(!both.intersects(Flags::sb()));
    assert!(both.contains(mb));
    assert!(!mb.contains(both));
    assert_eq!(both.intersection(Flags::sb()).bits(), 0);
    assert_eq!(both.difference(mb), Flags::error());
    assert_eq!(Flags::all().bits(), 0x83);
    assert_eq!(Flags::from_bits_truncate(0xff).bits(), 0x83);
    assert_eq!(Flags::from_bits_truncate(0x7c), Flags::empty());
    assert!(Flags::empty().is_empty());
}

#[test]
fn waker_slot_keeps_the_last_registration() {
    let mut slot: WakerSlot<u32> = WakerSlot::new();
    assert!(!slot.is_registered());
    slot.register(1);
    slot.register(2);
    assert!(slot.is_registered());
    assert_eq!(slot.take(), Some(2));
    assert_eq!(slot.take(), None);
}

#[test]
fn interrupt_masks_pending_flags_and_wakes() {
    let mut slot: WakerSlot<u32> = WakerSlot::new();
    slot.register(9);
    let out = InterruptHandler::on_interrupt(Flags::from_bits_truncate(0x01), &mut slot);
    assert_eq!(out.mask, Flags::mb());
    assert_eq!(out.woken, Some(9));
    assert!(!slot.is_registered());
}

#[test]
fn spurious_interrupt_is_a_no_op() {
    let mut slot: WakerSlot<u32> = WakerSlot::new();
    slot.register(9);
    let out = InterruptHandler::on_interrupt(Flags { bits: 0x40 }, &mut slot);
    assert!(out.mask.is_empty());
    assert_eq!(out.woken, None);
    assert!(slot.is_registered());
}

#[test]
fn double_fire_wakes_once() {
    let mut slot: WakerSlot<u32> = WakerSlot::new();
    slot.register(5);
    let status = Flags::mb().union(Flags::error());
    let first = InterruptHandler::on_interrupt(status, &mut slot);
    let second = InterruptHandler::on_interrupt(status, &mut slot);
    assert_eq!(first.woken, Some(5));
    assert_eq!(second.woken, None);
    assert_eq!(second.mask, first.mask);
    // The next wait cycle registers and is woken as usual.
    slot.register(6);
    let third = InterruptHandler::on_interrupt(Flags::sb(), &mut slot);
    assert_eq!(third.woken, Some(6));
}

#[test]
fn wait_takes_fast_path_when_flag_pending() {
    let step = wait_flags_begin(write_wait(), Flags::mb());
    assert_eq!(step, WaitStep::Ready);
    let step = wait_flags_begin(write_wait(), Flags::from_bits_truncate(0x80));
    assert_eq!(step, WaitStep::Ready);
}

#[test]
fn wait_arms_exactly_the_interest_flags() {
    let step = wait_flags_begin(read_wait(), Flags::mb());
    assert_eq!(
        step,
        WaitStep::Arm(ArmPlan { disable: Flags::all(), enable: read_wait() })
    );
    assert!(!wait_flags_recheck(read_wait(), Flags::empty()));
    assert!(wait_flags_recheck(read_wait(), Flags::sb()));
    // Upon wake, the handler masks the interest flags that fired.
    let mut slot: WakerSlot<u32> = WakerSlot::new();
    slot.register(3);
    let out = InterruptHandler::on_interrupt(read_wait(), &mut slot);
    assert_eq!(read_wait().difference(out.mask), Flags::empty());
    assert_eq!(out.woken, Some(3));
}

#[test]
fn write_sends_each_byte_in_order_then_stops() {
    let i2c = session();
    let (trace, result) = run_ready(i2c.write(0x50, &[0xa1, 0xb2, 0xc3]), &[]);
    assert_eq!(
        trace,
        vec![
            Command::StartWrite(0x50),
            Command::Wait(write_wait()),
            Command::WriteByte(0xa1),
            Command::Wait(write_wait()),
            Command::WriteByte(0xb2),
            Command::Wait(write_wait()),
            Command::WriteByte(0xc3),
            Command::Stop,
        ]
    );
    assert_eq!(result, Ok(vec![]));
    assert_eq!(trace.iter().filter(|c| **c == Command::Stop).count(), 1);
}

#[test]
fn write_of_one_byte() {
    let (trace, result) = run_ready(session().write(0x10, &[0x00]), &[]);
    assert_eq!(trace.len(), 4);
    assert_eq!(trace[2], Command::WriteByte(0x00));
    assert_eq!(result, Ok(vec![]));
}

#[test]
fn read_acks_all_but_last_then_nacks() {
    let i2c = session();
    let t = i2c.read(0x3c, 3).unwrap();
    let (trace, result) = run_ready(t, &[4, 5, 6]);
    assert_eq!(
        trace,
        vec![
            Command::StartRead(0x3c),
            Command::Wait(read_wait()),
            Command::ReadByte,
            Command::Ack,
            Command::Wait(read_wait()),
            Command::ReadByte,
            Command::Ack,
            Command::Wait(read_wait()),
            Command::ReadByte,
            Command::Nack,
        ]
    );
    assert_eq!(result, Ok(vec![4, 5, 6]));
    assert_eq!(trace.iter().filter(|c| **c == Command::Ack).count(), 2);
}

#[test]
fn read_of_one_byte_sends_no_ack() {
    let (trace, result) = run_ready(session().read(0x3c, 1).unwrap(), &[0x99]);
    assert!(!trace.contains(&Command::Ack));
    assert_eq!(trace.last(), Some(&Command::Nack));
    assert_eq!(result, Ok(vec![0x99]));
}

#[test]
fn empty_read_is_refused() {
    assert!(matches!(session().read(0x3c, 0), Err(Error::InvalidLength)));
    assert!(matches!(
        session().write_read(0x3c, &[1], 0),
        Err(Error::InvalidLength)
    ));
}

#[test]
fn bus_error_aborts_the_write() {
    let mut t = session().write(0x50, &[1, 2]);
    assert_eq!(t.next_command(), Some(Command::StartWrite(0x50)));
    t.advance(Outcome::Done);
    assert_eq!(t.next_command(), Some(Command::Wait(write_wait())));
    t.advance(Outcome::Failed(Error::BusError));
    assert!(t.is_finished());
    assert_eq!(t.next_command(), None);
    assert_eq!(t.result(), Some(Err(Error::BusError)));
}

#[test]
fn failed_start_aborts_the_read() {
    let mut t = session().read(0x51, 2).unwrap();
    t.advance(Outcome::Failed(Error::Nack));
    assert_eq!(t.next_command(), None);
    assert_eq!(t.result(), Some(Err(Error::Nack)));
}

#[test]
fn unfinished_transfer_has_no_result() {
    let mut t = session().write(0x50, &[1]);
    assert_eq!(t.result(), None);
    t.advance(Outcome::Done);
    assert!(!t.is_finished());
    assert_eq!(t.result(), None);
}

#[test]
fn write_read_puts_write_phase_first() {
    let t = session().write_read(0x68, &[0x75], 2).unwrap();
    let (trace, result) = run_ready(t, &[0x11, 0x22]);
    let stop = trace.iter().position(|c| *c == Command::Stop).unwrap();
    let start_read = trace.iter().position(|c| *c == Command::StartRead(0x68)).unwrap();
    assert_eq!(stop, 3);
    assert_eq!(start_read, 4);
    assert!(trace[..=stop]
        .iter()
        .all(|c| !matches!(c, Command::StartRead(_) | Command::ReadByte | Command::Ack | Command::Nack)));
    assert!(trace[start_read..]
        .iter()
        .all(|c| !matches!(c, Command::StartWrite(_) | Command::WriteByte(_) | Command::Stop)));
    assert_eq!(result, Ok(vec![0x11, 0x22]));
}

#[test]
fn dma_write_accepts_one_and_255_bytes() {
    let i2c = session().with_dma_channel(3u8);
    let (trace, result) = run_ready(i2c.write(0x20, &[7]).unwrap(), &[]);
    assert_eq!(
        trace,
        vec![Command::InitDma, Command::StartDmaWrite(0x20, 1), Command::DmaWrite]
    );
    assert_eq!(result, Ok(vec![]));
    let big = vec![0u8; 255];
    let (trace, _) = run_ready(i2c.write(0x20, &big).unwrap(), &[]);
    assert_eq!(trace[1], Command::StartDmaWrite(0x20, 255));
}

#[test]
fn dma_write_refuses_zero_and_256_bytes() {
    let i2c = session().with_dma_channel(3u8);
    assert!(matches!(i2c.write(0x20, &[]), Err(Error::InvalidLength)));
    assert!(matches!(i2c.write(0x20, &vec![0u8; 256]), Err(Error::InvalidLength)));
}

#[test]
fn dma_read_bounds() {
    let i2c = session().with_dma_channel(3u8);
    let (trace, _) = run_ready(i2c.read(0x20, 1).unwrap(), &[]);
    assert_eq!(
        trace,
        vec![Command::InitDma, Command::StartDmaRead(0x20, 1), Command::DmaRead]
    );
    assert!(i2c.read(0x20, 255).is_ok());
    assert!(matches!(i2c.read(0x20, 0), Err(Error::InvalidLength)));
    assert!(matches!(i2c.read(0x20, 256), Err(Error::InvalidLength)));
}

#[test]
fn dma_write_read_orders_phases() {
    let i2c = session().with_dma_channel(3u8);
    let (trace, _) = run_ready(i2c.write_read(0x20, &[1, 2], 4).unwrap(), &[]);
    assert_eq!(
        trace,
        vec![
            Command::InitDma,
            Command::StartDmaWrite(0x20, 2),
            Command::DmaWrite,
            Command::InitDma,
            Command::StartDmaRead(0x20, 4),
            Command::DmaRead,
        ]
    );
    assert!(matches!(i2c.write_read(0x20, &[], 4), Err(Error::InvalidLength)));
    assert!(matches!(i2c.write_read(0x20, &[1], 256), Err(Error::InvalidLength)));
}

#[test]
fn dma_failure_is_reported() {
    let i2c = session().with_dma_channel(3u8);
    let mut t = i2c.write(0x20, &[1, 2, 3]).unwrap();
    t.advance(Outcome::Done);
    t.advance(Outcome::Done);
    t.advance(Outcome::Failed(Error::Dma(DmaError::TransferError)));
    assert_eq!(t.result(), Some(Err(Error::Dma(DmaError::TransferError))));
}

#[test]
fn session_lifecycle_keeps_the_handle() {
    let i2c = session();
    assert_eq!(*i2c.as_ref(), 7);
    let dma = i2c.with_dma_channel(2u8);
    assert_eq!(dma.sercom_ptr(), 0x4200_0828);
    let mut plain = I2cFuture::into_future(11u32, 4);
    *plain.as_mut() += 1;
    assert_eq!(plain.free(), 12);
}
