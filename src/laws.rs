use vstd::prelude::*;

use crate::flags::{Flags, ALL_BITS, ERROR_BIT, MB_BIT, SB_BIT};
use crate::irq::{armed_enabled, isr_enabled, isr_slot, isr_woken, ArmPlan};
use crate::plan::{read_more, read_plan, write_body, write_plan};
use crate::transfer::{read_wait, write_wait, Command, Transfer};

verus! {

/// The bytes that a sequence of commands puts on the bus, in order.
pub open spec fn written_bytes(cmds: Seq<Command>) -> Seq<u8>
    decreases cmds.len(),
{
    if cmds.len() == 0 {
        Seq::empty()
    } else {
        let rest = written_bytes(cmds.drop_last());
        match cmds.last() {
            Command::WriteByte(b) => rest.push(b),
            _ => rest,
        }
    }
}

/// How many times command `c` occurs in `cmds`.
pub open spec fn count_of(cmds: Seq<Command>, c: Command) -> nat
    decreases cmds.len(),
{
    if cmds.len() == 0 {
        0
    } else {
        count_of(cmds.drop_last(), c) + if cmds.last() == c {
            1nat
        } else {
            0nat
        }
    }
}

/// A command that only the read phase of a transaction issues.
pub open spec fn is_read_phase(c: Command) -> bool {
    c is StartRead || c is ReadByte || c is Ack || c is Nack || c == Command::Wait(read_wait())
}

/// A command that only the write phase of a transaction issues.
pub open spec fn is_write_phase(c: Command) -> bool {
    c is StartWrite || c is WriteByte || c is Stop || c == Command::Wait(write_wait())
}

proof fn lemma_written_bytes_append(a: Seq<Command>, b: Seq<Command>)
    ensures
        written_bytes(a + b) == written_bytes(a) + written_bytes(b),
    decreases b.len(),
{
    if b.len() == 0 {
        assert(a + b =~= a);
        assert(written_bytes(b) =~= Seq::<u8>::empty());
        assert(written_bytes(a) + written_bytes(b) =~= written_bytes(a));
    } else {
        assert((a + b).drop_last() =~= a + b.drop_last());
        assert((a + b).last() == b.last());
        lemma_written_bytes_append(a, b.drop_last());
        match b.last() {
            Command::WriteByte(x) => {
                assert(written_bytes(a) + written_bytes(b) =~= (written_bytes(a) + written_bytes(
                    b.drop_last(),
                )).push(x));
            },
            _ => {},
        }
    }
}

proof fn lemma_single(c: Command, d: Command)
    ensures
        written_bytes(seq![c]) == (match c {
            Command::WriteByte(b) => seq![b],
            _ => Seq::<u8>::empty(),
        }),
        count_of(seq![c], d) == (if c == d {
            1nat
        } else {
            0nat
        }),
{
    let one = seq![c];
    assert(one.drop_last() =~= Seq::<Command>::empty());
    assert(one.last() == c);
    assert(written_bytes(one.drop_last()) == Seq::<u8>::empty());
    assert(count_of(one.drop_last(), d) == 0);
    match c {
        Command::WriteByte(b) => {
            assert(Seq::<u8>::empty().push(b) =~= seq![b]);
        },
        _ => {},
    }
}

proof fn lemma_count_of_append(a: Seq<Command>, b: Seq<Command>, c: Command)
    ensures
        count_of(a + b, c) == count_of(a, c) + count_of(b, c),
    decreases b.len(),
{
    if b.len() == 0 {
        assert(a + b =~= a);
    } else {
        assert((a + b).drop_last() =~= a + b.drop_last());
        assert((a + b).last() == b.last());
        lemma_count_of_append(a, b.drop_last(), c);
    }
}

proof fn lemma_write_body(bytes: Seq<u8>)
    ensures
        written_bytes(write_body(bytes)) == bytes,
        count_of(write_body(bytes), Command::Stop) == 0,
        forall|i: int|
            0 <= i < write_body(bytes).len() ==> #[trigger] write_body(bytes)[i] == Command::Wait(
                write_wait(),
            ) || write_body(bytes)[i] is WriteByte,
    decreases bytes.len(),
{
    if bytes.len() == 0 {
        assert(written_bytes(write_body(bytes)) =~= bytes);
    } else {
        let pre = write_body(bytes.drop_last());
        let tail = seq![Command::Wait(write_wait()), Command::WriteByte(bytes.last())];
        lemma_write_body(bytes.drop_last());
        lemma_written_bytes_append(pre, tail);
        lemma_count_of_append(pre, tail, Command::Stop);
        let (t0, t1) = (Command::Wait(write_wait()), Command::WriteByte(bytes.last()));
        assert(tail =~= seq![t0] + seq![t1]);
        lemma_single(t0, Command::Stop);
        lemma_single(t1, Command::Stop);
        lemma_written_bytes_append(seq![t0], seq![t1]);
        lemma_count_of_append(seq![t0], seq![t1], Command::Stop);
        assert(written_bytes(tail) =~= seq![bytes.last()]);
        assert(written_bytes(write_body(bytes)) =~= written_bytes(pre) + seq![bytes.last()]);
        assert(bytes.drop_last().push(bytes.last()) =~= bytes);
        assert forall|i: int| 0 <= i < write_body(bytes).len() implies #[trigger] write_body(
            bytes,
        )[i] == Command::Wait(write_wait()) || write_body(bytes)[i] is WriteByte by {
            if i >= pre.len() {
                assert(write_body(bytes)[i] == tail[i - pre.len()]);
            } else {
                assert(write_body(bytes)[i] == pre[i]);
            }
        }
    }
}

proof fn lemma_read_more(n: nat)
    ensures
        read_more(n).len() == 3 * n,
        count_of(read_more(n), Command::Ack) == n,
        count_of(read_more(n), Command::ReadByte) == n,
        forall|i: int|
            0 <= i < read_more(n).len() ==> is_read_phase(#[trigger] read_more(n)[i]),
    decreases n,
{
    if n > 0 {
        let pre = read_more((n - 1) as nat);
        let tail = seq![Command::Ack, Command::Wait(read_wait()), Command::ReadByte];
        lemma_read_more((n - 1) as nat);
        lemma_count_of_append(pre, tail, Command::Ack);
        lemma_count_of_append(pre, tail, Command::ReadByte);
        let (t0, t1, t2) = (Command::Ack, Command::Wait(read_wait()), Command::ReadByte);
        assert(tail =~= seq![t0] + seq![t1] + seq![t2]);
        lemma_single(t0, Command::Ack);
        lemma_single(t1, Command::Ack);
        lemma_single(t2, Command::Ack);
        lemma_count_of_append(seq![t0], seq![t1], Command::Ack);
        lemma_count_of_append(seq![t0] + seq![t1], seq![t2], Command::Ack);
        lemma_single(t0, Command::ReadByte);
        lemma_single(t1, Command::ReadByte);
        lemma_single(t2, Command::ReadByte);
        lemma_count_of_append(seq![t0], seq![t1], Command::ReadByte);
        lemma_count_of_append(seq![t0] + seq![t1], seq![t2], Command::ReadByte);
        assert(count_of(tail, Command::Ack) == 1);
        assert forall|i: int| 0 <= i < read_more(n).len() implies is_read_phase(
            #[trigger] read_more(n)[i],
        ) by {
            if i >= pre.len() {
                assert(read_more(n)[i] == tail[i - pre.len()]);
            } else {
                assert(read_more(n)[i] == pre[i]);
            }
        }
    }
}

/// A byte-wise write of a non-empty byte sequence puts exactly those bytes
/// on the bus, in order, and issues exactly one stop condition, at its end.
/// A transfer performs its plan command by command (see `Transfer::advance`),
/// so a register layer that always reports ready sees exactly this.
pub proof fn lemma_write_sends_each_byte_once(addr: u8, bytes: Seq<u8>)
    requires
        bytes.len() > 0,
    ensures
        written_bytes(write_plan(addr, bytes)) == bytes,
        count_of(write_plan(addr, bytes), Command::Stop) == 1,
        write_plan(addr, bytes).last() == Command::Stop,
        count_of(write_plan(addr, bytes), Command::StartWrite(addr)) == 1,
{
    let head = seq![Command::StartWrite(addr)];
    let body = write_body(bytes);
    let stop = seq![Command::Stop];
    lemma_write_body(bytes);
    lemma_written_bytes_append(head + body, stop);
    lemma_written_bytes_append(head, body);
    lemma_count_of_append(head + body, stop, Command::Stop);
    lemma_count_of_append(head, body, Command::Stop);
    lemma_count_of_append(head + body, stop, Command::StartWrite(addr));
    lemma_count_of_append(head, body, Command::StartWrite(addr));
    lemma_single(Command::StartWrite(addr), Command::Stop);
    lemma_single(Command::Stop, Command::Stop);
    lemma_single(Command::StartWrite(addr), Command::StartWrite(addr));
    lemma_single(Command::Stop, Command::StartWrite(addr));
    assert(Seq::<u8>::empty() + bytes + Seq::<u8>::empty() =~= bytes);
    assert(count_of(body, Command::StartWrite(addr)) == 0) by {
        lemma_no_start_write(body, addr);
    }
}

/// A byte-wise write that ran to its end with every command reported done,
/// as against a register layer that is always ready, has performed its whole
/// plan: each byte once and in order, then a single stop condition.
pub proof fn lemma_ready_write_performs_plan(t: Transfer, addr: u8, bytes: Seq<u8>)
    requires
        bytes.len() > 0,
        t.wf(),
        t.plan() == write_plan(addr, bytes),
        t.spec_is_finished(),
        t.failure() is None,
    ensures
        t.performed() == write_plan(addr, bytes),
        written_bytes(t.performed()) == bytes,
        count_of(t.performed(), Command::Stop) == 1,
{
    assert(t.performed() =~= t.plan());
    lemma_write_sends_each_byte_once(addr, bytes);
}

proof fn lemma_no_start_write(cmds: Seq<Command>, addr: u8)
    requires
        forall|i: int| 0 <= i < cmds.len() ==> !(#[trigger] cmds[i] is StartWrite),
    ensures
        count_of(cmds, Command::StartWrite(addr)) == 0,
    decreases cmds.len(),
{
    if cmds.len() > 0 {
        assert(cmds.last() == cmds[cmds.len() - 1]);
        assert forall|i: int| 0 <= i < cmds.drop_last().len() implies !(
        #[trigger] cmds.drop_last()[i] is StartWrite) by {
            assert(cmds.drop_last()[i] == cmds[i]);
        }
        lemma_no_start_write(cmds.drop_last(), addr);
    }
}

/// A byte-wise read of `n >= 1` bytes takes exactly `n` bytes, acknowledges
/// exactly `n - 1` of them and ends by arranging a NACK.
pub proof fn lemma_read_acks_all_but_last(addr: u8, n: nat)
    requires
        n >= 1,
    ensures
        count_of(read_plan(addr, n), Command::Ack) == n - 1,
        count_of(read_plan(addr, n), Command::ReadByte) == n,
        read_plan(addr, n).last() == Command::Nack,
{
    let head = seq![Command::StartRead(addr), Command::Wait(read_wait()), Command::ReadByte];
    let more = read_more((n - 1) as nat);
    let nack = seq![Command::Nack];
    lemma_read_more((n - 1) as nat);
    lemma_count_of_append(head + more, nack, Command::Ack);
    lemma_count_of_append(head, more, Command::Ack);
    let (h0, h1, h2) = (Command::StartRead(addr), Command::Wait(read_wait()), Command::ReadByte);
    assert(head =~= seq![h0] + seq![h1] + seq![h2]);
    lemma_single(h0, Command::Ack);
    lemma_single(h1, Command::Ack);
    lemma_single(h2, Command::Ack);
    lemma_single(Command::Nack, Command::Ack);
    lemma_count_of_append(seq![h0], seq![h1], Command::Ack);
    lemma_count_of_append(seq![h0] + seq![h1], seq![h2], Command::Ack);
    lemma_count_of_append(head + more, nack, Command::ReadByte);
    lemma_count_of_append(head, more, Command::ReadByte);
    lemma_single(h0, Command::ReadByte);
    lemma_single(h1, Command::ReadByte);
    lemma_single(h2, Command::ReadByte);
    lemma_single(Command::Nack, Command::ReadByte);
    lemma_count_of_append(seq![h0], seq![h1], Command::ReadByte);
    lemma_count_of_append(seq![h0] + seq![h1], seq![h2], Command::ReadByte);
}

/// A byte-wise write-then-read issues every command of the write phase
/// before any command of the read phase: the plan is the write's plan
/// followed by the read's, and no read-phase command falls in the first
/// part, no write-phase command in the second.
pub proof fn lemma_write_read_orders_phases(addr: u8, bytes: Seq<u8>, n: nat)
    requires
        n >= 1,
    ensures
        ({
            let w = write_plan(addr, bytes);
            let p = w + read_plan(addr, n);
            &&& p.subrange(0, w.len() as int) == w
            &&& p.subrange(w.len() as int, p.len() as int) == read_plan(addr, n)
            &&& forall|i: int| 0 <= i < w.len() ==> !is_read_phase(#[trigger] p[i])
            &&& forall|j: int| w.len() <= j < p.len() ==> !is_write_phase(#[trigger] p[j])
        }),
{
    let w = write_plan(addr, bytes);
    let r = read_plan(addr, n);
    let p = w + r;
    let head = seq![Command::StartWrite(addr)];
    let body = write_body(bytes);
    let rhead = seq![Command::StartRead(addr), Command::Wait(read_wait())];
    let more = read_more((n - 1) as nat);
    lemma_write_body(bytes);
    lemma_read_more((n - 1) as nat);
    assert(p.subrange(0, w.len() as int) =~= w);
    assert(p.subrange(w.len() as int, p.len() as int) =~= r);
    assert((MB_BIT | ERROR_BIT) != (SB_BIT | ERROR_BIT)) by (bit_vector);
    assert forall|i: int| 0 <= i < w.len() implies !is_read_phase(#[trigger] p[i]) by {
        assert(p[i] == w[i]);
        if 1 <= i < 1 + body.len() {
            assert(w[i] == body[i - 1]);
        }
    }
    assert forall|j: int| w.len() <= j < p.len() implies !is_write_phase(#[trigger] p[j]) by {
        let k = j - w.len();
        assert(p[j] == r[k]);
        if 3 <= k < 3 + more.len() {
            assert(r[k] == more[k - 3]);
            assert(is_read_phase(more[k - 3]));
        }
    }
}

/// The interrupt handler does no harm when it fires twice for one event:
/// the second run masks nothing more, wakes nobody, and leaves the waker
/// slot as the first run left it.
pub proof fn lemma_double_fire_is_idempotent<W>(status: Flags, enabled: Flags, slot: Option<W>)
    ensures
        isr_enabled(isr_enabled(enabled, status), status) == isr_enabled(enabled, status),
        isr_slot(status, isr_slot(status, slot)) == isr_slot(status, slot),
        isr_woken(status, isr_slot(status, slot)) == None::<W>,
{
    let (e, s) = (enabled.bits, status.bits);
    assert((e & !(s & ALL_BITS)) & !(s & ALL_BITS) == e & !(s & ALL_BITS)) by (bit_vector);
}

/// A wait that suspends unmasks exactly its flags of interest, over an
/// enable register that held recognized flags only; an interrupt whose
/// status covers those flags then wakes the one continuation registered
/// and leaves no interrupt source enabled.
pub proof fn lemma_wake_after_arm<W>(enabled: Flags, interest: Flags, status: Flags, waker: W)
    requires
        enabled.bits & !ALL_BITS == 0,
        interest.bits & !ALL_BITS == 0,
        status.bits & interest.bits == interest.bits,
    ensures
        ({
            let plan = ArmPlan { disable: Flags { bits: ALL_BITS }, enable: interest };
            &&& armed_enabled(enabled, plan) == interest
            &&& (!interest.spec_is_empty() ==> {
                &&& isr_enabled(interest, status).spec_is_empty()
                &&& isr_woken(status, Some(waker)) == Some(waker)
                &&& isr_slot(status, Some(waker)) == None::<W>
            })
        }),
{
    let (e, i, s) = (enabled.bits, interest.bits, status.bits);
    assert((e & !ALL_BITS) | i == i) by (bit_vector)
        requires
            e & !ALL_BITS == 0,
            i & !ALL_BITS == 0,
    ;
    assert(i & !(s & ALL_BITS) == 0) by (bit_vector)
        requires
            i & !ALL_BITS == 0,
            s & i == i,
    ;
    assert(i != 0 ==> s & ALL_BITS != 0) by (bit_vector)
        requires
            i & !ALL_BITS == 0,
            s & i == i,
    ;
}

} // verus!
