use vstd::prelude::*;

use crate::registers::{subaddress_of, Channel, THR_RHR};

verus! {

/// The two-wire bus transport the driver talks through: a write, and a write
/// followed by a read, both to a 7-bit device address.
pub trait Bus {
    /// What the transport reports when a transaction fails.
    type Error;

    /// Writes `bytes` to the device at `address`.
    fn write(&mut self, address: u8, bytes: &[u8]) -> Result<(), Self::Error>;

    /// Writes `bytes` to the device at `address`, then reads `buffer.len()`
    /// bytes from it into `buffer`.
    fn write_read(&mut self, address: u8, bytes: &[u8], buffer: &mut [u8]) -> Result<(), Self::Error>;
}

/// One bus transaction the driver issued, with what came back.
pub enum Transfer {
    /// A write of `bytes` to `address`.
    Write { address: u8, bytes: Seq<u8>, ok: bool },
    /// A write of `bytes` to `address`, then a read of `received`.
    WriteRead { address: u8, bytes: Seq<u8>, received: Seq<u8>, ok: bool },
}

impl Transfer {
    /// Whether the transport reported success.
    pub open spec fn succeeded(self) -> bool {
        match self {
            Transfer::Write { ok, .. } => ok,
            Transfer::WriteRead { ok, .. } => ok,
        }
    }
}

/// The byte that the `i`-th transfer of `ts` read back.
pub open spec fn read_value(ts: Seq<Transfer>, i: int) -> u8 {
    match ts[i] {
        Transfer::WriteRead { received, .. } => received[0],
        _ => 0,
    }
}

/// A successful read of `register` of `channel` that returned `value`.
pub open spec fn register_read(address: u8, channel: Channel, register: u8, value: u8) -> Transfer {
    Transfer::WriteRead {
        address,
        bytes: seq![subaddress_of(register, channel)],
        received: seq![value],
        ok: true,
    }
}

/// The data byte that the `i`-th transfer of `ts` wrote.
pub open spec fn written_value(ts: Seq<Transfer>, i: int) -> u8 {
    match ts[i] {
        Transfer::Write { bytes, .. } => bytes[1],
        _ => 0,
    }
}

/// A read of `register` of `channel` that the transport reported as failed;
/// `value` is what the buffer held afterwards.
pub open spec fn failed_read(address: u8, channel: Channel, register: u8, value: u8) -> Transfer {
    Transfer::WriteRead {
        address,
        bytes: seq![subaddress_of(register, channel)],
        received: seq![value],
        ok: false,
    }
}

/// A write of `value` to `register` of `channel` that the transport reported
/// as failed.
pub open spec fn failed_write(address: u8, channel: Channel, register: u8, value: u8) -> Transfer {
    Transfer::Write { address, bytes: seq![subaddress_of(register, channel), value], ok: false }
}

/// A successful write of `value` to `register` of `channel`.
pub open spec fn register_write(address: u8, channel: Channel, register: u8, value: u8) -> Transfer {
    Transfer::Write { address, bytes: seq![subaddress_of(register, channel), value], ok: true }
}

/// `after` extends `before` by transfers of which only the last failed: the
/// work stopped at the first failure.
pub open spec fn ends_in_failure(before: Seq<Transfer>, after: Seq<Transfer>) -> bool {
    &&& before.len() < after.len()
    &&& forall|i: int| 0 <= i < before.len() ==> after[i] == before[i]
    &&& forall|i: int| before.len() <= i < after.len() - 1 ==> after[i].succeeded()
    &&& !after.last().succeeded()
}

/// Whether a line status value says the transmit holding register is empty.
pub open spec fn tx_empty(status: u8) -> bool {
    status & 0x20 != 0
}

/// The bytes written to the data register of `channel` in `ts`, in order.
pub open spec fn data_written(ts: Seq<Transfer>, address: u8, channel: Channel) -> Seq<u8>
    decreases ts.len(),
{
    if ts.len() == 0 {
        seq![]
    } else {
        let rest = data_written(ts.drop_last(), address, channel);
        match ts.last() {
            Transfer::Write { address: a, bytes, ok } => if a == address && ok && bytes.len() == 2
                && bytes[0] == subaddress_of(THR_RHR, channel) {
                rest.push(bytes[1])
            } else {
                rest
            },
            _ => rest,
        }
    }
}

/// The bytes read from the data register of `channel` in `ts`, in order.
pub open spec fn data_read(ts: Seq<Transfer>, address: u8, channel: Channel) -> Seq<u8>
    decreases ts.len(),
{
    if ts.len() == 0 {
        seq![]
    } else {
        let rest = data_read(ts.drop_last(), address, channel);
        match ts.last() {
            Transfer::WriteRead { address: a, bytes, received, ok } => if a == address && ok
                && bytes.len() == 1 && bytes[0] == subaddress_of(THR_RHR, channel) && received.len() == 1 {
                rest.push(received[0])
            } else {
                rest
            },
            _ => rest,
        }
    }
}

/// `after` extends `before` by transfers that all went through.
pub open spec fn succeeded_since(before: Seq<Transfer>, after: Seq<Transfer>) -> bool {
    &&& before.len() <= after.len()
    &&& forall|i: int| 0 <= i < before.len() ==> after[i] == before[i]
    &&& forall|i: int| before.len() <= i < after.len() ==> after[i].succeeded()
}

/// Work that went through up to `mid` and then stopped at a failure stopped
/// at its first failure.
pub proof fn lemma_failure_after_success(
    before: Seq<Transfer>,
    mid: Seq<Transfer>,
    after: Seq<Transfer>,
)
    requires
        succeeded_since(before, mid),
        ends_in_failure(mid, after),
    ensures
        ends_in_failure(before, after),
{
}

/// Appending a transfer adds to the data written only when it writes the
/// data register.
pub proof fn lemma_data_push(ts: Seq<Transfer>, t: Transfer, address: u8, channel: Channel)
    ensures
        data_written(ts.push(t), address, channel) == match t {
            Transfer::Write { address: a, bytes, ok } => if a == address && ok && bytes.len() == 2
                && bytes[0] == subaddress_of(THR_RHR, channel) {
                data_written(ts, address, channel).push(bytes[1])
            } else {
                data_written(ts, address, channel)
            },
            _ => data_written(ts, address, channel),
        },
        data_read(ts.push(t), address, channel) == match t {
            Transfer::WriteRead { address: a, bytes, received, ok } => if a == address && ok
                && bytes.len() == 1 && bytes[0] == subaddress_of(THR_RHR, channel) && received.len() == 1 {
                data_read(ts, address, channel).push(received[0])
            } else {
                data_read(ts, address, channel)
            },
            _ => data_read(ts, address, channel),
        },
{
    assert(ts.push(t).drop_last() =~= ts);
}

} // verus!
