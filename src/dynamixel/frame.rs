//! Building command frames.

use vstd::prelude::*;

use super::address;
use super::crc::{crc16, crc_of};
use super::instruction;
use super::BROADCAST_ID;

verus! {

/// Little-endian bytes of a 16-bit value.
pub open spec fn le16(v: u16) -> Seq<u8> {
    seq![v as u8, (v >> 8u16) as u8]
}

/// Little-endian bytes of a 32-bit value, in two's complement.
pub open spec fn le32(v: i32) -> Seq<u8> {
    let u = v as u32;
    seq![u as u8, (u >> 8u32) as u8, (u >> 16u32) as u8, (u >> 24u32) as u8]
}

/// The magic bytes that open every frame.
pub open spec fn header() -> Seq<u8> {
    seq![0xFFu8, 0xFFu8, 0xFDu8, 0x00u8]
}

/// Every byte of a frame but its checksum.
pub open spec fn frame_body(id: u8, instr: u8, params: Seq<u8>) -> Seq<u8> {
    header() + seq![id] + le16((params.len() + 3) as u16) + seq![instr] + params
}

/// A complete frame: the body followed by its checksum, low byte first.
pub open spec fn frame(id: u8, instr: u8, params: Seq<u8>) -> Seq<u8> {
    let body = frame_body(id, instr, params);
    body + le16(crc_of(body))
}

/// Parameters of a read: start address, then the number of bytes to read.
pub open spec fn read_params(addr: u16, length: u16) -> Seq<u8> {
    le16(addr) + le16(length)
}

/// The (id, value) records of a one-byte sync write over the first `n` ids.
pub open spec fn byte_entries(ids: Seq<u8>, val: u8, n: int) -> Seq<u8>
    decreases n,
{
    if n <= 0 {
        seq![]
    } else {
        byte_entries(ids, val, n - 1) + seq![ids[n - 1], val]
    }
}

/// The (id, value) records of a four-byte sync write over the first `n` ids.
pub open spec fn position_entries(ids: Seq<u8>, positions: Seq<i32>, n: int) -> Seq<u8>
    decreases n,
{
    if n <= 0 {
        seq![]
    } else {
        position_entries(ids, positions, n - 1) + seq![ids[n - 1]] + le32(positions[n - 1])
    }
}

/// Accumulates the bytes of one frame.
struct PacketBuilder {
    buf: Vec<u8>,
}

impl PacketBuilder {
    /// Starts a frame for `id`: the header and the id.
    fn new(id: u8) -> (b: Self)
        ensures
            b.buf@ == header() + seq![id],
    {
        let mut buf: Vec<u8> = Vec::new();
        buf.push(0xFF);
        buf.push(0xFF);
        buf.push(0xFD);
        buf.push(0x00);
        buf.push(id);
        proof {
            assert(buf@ =~= header() + seq![id]);
        }
        PacketBuilder { buf }
    }

    /// Appends the length field for `param_len` parameter bytes, then the
    /// instruction code.
    fn instruction(&mut self, instr: u8, param_len: u16)
        requires
            param_len + 3 <= u16::MAX,
        ensures
            final(self).buf@ == old(self).buf@ + le16((param_len + 3) as u16) + seq![instr],
    {
        let len: u16 = param_len + 3;
        self.u16_le(len);
        self.u8(instr);
    }

    fn u8(&mut self, val: u8)
        ensures
            final(self).buf@ == old(self).buf@.push(val),
    {
        self.buf.push(val);
    }

    fn u16_le(&mut self, val: u16)
        ensures
            final(self).buf@ == old(self).buf@ + le16(val),
    {
        self.buf.push(val as u8);
        self.buf.push((val >> 8u16) as u8);
        proof {
            assert(final(self).buf@ =~= old(self).buf@ + le16(val));
        }
    }

    fn i32_le(&mut self, val: i32)
        ensures
            final(self).buf@ == old(self).buf@ + le32(val),
    {
        let u = val as u32;
        self.buf.push(u as u8);
        self.buf.push((u >> 8u32) as u8);
        self.buf.push((u >> 16u32) as u8);
        self.buf.push((u >> 24u32) as u8);
        proof {
            assert(final(self).buf@ =~= old(self).buf@ + le32(val));
        }
    }

    fn bytes(&mut self, data: &[u8])
        ensures
            final(self).buf@ == old(self).buf@ + data@,
    {
        let ghost start = self.buf@;
        let mut i: usize = 0;
        while i < data.len()
            invariant
                i <= data@.len(),
                self.buf@ == start + data@.subrange(0, i as int),
            decreases data@.len() - i,
        {
            self.buf.push(data[i]);
            i = i + 1;
            proof {
                assert(self.buf@ =~= start + data@.subrange(0, i as int));
            }
        }
        proof {
            assert(data@.subrange(0, data@.len() as int) =~= data@);
        }
    }

    /// Appends the checksum of everything so far and hands the frame out.
    fn build(self) -> (r: Vec<u8>)
        ensures
            r@ == self.buf@ + le16(crc_of(self.buf@)),
    {
        let mut buf = self.buf;
        let crc = crc16(buf.as_slice());
        buf.push(crc as u8);
        buf.push((crc >> 8u16) as u8);
        proof {
            assert(buf@ =~= self.buf@ + le16(crc_of(self.buf@)));
        }
        buf
    }
}

/// READ frame for one actuator: `length` bytes from control-table address
/// `addr`. Always 14 bytes.
pub fn build_read_packet(motor_id: u8, addr: u16, length: u16) -> (r: Vec<u8>)
    ensures
        r@ == frame(motor_id, instruction::READ, read_params(addr, length)),
        r@.len() == 14,
{
    let mut b = PacketBuilder::new(motor_id);
    b.instruction(instruction::READ, 4);
    b.u16_le(addr);
    b.u16_le(length);
    proof {
        assert(b.buf@ =~= frame_body(motor_id, instruction::READ, read_params(addr, length)));
    }
    b.build()
}

/// REBOOT frame for one actuator. Always 10 bytes.
pub fn build_reboot_packet(motor_id: u8) -> (r: Vec<u8>)
    ensures
        r@ == frame(motor_id, instruction::REBOOT, seq![]),
        r@.len() == 10,
{
    let mut b = PacketBuilder::new(motor_id);
    b.instruction(instruction::REBOOT, 0);
    proof {
        assert(b.buf@ =~= frame_body(motor_id, instruction::REBOOT, seq![]));
    }
    b.build()
}

/// SYNC_READ frame, sent to every actuator: the listed actuators each reply
/// with `length` bytes from address `addr`.
pub fn build_sync_read(addr: u16, length: u16, motor_ids: &[u8]) -> (r: Vec<u8>)
    requires
        motor_ids@.len() + 7 <= u16::MAX,
    ensures
        r@ == frame(BROADCAST_ID, instruction::SYNC_READ, read_params(addr, length) + motor_ids@),
        r@.len() == motor_ids@.len() + 14,
{
    let param_len: u16 = 4 + motor_ids.len() as u16;
    let mut b = PacketBuilder::new(BROADCAST_ID);
    b.instruction(instruction::SYNC_READ, param_len);
    b.u16_le(addr);
    b.u16_le(length);
    b.bytes(motor_ids);
    proof {
        assert(b.buf@ =~= frame_body(
            BROADCAST_ID,
            instruction::SYNC_READ,
            read_params(addr, length) + motor_ids@,
        ));
    }
    b.build()
}

/// SYNC_READ of the present position (4 bytes) of the listed actuators.
pub fn build_sync_current_position(motor_ids: &[u8]) -> (r: Vec<u8>)
    requires
        motor_ids@.len() + 7 <= u16::MAX,
    ensures
        r@ == frame(
            BROADCAST_ID,
            instruction::SYNC_READ,
            read_params(address::PRESENT_POSITION, 4) + motor_ids@,
        ),
{
    build_sync_read(address::PRESENT_POSITION, 4, motor_ids)
}

/// SYNC_READ of the present temperature (1 byte) of the listed actuators.
pub fn build_sync_read_temperature(motor_ids: &[u8]) -> (r: Vec<u8>)
    requires
        motor_ids@.len() + 7 <= u16::MAX,
    ensures
        r@ == frame(
            BROADCAST_ID,
            instruction::SYNC_READ,
            read_params(address::PRESENT_TEMPERATURE, 1) + motor_ids@,
        ),
{
    build_sync_read(address::PRESENT_TEMPERATURE, 1, motor_ids)
}

/// SYNC_READ of the present load (2 bytes, signed) of the listed actuators.
pub fn build_sync_read_load(motor_ids: &[u8]) -> (r: Vec<u8>)
    requires
        motor_ids@.len() + 7 <= u16::MAX,
    ensures
        r@ == frame(
            BROADCAST_ID,
            instruction::SYNC_READ,
            read_params(address::PRESENT_LOAD, 2) + motor_ids@,
        ),
{
    build_sync_read(address::PRESENT_LOAD, 2, motor_ids)
}

/// SYNC_READ of the hardware error status (1 byte) of the listed actuators.
pub fn build_sync_read_hardware_error(motor_ids: &[u8]) -> (r: Vec<u8>)
    requires
        motor_ids@.len() + 7 <= u16::MAX,
    ensures
        r@ == frame(
            BROADCAST_ID,
            instruction::SYNC_READ,
            read_params(address::HARDWARE_ERROR_STATUS, 1) + motor_ids@,
        ),
{
    build_sync_read(address::HARDWARE_ERROR_STATUS, 1, motor_ids)
}

/// SYNC_WRITE of torque enable (1 byte: 1 on, 0 off) to the listed actuators.
pub fn build_sync_write_torque(motor_ids: &[u8], enable: bool) -> (r: Vec<u8>)
    requires
        2 * motor_ids@.len() + 7 <= u16::MAX,
    ensures
        r@ == frame(
            BROADCAST_ID,
            instruction::SYNC_WRITE,
            read_params(address::TORQUE_ENABLE, 1) + byte_entries(
                motor_ids@,
                if enable { 1u8 } else { 0u8 },
                motor_ids@.len() as int,
            ),
        ),
        r@.len() == 2 * motor_ids@.len() + 14,
{
    let n = motor_ids.len();
    let param_len: u16 = 4 + 2 * n as u16;
    let val: u8 = if enable { 1 } else { 0 };
    let mut b = PacketBuilder::new(BROADCAST_ID);
    b.instruction(instruction::SYNC_WRITE, param_len);
    b.u16_le(address::TORQUE_ENABLE);
    b.u16_le(1);
    let ghost start = b.buf@;
    let mut i: usize = 0;
    while i < n
        invariant
            n == motor_ids@.len(),
            i <= n,
            b.buf@ == start + byte_entries(motor_ids@, val, i as int),
            byte_entries(motor_ids@, val, i as int).len() == 2 * i,
        decreases n - i,
    {
        b.u8(motor_ids[i]);
        b.u8(val);
        i = i + 1;
        proof {
            assert(b.buf@ =~= start + byte_entries(motor_ids@, val, i as int));
        }
    }
    proof {
        assert(b.buf@ =~= frame_body(
            BROADCAST_ID,
            instruction::SYNC_WRITE,
            read_params(address::TORQUE_ENABLE, 1) + byte_entries(motor_ids@, val, n as int),
        ));
    }
    b.build()
}

/// SYNC_WRITE of goal positions (4 bytes, signed ticks): `positions[i]` goes
/// to `motor_ids[i]`.
pub fn build_sync_write_position(motor_ids: &[u8], positions: &[i32]) -> (r: Vec<u8>)
    requires
        motor_ids@.len() == positions@.len(),
        5 * motor_ids@.len() + 7 <= u16::MAX,
    ensures
        r@ == frame(
            BROADCAST_ID,
            instruction::SYNC_WRITE,
            read_params(address::GOAL_POSITION, 4) + position_entries(
                motor_ids@,
                positions@,
                motor_ids@.len() as int,
            ),
        ),
        r@.len() == 5 * motor_ids@.len() + 14,
{
    let n = motor_ids.len();
    let param_len: u16 = 4 + 5 * n as u16;
    let mut b = PacketBuilder::new(BROADCAST_ID);
    b.instruction(instruction::SYNC_WRITE, param_len);
    b.u16_le(address::GOAL_POSITION);
    b.u16_le(4);
    let ghost start = b.buf@;
    let mut i: usize = 0;
    while i < n
        invariant
            n == motor_ids@.len(),
            n == positions@.len(),
            i <= n,
            b.buf@ == start + position_entries(motor_ids@, positions@, i as int),
            position_entries(motor_ids@, positions@, i as int).len() == 5 * i,
        decreases n - i,
    {
        b.u8(motor_ids[i]);
        b.i32_le(positions[i]);
        i = i + 1;
        proof {
            assert(b.buf@ =~= start + position_entries(motor_ids@, positions@, i as int));
        }
    }
    proof {
        assert(b.buf@ =~= frame_body(
            BROADCAST_ID,
            instruction::SYNC_WRITE,
            read_params(address::GOAL_POSITION, 4) + position_entries(
                motor_ids@,
                positions@,
                n as int,
            ),
        ));
    }
    b.build()
}

/// The two bytes of `le16(v)` are `v`'s low and high byte.
pub proof fn lemma_le16_value(v: u16)
    ensures
        le16(v).len() == 2,
        le16(v)[0] as int + 256 * (le16(v)[1] as int) == v as int,
{
    assert((v as u8) as u16 == v % 256) by (bit_vector);
    assert(((v >> 8u16) as u8) as u16 == v / 256) by (bit_vector);
}

/// Byte layout of every frame: the magic header, the id, the length field
/// (parameter count plus 3, low byte first), the instruction, the parameters,
/// and last the checksum of all the bytes before it, low byte first.
pub proof fn lemma_frame_layout(id: u8, instr: u8, params: Seq<u8>)
    requires
        params.len() + 3 <= u16::MAX,
    ensures
        ({
            let f = frame(id, instr, params);
            let n = params.len() as int;
            &&& f.len() == n + 10
            &&& f.subrange(0, 4) == seq![0xFFu8, 0xFFu8, 0xFDu8, 0x00u8]
            &&& f[4] == id
            &&& f[5] as int + 256 * (f[6] as int) == n + 3
            &&& f[7] == instr
            &&& f.subrange(8, 8 + n) == params
            &&& f[8 + n] as int + 256 * (f[9 + n] as int) == crc_of(f.subrange(0, 8 + n)) as int
        }),
{
    let body = frame_body(id, instr, params);
    let f = frame(id, instr, params);
    let n = params.len() as int;
    lemma_le16_value((params.len() + 3) as u16);
    lemma_le16_value(crc_of(body));
    assert(f.subrange(0, 4) =~= seq![0xFFu8, 0xFFu8, 0xFDu8, 0x00u8]);
    assert(f.subrange(8, 8 + n) =~= params);
    assert(f.subrange(0, 8 + n) =~= body);
}

} // verus!
