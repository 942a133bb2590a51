//! Legacy-device state: the register and FIFO state of the COM1 and COM2 UARTs.
//!
//! Wire format of one UART:
//!
//! ```text
//! [u8]  baud_divisor_low, [u8] baud_divisor_high
//! [u8]  interrupt_enable, [u8] interrupt_identification
//! [u8]  line_control, [u8] line_status
//! [u8]  modem_control, [u8] modem_status
//! [u8]  scratch
//! [u32] in_buffer_len (little-endian), [bytes] in_buffer
//! ```
use vstd::prelude::*;

use crate::wire;

verus! {

broadcast use wire::field_widths;

/// Register and receive-FIFO state of a UART.
#[derive(Debug, Clone, PartialEq, Eq)]
pub struct SerialState {
    pub baud_divisor_low: u8,
    pub baud_divisor_high: u8,
    pub interrupt_enable: u8,
    pub interrupt_identification: u8,
    pub line_control: u8,
    pub line_status: u8,
    pub modem_control: u8,
    pub modem_status: u8,
    pub scratch: u8,
    pub in_buffer: Vec<u8>,
}

/// Encoded UART states. An empty blob means "not captured".
#[derive(Debug, Clone)]
pub struct LegacyDeviceState {
    /// Encoded COM1 state, or empty.
    pub com1: Vec<u8>,
    /// Encoded COM2 state, or empty.
    pub com2: Vec<u8>,
}

/// What a UART state says: the nine registers in wire order, and the FIFO.
pub struct Uart {
    pub registers: Seq<u8>,
    pub in_buffer: Seq<u8>,
}

/// Why a UART blob was refused.
#[derive(Debug, Clone, Copy, PartialEq, Eq, Structural)]
pub enum SerialStateError {
    /// The blob ends inside the fixed part.
    TooShort { have: usize },
    /// The FIFO length is over the limit.
    TooLarge { len: usize },
    /// The blob ends inside the FIFO.
    Truncated { have: usize, need: usize },
}

/// Length of an encoded state with an empty FIFO.
pub const SERIAL_STATE_HEADER_LEN: usize = 13;

/// Largest FIFO that is accepted.
pub const MAX_FIFO_LEN: usize = 65536;

impl View for SerialState {
    type V = Uart;

    open spec fn view(&self) -> Uart {
        Uart {
            registers: seq![
                self.baud_divisor_low,
                self.baud_divisor_high,
                self.interrupt_enable,
                self.interrupt_identification,
                self.line_control,
                self.line_status,
                self.modem_control,
                self.modem_status,
                self.scratch,
            ],
            in_buffer: self.in_buffer@,
        }
    }
}

impl View for LegacyDeviceState {
    type V = Seq<Seq<u8>>;

    /// The two blobs in file order.
    open spec fn view(&self) -> Seq<Seq<u8>> {
        seq![self.com1@, self.com2@]
    }
}

impl SerialState {
    /// A state to fill in: every register zero, and the FIFO empty. It is not the state of a UART
    /// after a reset, which its emulation knows.
    pub fn cleared() -> (r: Self)
        ensures
            r@.registers == wire::zeros(9),
            r@.in_buffer == Seq::<u8>::empty(),
    {
        let r = SerialState {
            baud_divisor_low: 0,
            baud_divisor_high: 0,
            interrupt_enable: 0,
            interrupt_identification: 0,
            line_control: 0,
            line_status: 0,
            modem_control: 0,
            modem_status: 0,
            scratch: 0,
            in_buffer: Vec::new(),
        };
        assert(r@.registers =~= wire::zeros(9));
        r
    }
}

impl Default for LegacyDeviceState {
    fn default() -> (r: Self)
        ensures
            r@ == seq![Seq::<u8>::empty(), Seq::<u8>::empty()],
    {
        LegacyDeviceState { com1: Vec::new(), com2: Vec::new() }
    }
}

/// The wire form of a UART state.
pub open spec fn serial_bytes(s: Uart) -> Seq<u8> {
    s.registers + wire::blob(s.in_buffer)
}

/// What a UART blob says: nothing, a state, or why it is refused.
pub open spec fn parse_serial(b: Seq<u8>) -> Result<Option<Uart>, SerialStateError> {
    let len = wire::at32(b, 9);
    if b.len() == 0 {
        Ok(None)
    } else if b.len() < 13 {
        Err(SerialStateError::TooShort { have: b.len() as usize })
    } else if len > 65536 {
        Err(SerialStateError::TooLarge { len: len as usize })
    } else if b.len() < 13 + len {
        Err(SerialStateError::Truncated { have: b.len() as usize, need: (13 + len) as usize })
    } else {
        Ok(Some(Uart { registers: b.subrange(0, 9), in_buffer: b.subrange(13, 13 + len) }))
    }
}

/// The wire form of `state`.
pub fn encode_serial_state(state: &SerialState) -> (r: Vec<u8>)
    ensures
        r@ == serial_bytes(state@),
        r@.len() == 13 + state.in_buffer@.len(),
        r@[0] == state.baud_divisor_low && r@[1] == state.baud_divisor_high,
        r@[2] == state.interrupt_enable && r@[3] == state.interrupt_identification,
        r@[4] == state.line_control && r@[5] == state.line_status,
        r@[6] == state.modem_control && r@[7] == state.modem_status && r@[8] == state.scratch,
        r@.skip(13) == state.in_buffer@,
{
    let mut buf: Vec<u8> = Vec::new();
    buf.push(state.baud_divisor_low);
    buf.push(state.baud_divisor_high);
    buf.push(state.interrupt_enable);
    buf.push(state.interrupt_identification);
    buf.push(state.line_control);
    buf.push(state.line_status);
    buf.push(state.modem_control);
    buf.push(state.modem_status);
    buf.push(state.scratch);
    assert(buf@ =~= state@.registers);
    wire::put_u32(&mut buf, wire::length_field(state.in_buffer.len()));
    wire::put_bytes(&mut buf, state.in_buffer.as_slice());
    assert(buf@ =~= serial_bytes(state@));
    assert(buf@.skip(13) =~= state.in_buffer@);
    buf
}

/// The state that `bytes` encode: `None` for an empty blob.
pub fn decode_serial_state(bytes: &[u8]) -> (r: Result<Option<SerialState>, SerialStateError>)
    ensures
        match parse_serial(bytes@) {
            Ok(Some(state)) => r matches Ok(Some(s)) && s@ == state,
            Ok(None) => r matches Ok(None),
            Err(e) => r == Err::<Option<SerialState>, SerialStateError>(e),
        },
        r == Ok::<Option<SerialState>, SerialStateError>(None) <==> bytes@.len() == 0,
        r matches Ok(Some(s)) ==> {
            &&& s.baud_divisor_low == bytes@[0] && s.baud_divisor_high == bytes@[1]
            &&& s.interrupt_enable == bytes@[2] && s.interrupt_identification == bytes@[3]
            &&& s.line_control == bytes@[4] && s.line_status == bytes@[5]
            &&& s.modem_control == bytes@[6] && s.modem_status == bytes@[7]
            &&& s.scratch == bytes@[8]
            &&& s.in_buffer@.len() == wire::at32(bytes@, 9)
            &&& forall|i: int|
                0 <= i < s.in_buffer@.len() ==> #[trigger] s.in_buffer@[i] == bytes@[13 + i]
        },
{
    if bytes.len() == 0 {
        return Ok(None);
    }
    if bytes.len() < SERIAL_STATE_HEADER_LEN {
        return Err(SerialStateError::TooShort { have: bytes.len() });
    }
    let len: usize = wire::get_u32(bytes, 9) as usize;
    if len > MAX_FIFO_LEN {
        return Err(SerialStateError::TooLarge { len });
    }
    if bytes.len() < SERIAL_STATE_HEADER_LEN + len {
        return Err(
            SerialStateError::Truncated { have: bytes.len(), need: SERIAL_STATE_HEADER_LEN + len },
        );
    }
    let state = SerialState {
        baud_divisor_low: bytes[0],
        baud_divisor_high: bytes[1],
        interrupt_enable: bytes[2],
        interrupt_identification: bytes[3],
        line_control: bytes[4],
        line_status: bytes[5],
        modem_control: bytes[6],
        modem_status: bytes[7],
        scratch: bytes[8],
        in_buffer: wire::get_bytes(bytes, SERIAL_STATE_HEADER_LEN, len),
    };
    assert(state@.registers =~= bytes@.subrange(0, 9));
    Ok(Some(state))
}

/// Decoding gives back what was encoded, for every FIFO within the limit.
pub proof fn law_serial_decode_undoes_encode(s: Uart)
    requires
        s.registers.len() == 9,
        s.in_buffer.len() <= MAX_FIFO_LEN,
    ensures
        parse_serial(serial_bytes(s)) == Ok::<Option<Uart>, SerialStateError>(Some(s)),
{
    let b = serial_bytes(s);
    let n = wire::len32(s.in_buffer.len());
    wire::lemma_whole(b);
    wire::lemma_split(b, 0, s.registers, wire::blob(s.in_buffer));
    wire::lemma_split(b, 9, wire::le32(n), s.in_buffer);
    wire::lemma_bytes(b, 0, s.registers);
    wire::lemma_le32(b, 9, n);
    wire::lemma_bytes(b, 13, s.in_buffer);
}

/// A FIFO over the limit is refused: encoding does not check it, decoding does.
pub proof fn law_serial_oversize_is_refused(s: Uart)
    requires
        s.registers.len() == 9,
        MAX_FIFO_LEN < s.in_buffer.len() <= u32::MAX,
    ensures
        parse_serial(serial_bytes(s)) == Err::<Option<Uart>, SerialStateError>(
            SerialStateError::TooLarge { len: s.in_buffer.len() as usize },
        ),
{
    let b = serial_bytes(s);
    let n = wire::len32(s.in_buffer.len());
    wire::lemma_whole(b);
    wire::lemma_split(b, 0, s.registers, wire::blob(s.in_buffer));
    wire::lemma_split(b, 9, wire::le32(n), s.in_buffer);
    wire::lemma_le32(b, 9, n);
}

/// Which blobs are read and which are refused: with nothing in them, as nothing; with less than
/// the registers and the length, as too short; with a length over the limit or over what is there,
/// for it; and any other as a state, whatever its registers are and whatever follows the FIFO.
pub proof fn law_serial_blobs(b: Seq<u8>)
    ensures
        ({
            let r = parse_serial(b);
            let len = b[9] + 256 * b[10] + 65536 * b[11] + 16777216 * b[12];
            &&& r == Ok::<Option<Uart>, SerialStateError>(None) <==> b.len() == 0
            &&& 0 < b.len() < 13 ==> r == Err::<Option<Uart>, SerialStateError>(
                SerialStateError::TooShort { have: b.len() as usize },
            )
            &&& b.len() >= 13 && len > 65536 ==> r == Err::<Option<Uart>, SerialStateError>(
                SerialStateError::TooLarge { len: len as usize },
            )
            &&& 13 <= b.len() < 13 + len && len <= 65536 ==> r == Err::<
                Option<Uart>,
                SerialStateError,
            >(SerialStateError::Truncated { have: b.len() as usize, need: (13 + len) as usize })
            &&& b.len() >= 13 + len && b.len() >= 13 && len <= 65536 ==> r == Ok::<
                Option<Uart>,
                SerialStateError,
            >(Some(Uart { registers: b.take(9), in_buffer: b.skip(13).take(len) }))
        }),
{
    let len = b[9] + 256 * b[10] + 65536 * b[11] + 16777216 * b[12];
    if b.len() >= 13 {
        wire::law_reading_is_little_endian(b, 9);
        if len <= 65536 && b.len() >= 13 + len {
            assert(b.subrange(0, 9) =~= b.take(9));
            assert(b.subrange(13, 13 + len) =~= b.skip(13).take(len));
        }
    }
}

/// What an encoded UART looks like: the nine registers in order, the length of the FIFO lowest byte
/// first, and the FIFO.
pub proof fn law_serial_bytes(s: SerialState)
    ensures
        ({
            let b = serial_bytes(s@);
            &&& b.take(9) == seq![
                s.baud_divisor_low,
                s.baud_divisor_high,
                s.interrupt_enable,
                s.interrupt_identification,
                s.line_control,
                s.line_status,
                s.modem_control,
                s.modem_status,
                s.scratch,
            ]
            &&& b[9] + 256 * b[10] + 65536 * b[11] + 16777216 * b[12] == s.in_buffer@.len()
                % 0x1_0000_0000
            &&& b.skip(13) == s.in_buffer@
        }),
{
    let b = serial_bytes(s@);
    wire::law_blob_is_length_and_bytes(s.in_buffer@);
    assert(b.take(9) =~= s@.registers);
    assert(b.skip(13) =~= s.in_buffer@);
}

} // verus!
