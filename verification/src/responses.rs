//! Incoming responses: typed decoders over a received frame's payload.

use vstd::prelude::*;

verus! {

/// Why a payload failed to decode as the attempted response variant.
#[derive(Debug, PartialEq, Eq, Structural)]
pub enum ResponseError {
    IdError,
    SizeIncorrectError,
    EnumComparisonError,
}

/// An incoming message that can be decoded from a received frame's
/// payload. Callers probe `respond_to` with the payload's first byte
/// before committing to `parse`.
pub trait Response<'a>: Sized {
    /// Whether payloads led by identifier byte `id` belong to this
    /// variant.
    spec fn spec_respond_to(id: u8) -> bool;

    /// The exact decoding contract: which result `parse` returns for
    /// each input payload.
    spec fn parse_result(buffer: Seq<u8>, r: Result<Self, ResponseError>) -> bool;

    /// Cheap identifier check, no allocation.
    fn respond_to(id: u8) -> (r: bool)
        ensures
            r == Self::spec_respond_to(id),
    ;

    /// Decode a received frame's payload into this variant.
    fn parse(buffer: &'a [u8]) -> (r: Result<Self, ResponseError>)
        ensures
            Self::parse_result(buffer@, r),
    ;
}

pub const AT_COMMAND_RESPONSE_ID: u8 = 0x88;

/// Status code carried by an AT command response.
#[derive(Debug)]
pub enum AtCommandResponseStatus {
    Success,
    Error,
    InvalidCommand,
    InvalidParameter,
    TxFailure,
}

/// The status code a byte decodes to: the five codes 0 through 4 in
/// order, anything else an `EnumComparisonError`.
pub open spec fn spec_status_from(value: u8) -> Result<AtCommandResponseStatus, ResponseError> {
    if value == 0 {
        Ok(AtCommandResponseStatus::Success)
    } else if value == 1 {
        Ok(AtCommandResponseStatus::Error)
    } else if value == 2 {
        Ok(AtCommandResponseStatus::InvalidCommand)
    } else if value == 3 {
        Ok(AtCommandResponseStatus::InvalidParameter)
    } else if value == 4 {
        Ok(AtCommandResponseStatus::TxFailure)
    } else {
        Err(ResponseError::EnumComparisonError)
    }
}

impl AtCommandResponseStatus {
    /// Decode a status byte into its status code.
    pub fn try_from(value: u8) -> (r: Result<AtCommandResponseStatus, ResponseError>)
        ensures
            r == spec_status_from(value),
    {
        match value {
            0 => Ok(AtCommandResponseStatus::Success),
            1 => Ok(AtCommandResponseStatus::Error),
            2 => Ok(AtCommandResponseStatus::InvalidCommand),
            3 => Ok(AtCommandResponseStatus::InvalidParameter),
            4 => Ok(AtCommandResponseStatus::TxFailure),
            _ => Err(ResponseError::EnumComparisonError),
        }
    }
}

/// The module's answer to an AT command: the echoed command letters, a
/// status code, and optionally one byte of returned data.
#[derive(Debug)]
pub struct AtCommandResponse {
    pub frame_id: u8,
    pub at_command: [u8; 2],
    pub command_status: AtCommandResponseStatus,
    pub command_data: Option<u8>,
}

impl<'a> Response<'a> for AtCommandResponse {
    open spec fn spec_respond_to(id: u8) -> bool {
        id == AT_COMMAND_RESPONSE_ID
    }

    /// Valid payloads are 5 or 6 bytes led by the variant's identifier,
    /// with a recognized status code in the fifth byte; the sixth byte,
    /// when present, is the returned data byte.
    open spec fn parse_result(buffer: Seq<u8>, r: Result<Self, ResponseError>) -> bool {
        if buffer.len() < 5 || buffer.len() > 6 {
            r == Err::<Self, ResponseError>(ResponseError::SizeIncorrectError)
        } else if buffer[0] != AT_COMMAND_RESPONSE_ID {
            r == Err::<Self, ResponseError>(ResponseError::IdError)
        } else {
            match spec_status_from(buffer[4]) {
                Err(e) => r == Err::<Self, ResponseError>(e),
                Ok(status) => r matches Ok(p) && {
                    &&& p.frame_id == buffer[1]
                    &&& p.at_command@ == seq![buffer[2], buffer[3]]
                    &&& p.command_status == status
                    &&& p.command_data == (if buffer.len() == 6 {
                        Some(buffer[5])
                    } else {
                        None::<u8>
                    })
                },
            }
        }
    }

    fn respond_to(id: u8) -> (r: bool) {
        AT_COMMAND_RESPONSE_ID == id
    }

    fn parse(buffer: &'a [u8]) -> (r: Result<Self, ResponseError>) {
        if buffer.len() < 5 || buffer.len() > 6 {
            return Err(ResponseError::SizeIncorrectError);
        }
        if buffer[0] != AT_COMMAND_RESPONSE_ID {
            return Err(ResponseError::IdError);
        }

        let frame_id = buffer[1];
        let at_command = [buffer[2], buffer[3]];

        let command_status = match AtCommandResponseStatus::try_from(buffer[4]) {
            Ok(status) => status,
            Err(error) => {
                return Err(error);
            },
        };

        let command_data = if buffer.len() == 6 {
            Some(buffer[5])
        } else {
            None
        };

        proof {
            assert(at_command@ =~= seq![buffer@[2], buffer@[3]]);
        }
        Ok(AtCommandResponse { frame_id, at_command, command_status, command_data })
    }
}

pub const ZIGBEE_RECEIVE_PACKET_ID: u8 = 0x90;

/// The big-endian integer value of a byte sequence.
pub open spec fn be_int(s: Seq<u8>) -> int
    decreases s.len(),
{
    if s.len() == 0 {
        0
    } else {
        be_int(s.drop_last()) * 256 + s.last()
    }
}

/// 256 raised to the `n`th power.
spec fn pow256(n: nat) -> int
    decreases n,
{
    if n == 0 {
        1
    } else {
        256 * pow256((n - 1) as nat)
    }
}

proof fn lemma_pow256_pos(n: nat)
    ensures
        1 <= pow256(n),
    decreases n,
{
    if n > 0 {
        lemma_pow256_pos((n - 1) as nat);
    }
}

proof fn lemma_pow256_monotonic(a: nat, b: nat)
    requires
        a <= b,
    ensures
        pow256(a) <= pow256(b),
    decreases b,
{
    if a < b {
        lemma_pow256_monotonic(a, (b - 1) as nat);
        lemma_pow256_pos((b - 1) as nat);
    }
}

/// Read the first eight bytes of `buffer` as one big-endian 64-bit value.
fn buffer_to_u64(buffer: &[u8]) -> (output: u64)
    requires
        buffer@.len() >= 8,
    ensures
        output as int == be_int(buffer@.take(8)),
{
    let mut output: u64 = 0;
    let mut x: usize = 0;
    while x < 8
        invariant
            x <= 8,
            buffer@.len() >= 8,
            output as int == be_int(buffer@.take(x as int)),
            (output as int) < pow256(x as nat),
        decreases 8 - x,
    {
        proof {
            assert(buffer@.take(x as int + 1).drop_last() =~= buffer@.take(x as int));
            assert(pow256(x as nat + 1) == 256 * pow256(x as nat));
            lemma_pow256_monotonic(x as nat + 1, 8);
            reveal_with_fuel(pow256, 9);
            assert(pow256(8) == 0x1_0000_0000_0000_0000);
        }
        output = output * 256 + buffer[x] as u64;
        x = x + 1;
    }
    output
}

/// Data received from another module on the network: the sender's
/// addresses, four delivery flags, and the transmitted bytes, borrowed
/// from the tail of the input payload.
#[derive(Debug)]
pub struct ZigbeeReceivePacket<'a> {
    pub destination: u64,
    pub network_address: u16,
    pub packet_acknowledged: bool,
    pub packet_broadcast: bool,
    pub packet_encrypted: bool,
    pub packet_end_device: bool,
    pub data: &'a [u8],
}

impl<'a> Response<'a> for ZigbeeReceivePacket<'a> {
    open spec fn spec_respond_to(id: u8) -> bool {
        id == ZIGBEE_RECEIVE_PACKET_ID
    }

    /// Valid payloads are at least 12 bytes led by the variant's
    /// identifier: the 64-bit source address (big-endian), the 16-bit
    /// network address (big-endian), a flags byte, and the received
    /// bytes as the remainder.
    open spec fn parse_result(buffer: Seq<u8>, r: Result<Self, ResponseError>) -> bool {
        if buffer.len() < 12 {
            r == Err::<Self, ResponseError>(ResponseError::SizeIncorrectError)
        } else if buffer[0] != ZIGBEE_RECEIVE_PACKET_ID {
            r == Err::<Self, ResponseError>(ResponseError::IdError)
        } else {
            r matches Ok(p) && {
                &&& p.destination as int == be_int(buffer.subrange(1, 9))
                &&& p.network_address == buffer[9] * 256 + buffer[10]
                &&& p.packet_acknowledged == ((buffer[11] & 0x01) != 0)
                &&& p.packet_broadcast == ((buffer[11] & 0x02) != 0)
                &&& p.packet_encrypted == ((buffer[11] & 0x20) != 0)
                &&& p.packet_end_device == ((buffer[11] & 0x40) != 0)
                &&& p.data@ == buffer.subrange(12, buffer.len() as int)
            }
        }
    }

    fn respond_to(id: u8) -> (r: bool) {
        ZIGBEE_RECEIVE_PACKET_ID == id
    }

    fn parse(buffer: &'a [u8]) -> (r: Result<Self, ResponseError>) {
        if buffer.len() < 12 {
            return Err(ResponseError::SizeIncorrectError);
        }
        if buffer[0] != ZIGBEE_RECEIVE_PACKET_ID {
            return Err(ResponseError::IdError);
        }

        let destination = buffer_to_u64(vstd::slice::slice_subrange(buffer, 1, 9));
        let network_address: u16 = buffer[9] as u16 * 256 + buffer[10] as u16;
        let flags = buffer[11];
        let packet_acknowledged = flags & 0x01 != 0;
        let packet_broadcast = flags & 0x02 != 0;
        let packet_encrypted = flags & 0x20 != 0;
        let packet_end_device = flags & 0x40 != 0;
        let data = vstd::slice::slice_subrange(buffer, 12, buffer.len());

        proof {
            assert(buffer@.subrange(1, 9).take(8) =~= buffer@.subrange(1, 9));
        }
        Ok(
            ZigbeeReceivePacket {
                destination,
                network_address,
                packet_acknowledged,
                packet_broadcast,
                packet_encrypted,
                packet_end_device,
                data,
            },
        )
    }
}

} // verus!
