//! Outgoing commands and their buffer encoders.

use vstd::prelude::*;

verus! {

/// The destination buffer cannot hold the command's exact encoded size.
#[derive(Debug)]
pub struct BufferSizeError;

/// An outgoing message that can write its exact wire encoding into the
/// start of a caller-supplied buffer.
pub trait Command: Sized {
    /// Whether the command's fields respect the protocol limits; in
    /// particular its encoding must fit the frame's 16-bit length field.
    spec fn valid(&self) -> bool;

    /// The exact bytes the command encodes to.
    spec fn encoding(&self) -> Seq<u8>;

    /// A valid command's encoding fits the frame's 16-bit length field.
    proof fn lemma_encoding_fits(&self)
        requires
            self.valid(),
        ensures
            self.encoding().len() <= 0xFFFF,
    ;

    /// Write the encoding into the start of `buffer`, leaving the rest of
    /// the buffer untouched, and return the encoded size; fail without
    /// changing the buffer exactly when it is too small for that size.
    fn fill_buffer(&self, buffer: &mut Vec<u8>) -> (r: Result<usize, BufferSizeError>)
        requires
            self.valid(),
        ensures
            (match r {
                Ok(n) => {
                    &&& n == self.encoding().len()
                    &&& n <= old(buffer)@.len()
                    &&& final(buffer)@.len() == old(buffer)@.len()
                    &&& final(buffer)@.subrange(0, n as int) == self.encoding()
                    &&& final(buffer)@.subrange(n as int, final(buffer)@.len() as int) == old(
                        buffer,
                    )@.subrange(n as int, old(buffer)@.len() as int)
                },
                Err(_) => {
                    &&& final(buffer)@ == old(buffer)@
                    &&& old(buffer)@.len() < self.encoding().len()
                },
            }),
    ;
}

pub const AT_COMMAND_ID: u8 = 0x08;

/// An AT command: reads or writes one two-letter parameter of the local
/// radio module, with an optional one-byte parameter value.
pub struct AtCommand {
    pub frame_id: u8,
    pub at_command: [u8; 2],
    pub parameter_value: Option<u8>,
}

impl AtCommand {
    /// Build an AT command from its fields.
    pub fn new(frame_id: u8, at_command: [u8; 2], parameter_value: Option<u8>) -> (r: Self)
        ensures
            r == (AtCommand { frame_id, at_command, parameter_value }),
    {
        AtCommand { frame_id, at_command, parameter_value }
    }
}

impl Command for AtCommand {
    open spec fn valid(&self) -> bool {
        true
    }

    /// Identifier, frame id and the two command letters, plus the
    /// parameter value when one is present.
    open spec fn encoding(&self) -> Seq<u8> {
        let base = seq![AT_COMMAND_ID, self.frame_id, self.at_command@[0], self.at_command@[1]];
        match self.parameter_value {
            Some(value) => base.push(value),
            None => base,
        }
    }

    proof fn lemma_encoding_fits(&self) {
    }

    fn fill_buffer(&self, buffer: &mut Vec<u8>) -> (r: Result<usize, BufferSizeError>) {
        let required: usize = match self.parameter_value {
            Some(_) => 5,
            None => 4,
        };
        if buffer.len() < required {
            return Err(BufferSizeError);
        }
        buffer.set(0, AT_COMMAND_ID);
        buffer.set(1, self.frame_id);
        buffer.set(2, self.at_command[0]);
        buffer.set(3, self.at_command[1]);
        match self.parameter_value {
            Some(value) => {
                buffer.set(4, value);
                proof {
                    assert(buffer@.subrange(0, 5) =~= self.encoding());
                    assert(buffer@.subrange(5, buffer@.len() as int) =~= old(buffer)@.subrange(
                        5,
                        old(buffer)@.len() as int,
                    ));
                }
                Ok(5)
            },
            None => {
                proof {
                    assert(buffer@.subrange(0, 4) =~= self.encoding());
                    assert(buffer@.subrange(4, buffer@.len() as int) =~= old(buffer)@.subrange(
                        4,
                        old(buffer)@.len() as int,
                    ));
                }
                Ok(4)
            },
        }
    }
}

pub const TRANSMIT_REQUEST_ID: u8 = 0x10;

pub const BROADCAST_DESTINATION: u64 = 0x0000_0000_0000_FFFF;

pub const COORDINATOR_DESTINATION: u64 = 0x0000_0000_0000_0000;

pub const BROADCAST_NETWORK_ADDRESS: u16 = 0xFFFE;

pub const MAXIMUM_HOPS: u8 = 0x00;

/// A transmit request: sends a payload to a 64-bit destination address,
/// with an optional 16-bit network address, hop limit and option flags.
pub struct TransmitRequestCommand<'a> {
    pub frame_id: u8,
    pub destination: u64,
    pub network_address: u16,
    pub radius: u8,
    pub disable_retries: Option<bool>,
    pub enable_encryption: Option<bool>,
    pub use_extended_timeout: Option<bool>,
    pub data: &'a [u8],
}

impl<'a> Default for TransmitRequestCommand<'a> {
    /// A broadcast to the default network address, unlimited hops, no
    /// options, empty payload.
    fn default() -> (r: Self)
        ensures
            r.frame_id == 0x00,
            r.destination == BROADCAST_DESTINATION,
            r.network_address == BROADCAST_NETWORK_ADDRESS,
            r.radius == MAXIMUM_HOPS,
            r.disable_retries is None,
            r.enable_encryption is None,
            r.use_extended_timeout is None,
            r.data@ == Seq::<u8>::empty(),
    {
        TransmitRequestCommand {
            frame_id: 0x00,
            destination: BROADCAST_DESTINATION,
            network_address: BROADCAST_NETWORK_ADDRESS,
            radius: MAXIMUM_HOPS,
            disable_retries: None,
            enable_encryption: None,
            use_extended_timeout: None,
            data: &[],
        }
    }
}

impl<'a> TransmitRequestCommand<'a> {
    /// Send `data` to every module in range.
    pub fn broadcast(frame_id: u8, data: &'a [u8]) -> (r: Self)
        ensures
            r == (TransmitRequestCommand {
                frame_id,
                destination: BROADCAST_DESTINATION,
                network_address: BROADCAST_NETWORK_ADDRESS,
                radius: MAXIMUM_HOPS,
                disable_retries: None,
                enable_encryption: None,
                use_extended_timeout: None,
                data,
            }),
    {
        let mut command = Self::default();
        command.frame_id = frame_id;
        command.data = data;
        command
    }

    /// Send `data` to the module with the given 64-bit address.
    pub fn to_destination(frame_id: u8, destination: u64, data: &'a [u8]) -> (r: Self)
        ensures
            r == (TransmitRequestCommand {
                frame_id,
                destination,
                network_address: BROADCAST_NETWORK_ADDRESS,
                radius: MAXIMUM_HOPS,
                disable_retries: None,
                enable_encryption: None,
                use_extended_timeout: None,
                data,
            }),
    {
        let mut command = Self::default();
        command.frame_id = frame_id;
        command.destination = destination;
        command.data = data;
        command
    }

    /// Send `data` to the network's coordinator module.
    pub fn to_coordinator(frame_id: u8, data: &'a [u8]) -> (r: Self)
        ensures
            r == (TransmitRequestCommand {
                frame_id,
                destination: COORDINATOR_DESTINATION,
                network_address: BROADCAST_NETWORK_ADDRESS,
                radius: MAXIMUM_HOPS,
                disable_retries: None,
                enable_encryption: None,
                use_extended_timeout: None,
                data,
            }),
    {
        let mut command = Self::default();
        command.frame_id = frame_id;
        command.destination = COORDINATOR_DESTINATION;
        command.data = data;
        command
    }

    /// The option flags packed into one byte: bit 0 disables retries,
    /// bit 5 enables encryption, bit 6 selects the extended timeout.
    pub open spec fn options_byte(&self) -> u8 {
        ((if self.disable_retries == Some(true) {
            0x01u8
        } else {
            0u8
        }) + (if self.enable_encryption == Some(true) {
            0x20u8
        } else {
            0u8
        }) + (if self.use_extended_timeout == Some(true) {
            0x40u8
        } else {
            0u8
        })) as u8
    }

    /// The 14 fixed header bytes: identifier, frame id, destination
    /// (big-endian), network address (big-endian), hop limit, options.
    pub open spec fn header(&self) -> Seq<u8> {
        seq![
            TRANSMIT_REQUEST_ID,
            self.frame_id,
            (self.destination >> 56) as u8,
            (self.destination >> 48) as u8,
            (self.destination >> 40) as u8,
            (self.destination >> 32) as u8,
            (self.destination >> 24) as u8,
            (self.destination >> 16) as u8,
            (self.destination >> 8) as u8,
            self.destination as u8,
            (self.network_address / 256) as u8,
            (self.network_address % 256) as u8,
            self.radius,
            self.options_byte(),
        ]
    }
}

impl<'a> Command for TransmitRequestCommand<'a> {
    /// The 14 header bytes plus the payload must fit the frame's 16-bit
    /// length field.
    open spec fn valid(&self) -> bool {
        self.data@.len() + 14 <= 0xFFFF
    }

    /// The fixed header followed by the payload bytes.
    open spec fn encoding(&self) -> Seq<u8> {
        self.header() + self.data@
    }

    proof fn lemma_encoding_fits(&self) {
    }

    fn fill_buffer(&self, buffer: &mut Vec<u8>) -> (r: Result<usize, BufferSizeError>) {
        let data_len: usize = self.data.len();
        if buffer.len() < 14 + data_len {
            return Err(BufferSizeError);
        }
        buffer.set(0, TRANSMIT_REQUEST_ID);
        buffer.set(1, self.frame_id);

        // The destination address, most significant byte first.
        buffer.set(2, (self.destination >> 56) as u8);
        buffer.set(3, (self.destination >> 48) as u8);
        buffer.set(4, (self.destination >> 40) as u8);
        buffer.set(5, (self.destination >> 32) as u8);
        buffer.set(6, (self.destination >> 24) as u8);
        buffer.set(7, (self.destination >> 16) as u8);
        buffer.set(8, (self.destination >> 8) as u8);
        buffer.set(9, self.destination as u8);

        // The network address, most significant byte first.
        buffer.set(10, (self.network_address / 256) as u8);
        buffer.set(11, (self.network_address % 256) as u8);

        buffer.set(12, self.radius);

        let mut options: u8 = 0;
        match self.disable_retries {
            Some(true) => {
                options = options + 0x01;
            },
            _ => {},
        }
        match self.enable_encryption {
            Some(true) => {
                options = options + 0x20;
            },
            _ => {},
        }
        match self.use_extended_timeout {
            Some(true) => {
                options = options + 0x40;
            },
            _ => {},
        }
        buffer.set(13, options);
        assert(buffer@.subrange(0, 14) =~= self.header());

        let mut i: usize = 0;
        while i < data_len
            invariant
                i <= data_len,
                data_len == self.data@.len(),
                buffer@.len() == old(buffer)@.len(),
                14 + data_len <= buffer@.len(),
                buffer@.len() <= usize::MAX,
                buffer@.subrange(0, 14) == self.header(),
                forall|j: int| 0 <= j < i ==> buffer@[14 + j] == self.data@[j],
                forall|j: int|
                    14 + data_len <= j < buffer@.len() ==> buffer@[j] == old(buffer)@[j],
            decreases data_len - i,
        {
            buffer.set(14 + i, self.data[i]);
            proof {
                assert(buffer@.subrange(0, 14) =~= self.header());
            }
            i = i + 1;
        }

        proof {
            assert(buffer@.subrange(0, 14 + data_len as int) =~= self.encoding());
            assert(buffer@.subrange(14 + data_len as int, buffer@.len() as int) =~= old(
                buffer,
            )@.subrange(14 + data_len as int, old(buffer)@.len() as int));
        }
        Ok(14 + data_len)
    }
}

} // verus!
