//! Frames: an assembled payload and its lazy wire serialization.

use vstd::prelude::*;

use crate::commands::{BufferSizeError, Command};
use crate::wire::{byte_sum_mod, lemma_byte_sum_mod_push, serialized_bytes, FRAME_DELIMITER};

verus! {

/// A single frame: the payload bytes between the length field and the
/// checksum on the wire. The first payload byte is the message identifier.
#[derive(Debug)]
pub struct Frame {
    pub data: Vec<u8>,
}

impl View for Frame {
    type V = Seq<u8>;

    closed spec fn view(&self) -> Seq<u8> {
        self.data@
    }
}

impl Frame {
    /// A frame payload must fit the protocol's two-byte length field.
    pub open spec fn wf(&self) -> bool {
        self@.len() <= 0xFFFF
    }

    /// Builds a new frame holding a copy of the given payload bytes.
    pub fn new(data: &[u8]) -> (frame: Frame)
        requires
            data@.len() <= 0xFFFF,
        ensures
            frame@ == data@,
            frame.wf(),
    {
        Frame { data: vstd::slice::slice_to_vec(data) }
    }

    /// Returns an iterator that hands out the frame's serialized wire
    /// image byte by byte: delimiter, the two length bytes, the payload,
    /// and the checksum. Each call starts a fresh pass.
    pub fn serialize<'a>(&'a self) -> (it: FrameIterator<'a>)
        requires
            self.wf(),
        ensures
            it.inv(),
            it.payload() == self@,
            it.pos() == 0,
    {
        FrameIterator {
            frame: self,
            state: FrameIteratorState::Delimiter,
            state_index: 0,
            checksum: 0,
        }
    }

    /// Fill `buffer` with `command`'s encoding and wrap the written bytes
    /// as a frame. The only failure condition is a buffer with
    /// insufficient space for the command's exact encoded size.
    pub fn from_command<T: Command>(command: T, buffer: &mut Vec<u8>) -> (r: Result<
        Frame,
        BufferSizeError,
    >)
        requires
            command.valid(),
        ensures
            (match r {
                Ok(frame) => {
                    &&& frame@ == command.encoding()
                    &&& frame.wf()
                    &&& old(buffer)@.len() >= command.encoding().len()
                    &&& final(buffer)@.len() == old(buffer)@.len()
                    &&& final(buffer)@.subrange(0, command.encoding().len() as int)
                        == command.encoding()
                },
                Err(_) => {
                    &&& final(buffer)@ == old(buffer)@
                    &&& old(buffer)@.len() < command.encoding().len()
                },
            }),
    {
        match command.fill_buffer(buffer) {
            Ok(written) => {
                proof {
                    command.lemma_encoding_fits();
                }
                Ok(Frame::new(vstd::slice::slice_subrange(buffer.as_slice(), 0, written)))
            },
            Err(_) => Err(BufferSizeError),
        }
    }
}

/// Where a `FrameIterator` stands inside the wire image it hands out.
enum FrameIteratorState {
    Delimiter,
    LengthMsb,
    LengthLsb,
    Data,
    Checksum,
    Done,
}

/// Hands out a frame's full wire image one byte at a time: the delimiter,
/// both length bytes, each payload byte, and finally the checksum built
/// up while the payload bytes were emitted.
pub struct FrameIterator<'a> {
    frame: &'a Frame,
    state: FrameIteratorState,
    state_index: usize,
    checksum: u8,
}

impl<'a> FrameIterator<'a> {
    /// The payload whose wire image this iterator hands out.
    pub closed spec fn payload(&self) -> Seq<u8> {
        self.frame.data@
    }

    /// How many bytes of the wire image have been handed out so far.
    pub closed spec fn pos(&self) -> int {
        match self.state {
            FrameIteratorState::Delimiter => 0,
            FrameIteratorState::LengthMsb => 1,
            FrameIteratorState::LengthLsb => 2,
            FrameIteratorState::Data => 3 + self.state_index,
            FrameIteratorState::Checksum => 3 + self.payload().len() as int,
            FrameIteratorState::Done => 4 + self.payload().len() as int,
        }
    }

    /// Internal consistency: the payload fits the 16-bit length field,
    /// the cursor stays inside the payload, and the accumulator holds the
    /// mod-256 sum of the payload bytes handed out so far.
    pub closed spec fn inv(&self) -> bool {
        &&& self.payload().len() <= 0xFFFF
        &&& match self.state {
            FrameIteratorState::Delimiter => self.state_index == 0 && self.checksum == 0,
            FrameIteratorState::LengthMsb => self.state_index == 0 && self.checksum == 0,
            FrameIteratorState::LengthLsb => self.state_index == 0 && self.checksum == 0,
            FrameIteratorState::Data => self.state_index < self.payload().len() && self.checksum
                == byte_sum_mod(self.payload().take(self.state_index as int)),
            FrameIteratorState::Checksum => self.checksum == byte_sum_mod(self.payload()),
            FrameIteratorState::Done => true,
        }
    }

    /// The cursor never passes the end of the wire image.
    pub proof fn lemma_pos_bounds(&self)
        requires
            self.inv(),
        ensures
            0 <= self.pos() <= self.payload().len() + 4,
            self.pos() == self.payload().len() + 4 <==> self.pos()
                >= serialized_bytes(self.payload()).len(),
    {
    }

    /// Hand out the next byte of the wire image, or `None` once the
    /// checksum byte has been handed out.
    pub fn next(&mut self) -> (r: Option<u8>)
        requires
            old(self).inv(),
        ensures
            final(self).inv(),
            final(self).payload() == old(self).payload(),
            ({
                let ser = serialized_bytes(old(self).payload());
                if old(self).pos() < ser.len() {
                    &&& r == Some(ser[old(self).pos()])
                    &&& final(self).pos() == old(self).pos() + 1
                } else {
                    &&& r is None
                    &&& final(self).pos() == old(self).pos()
                }
            }),
    {
        match self.state {
            FrameIteratorState::Delimiter => {
                self.state = FrameIteratorState::LengthMsb;
                Some(FRAME_DELIMITER)
            },
            FrameIteratorState::LengthMsb => {
                self.state = FrameIteratorState::LengthLsb;
                Some((self.frame.data.len() / 256) as u8)
            },
            FrameIteratorState::LengthLsb => {
                self.state = if self.frame.data.len() == 0 {
                    FrameIteratorState::Checksum
                } else {
                    FrameIteratorState::Data
                };
                Some((self.frame.data.len() % 256) as u8)
            },
            FrameIteratorState::Data => {
                let current_byte = self.frame.data[self.state_index];
                proof {
                    lemma_byte_sum_mod_push(
                        self.frame.data@.take(self.state_index as int),
                        current_byte,
                    );
                    assert(self.frame.data@.take(self.state_index as int).push(current_byte)
                        =~= self.frame.data@.take(self.state_index as int + 1));
                }
                self.checksum = ((self.checksum as u16 + current_byte as u16) % 256) as u8;
                self.state_index = self.state_index + 1;
                if self.state_index == self.frame.data.len() {
                    self.state_index = 0;
                    self.state = FrameIteratorState::Checksum;
                    proof {
                        assert(self.frame.data@.take(self.frame.data@.len() as int)
                            =~= self.frame.data@);
                    }
                }
                Some(current_byte)
            },
            FrameIteratorState::Checksum => {
                self.state = FrameIteratorState::Done;
                Some(255 - self.checksum)
            },
            FrameIteratorState::Done => None,
        }
    }
}

} // verus!
