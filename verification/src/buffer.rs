//! The receive-side state machine: reconstructs one frame at a time from a
//! byte stream delivered one byte per call.

use vstd::prelude::*;

use crate::frame::Frame;
use crate::wire::{
    byte_sum_mod, frame_checksum, length_lsb, length_msb, lemma_byte_sum_mod_push,
    lemma_byte_sum_mod_update, lemma_checksum_injective_in_sum, serialized_bytes,
    FRAME_DELIMITER,
};

verus! {

/// Parse state of a `FrameBuffer`.
#[derive(Clone, Copy, Debug)]
pub enum FrameBufferState {
    WaitingForDelimiter,
    ReceivingLengthMsb,
    ReceivingLengthLsb,
    ReceivingData,
    ReceivingChecksum,
}

/// The declared payload length exceeds the receiver's scratch capacity;
/// the frame was discarded and the receiver reset.
#[derive(Debug, PartialEq, Eq, Structural)]
pub struct CapacityError;

/// Abstract state of a `FrameBuffer`: the parse state, the payload bytes
/// accumulated so far, the count of payload bytes still expected, the
/// running mod-256 checksum accumulator, and the scratch capacity.
#[verifier::ext_equal]
pub struct ReceiverModel {
    pub state: FrameBufferState,
    pub data: Seq<u8>,
    pub left: nat,
    pub checksum: u8,
    pub capacity: nat,
}

/// The state a receiver is in when freshly constructed, and again after
/// every completed frame attempt.
pub open spec fn initial_model(capacity: nat) -> ReceiverModel {
    ReceiverModel {
        state: FrameBufferState::WaitingForDelimiter,
        data: Seq::empty(),
        left: 0,
        checksum: 0,
        capacity,
    }
}

/// One transition of the receive state machine: the state after consuming
/// `byte`, paired with what the receiver hands back for that byte
/// (`Ok(Some(payload))` exactly when `byte` completes a frame whose
/// checksum matches).
pub open spec fn frame_step(pre: ReceiverModel, byte: u8) -> (ReceiverModel, Result<
    Option<Seq<u8>>,
    CapacityError,
>) {
    match pre.state {
        FrameBufferState::WaitingForDelimiter => {
            let post = if byte == FRAME_DELIMITER {
                ReceiverModel { state: FrameBufferState::ReceivingLengthMsb, ..pre }
            } else {
                pre
            };
            (post, Ok(None))
        },
        FrameBufferState::ReceivingLengthMsb => {
            let post = ReceiverModel {
                state: FrameBufferState::ReceivingLengthLsb,
                left: byte as nat * 256,
                ..pre
            };
            (post, Ok(None))
        },
        FrameBufferState::ReceivingLengthLsb => {
            let total = pre.left + byte;
            if total > pre.capacity {
                (initial_model(pre.capacity), Err(CapacityError))
            } else if total == 0 {
                (ReceiverModel { state: FrameBufferState::ReceivingChecksum, ..pre }, Ok(None))
            } else {
                (
                    ReceiverModel {
                        state: FrameBufferState::ReceivingData,
                        left: total as nat,
                        ..pre
                    },
                    Ok(None),
                )
            }
        },
        FrameBufferState::ReceivingData => {
            let post = ReceiverModel {
                state: if pre.left == 1 {
                    FrameBufferState::ReceivingChecksum
                } else {
                    FrameBufferState::ReceivingData
                },
                data: pre.data.push(byte),
                left: (pre.left - 1) as nat,
                checksum: ((pre.checksum + byte) % 256) as u8,
                ..pre
            };
            (post, Ok(None))
        },
        FrameBufferState::ReceivingChecksum => {
            let out = if byte == 255 - pre.checksum {
                Ok(Some(pre.data))
            } else {
                Ok(None)
            };
            (initial_model(pre.capacity), out)
        },
    }
}

/// Internal consistency of a receiver model: the scratch cursor never
/// passes the capacity, counters are clean outside a frame, the expected
/// total never exceeds the 16-bit length field nor the capacity, and the
/// accumulator always equals the mod-256 sum of the bytes taken so far.
pub open spec fn model_inv(m: ReceiverModel) -> bool {
    &&& m.data.len() <= m.capacity
    &&& match m.state {
        FrameBufferState::WaitingForDelimiter => m.data.len() == 0 && m.left == 0 && m.checksum
            == 0,
        FrameBufferState::ReceivingLengthMsb => m.data.len() == 0 && m.left == 0 && m.checksum
            == 0,
        FrameBufferState::ReceivingLengthLsb => m.data.len() == 0 && m.checksum == 0 && m.left
            % 256 == 0 && m.left <= 0xFF00,
        FrameBufferState::ReceivingData => 1 <= m.left && m.data.len() + m.left <= m.capacity
            && m.data.len() + m.left <= 0xFFFF && m.checksum == byte_sum_mod(m.data),
        FrameBufferState::ReceivingChecksum => m.left == 0 && m.data.len() <= 0xFFFF
            && m.checksum == byte_sum_mod(m.data),
    }
}

/// A transition keeps the receiver model internally consistent.
pub proof fn lemma_step_preserves_inv(pre: ReceiverModel, byte: u8)
    requires
        model_inv(pre),
    ensures
        model_inv(frame_step(pre, byte).0),
{
    match pre.state {
        FrameBufferState::ReceivingData => {
            lemma_byte_sum_mod_push(pre.data, byte);
        },
        _ => {},
    }
}

/// A state machine that consumes bytes coming from the radio module one at
/// a time and hands back a full frame once its checksum byte arrives.
pub struct FrameBuffer {
    state: FrameBufferState,
    buffer: Vec<u8>,
    capacity: usize,
    left: u16,
    checksum: u8,
}

impl View for FrameBuffer {
    type V = ReceiverModel;

    closed spec fn view(&self) -> ReceiverModel {
        ReceiverModel {
            state: self.state,
            data: self.buffer@,
            left: self.left as nat,
            checksum: self.checksum,
            capacity: self.capacity as nat,
        }
    }
}

impl FrameBuffer {
    /// The receiver's invariant, stated over its abstract model.
    pub open spec fn inv(&self) -> bool {
        model_inv(self@)
    }

    /// Create a new `FrameBuffer` whose scratch space holds payloads of at
    /// most `capacity` bytes.
    pub fn new(capacity: usize) -> (r: FrameBuffer)
        ensures
            r@ == initial_model(capacity as nat),
            r.inv(),
    {
        FrameBuffer {
            state: FrameBufferState::WaitingForDelimiter,
            buffer: Vec::new(),
            capacity,
            left: 0,
            checksum: 0,
        }
    }

    /// Receive a single byte of data from the radio module. Returns the
    /// completed frame when the byte is a matching checksum byte, and a
    /// `CapacityError` when a frame declares a payload larger than the
    /// scratch capacity; in both cases, and after a checksum mismatch, the
    /// receiver is reset to its initial state.
    pub fn receive(&mut self, received: u8) -> (r: Result<Option<Frame>, CapacityError>)
        requires
            old(self).inv(),
        ensures
            final(self).inv(),
            final(self)@ == frame_step(old(self)@, received).0,
            (match (r, frame_step(old(self)@, received).1) {
                (Ok(None), Ok(None)) => true,
                (Ok(Some(frame)), Ok(Some(payload))) => frame@ == payload && frame.wf(),
                (Err(_), Err(_)) => true,
                _ => false,
            }),
    {
        match self.state {
            FrameBufferState::WaitingForDelimiter => {
                if received == FRAME_DELIMITER {
                    self.state = FrameBufferState::ReceivingLengthMsb;
                }
                Ok(None)
            },
            FrameBufferState::ReceivingLengthMsb => {
                self.left = received as u16 * 256;
                self.state = FrameBufferState::ReceivingLengthLsb;
                Ok(None)
            },
            FrameBufferState::ReceivingLengthLsb => {
                let total: u16 = self.left + received as u16;
                if total as usize > self.capacity {
                    self.reset();
                    Err(CapacityError)
                } else if total == 0 {
                    self.state = FrameBufferState::ReceivingChecksum;
                    Ok(None)
                } else {
                    self.left = total;
                    self.state = FrameBufferState::ReceivingData;
                    Ok(None)
                }
            },
            FrameBufferState::ReceivingData => {
                self.left = self.left - 1;
                if self.left == 0 {
                    self.state = FrameBufferState::ReceivingChecksum;
                }
                proof {
                    lemma_byte_sum_mod_push(self.buffer@, received);
                }
                self.buffer.push(received);
                self.checksum = ((self.checksum as u16 + received as u16) % 256) as u8;
                Ok(None)
            },
            FrameBufferState::ReceivingChecksum => {
                let result = if received == 255 - self.checksum {
                    Some(Frame::new(self.buffer.as_slice()))
                } else {
                    None
                };
                self.reset();
                Ok(result)
            },
        }
    }

    /// Return every counter to its initial value; the next frame's
    /// reconstruction starts clean.
    fn reset(&mut self)
        ensures
            final(self)@ == initial_model(old(self)@.capacity),
    {
        self.state = FrameBufferState::WaitingForDelimiter;
        self.buffer.clear();
        self.left = 0;
        self.checksum = 0;
    }
}

/// The receiver model after consuming every byte of `bytes` in order.
pub open spec fn run(m: ReceiverModel, bytes: Seq<u8>) -> ReceiverModel
    decreases bytes.len(),
{
    if bytes.len() == 0 {
        m
    } else {
        run(frame_step(m, bytes[0]).0, bytes.skip(1))
    }
}

/// What the receiver hands back for each byte of `bytes`, in order.
pub open spec fn run_outputs(m: ReceiverModel, bytes: Seq<u8>) -> Seq<
    Result<Option<Seq<u8>>, CapacityError>,
>
    decreases bytes.len(),
{
    if bytes.len() == 0 {
        Seq::empty()
    } else {
        seq![frame_step(m, bytes[0]).1] + run_outputs(frame_step(m, bytes[0]).0, bytes.skip(1))
    }
}

/// A run produces one output per byte consumed.
pub proof fn lemma_run_outputs_len(m: ReceiverModel, bytes: Seq<u8>)
    ensures
        run_outputs(m, bytes).len() == bytes.len(),
    decreases bytes.len(),
{
    if bytes.len() > 0 {
        lemma_run_outputs_len(frame_step(m, bytes[0]).0, bytes.skip(1));
    }
}

/// A run over a single byte is one transition.
pub proof fn lemma_run_one(m: ReceiverModel, byte: u8)
    ensures
        run(m, seq![byte]) == frame_step(m, byte).0,
        run_outputs(m, seq![byte]) == seq![frame_step(m, byte).1],
{
    reveal_with_fuel(run, 2);
    reveal_with_fuel(run_outputs, 2);
    assert(seq![byte].skip(1) =~= Seq::<u8>::empty());
    assert(run_outputs(m, seq![byte]) =~= seq![frame_step(m, byte).1]);
}

/// Runs compose: consuming `a + b` is consuming `a`, then `b`.
pub proof fn lemma_run_append(m: ReceiverModel, a: Seq<u8>, b: Seq<u8>)
    ensures
        run(m, a + b) == run(run(m, a), b),
        run_outputs(m, a + b) == run_outputs(m, a) + run_outputs(run(m, a), b),
    decreases a.len(),
{
    if a.len() == 0 {
        assert(a + b =~= b);
        assert(run_outputs(m, a) + run_outputs(run(m, a), b) =~= run_outputs(m, b));
    } else {
        let m1 = frame_step(m, a[0]).0;
        assert((a + b)[0] == a[0]);
        assert((a + b).skip(1) =~= a.skip(1) + b);
        lemma_run_append(m1, a.skip(1), b);
        assert(run_outputs(m, a + b) =~= run_outputs(m, a) + run_outputs(run(m, a), b));
    }
}

/// While in the data state, the receiver consumes exactly the `left`
/// bytes it still expects, appends them to the accumulated payload,
/// reaches the checksum state, and produces no frame along the way.
pub proof fn lemma_feed_data(m: ReceiverModel, rest: Seq<u8>)
    requires
        model_inv(m),
        m.state is ReceivingData,
        m.left == rest.len(),
    ensures
        ({
            let post = run(m, rest);
            &&& post =~= (ReceiverModel {
                state: FrameBufferState::ReceivingChecksum,
                data: m.data + rest,
                left: 0,
                checksum: byte_sum_mod(m.data + rest),
                capacity: m.capacity,
            })
            &&& model_inv(post)
        }),
        forall|i: int|
            0 <= i < rest.len() ==> run_outputs(m, rest)[i] == Ok::<
                Option<Seq<u8>>,
                CapacityError,
            >(None),
    decreases rest.len(),
{
    lemma_run_outputs_len(m, rest);
    let m1 = frame_step(m, rest[0]).0;
    lemma_step_preserves_inv(m, rest[0]);
    lemma_byte_sum_mod_push(m.data, rest[0]);
    if rest.len() == 1 {
        reveal_with_fuel(run, 2);
        reveal_with_fuel(run_outputs, 2);
        assert(rest.skip(1) =~= Seq::<u8>::empty());
        assert(m.data.push(rest[0]) =~= m.data + rest);
    } else {
        lemma_feed_data(m1, rest.skip(1));
        assert(m1.data + rest.skip(1) =~= m.data + rest);
        lemma_run_outputs_len(m1, rest.skip(1));
        assert forall|i: int| 0 <= i < rest.len() implies run_outputs(m, rest)[i] == Ok::<
            Option<Seq<u8>>,
            CapacityError,
        >(None) by {
            if i > 0 {
                assert(run_outputs(m, rest)[i] == run_outputs(m1, rest.skip(1))[i - 1]);
            }
        }
    }
}

/// The bytes of one whole frame attempt on the wire: delimiter, the two
/// length bytes for `d`, the payload bytes `d`, and a trailing byte `c`
/// standing where the checksum belongs.
pub open spec fn framed_with_checksum(d: Seq<u8>, c: u8) -> Seq<u8> {
    seq![FRAME_DELIMITER, length_msb(d.len()), length_lsb(d.len())] + d + seq![c]
}

/// Feeding a fresh receiver one whole frame attempt: every byte before the
/// trailing one produces nothing, the trailing byte produces the payload
/// exactly when it is the payload's checksum, and the receiver ends back
/// in its initial state either way.
#[verifier::rlimit(50)]
pub proof fn lemma_run_frame(capacity: nat, d: Seq<u8>, c: u8)
    requires
        d.len() + 4 <= capacity,
        d.len() <= 0xFFFF,
    ensures
        ({
            let bytes = framed_with_checksum(d, c);
            let outs = run_outputs(initial_model(capacity), bytes);
            &&& bytes.len() == d.len() + 4
            &&& outs.len() == d.len() + 4
            &&& forall|i: int|
                0 <= i < d.len() + 3 ==> outs[i] == Ok::<Option<Seq<u8>>, CapacityError>(None)
            &&& outs[d.len() as int + 3] == (if c == frame_checksum(d) {
                Ok::<Option<Seq<u8>>, CapacityError>(Some(d))
            } else {
                Ok::<Option<Seq<u8>>, CapacityError>(None)
            })
            &&& run(initial_model(capacity), bytes) == initial_model(capacity)
        }),
{
    let m0 = initial_model(capacity);
    let len = d.len();
    let msb = length_msb(len);
    let lsb = length_lsb(len);
    let header = seq![FRAME_DELIMITER, msb, lsb];
    let bytes = framed_with_checksum(d, c);
    let tail = d + seq![c];
    assert(bytes == header + tail) by {
        assert(bytes =~= header + tail);
    }

    // The two length bytes recover the payload length exactly.
    vstd::arithmetic::div_mod::lemma_fundamental_div_mod(len as int, 256);
    vstd::arithmetic::div_mod::lemma_mod_bound(len as int, 256);
    assert(msb as nat * 256 + lsb as nat == len);

    // Walk the three header bytes.
    let m1 = frame_step(m0, FRAME_DELIMITER).0;
    let m2 = frame_step(m1, msb).0;
    let m3 = frame_step(m2, lsb).0;
    assert(run(m0, header) == m3 && run_outputs(m0, header) =~= seq![
        frame_step(m0, FRAME_DELIMITER).1,
        frame_step(m1, msb).1,
        frame_step(m2, lsb).1,
    ]) by {
        reveal_with_fuel(run, 4);
        reveal_with_fuel(run_outputs, 4);
        assert(header.skip(1) =~= seq![msb, lsb]);
        assert(seq![msb, lsb].skip(1) =~= seq![lsb]);
        assert(seq![lsb].skip(1) =~= Seq::<u8>::empty());
    }
    lemma_run_append(m0, header, tail);

    // The checksum accumulator is clean when the payload starts.
    assert(byte_sum_mod(Seq::<u8>::empty()) == 0);

    let m4 = run(m3, d);
    if len == 0 {
        assert(tail =~= seq![c]);
        assert(d =~= Seq::<u8>::empty());
        assert(m4 == m3);
    } else {
        lemma_feed_data(m3, d);
        assert(m4.data =~= d);
    }
    assert(m4.state is ReceivingChecksum && m4.data == d && m4.checksum == byte_sum_mod(d)
        && m4.capacity == capacity) by {
        if len > 0 {
            assert(Seq::<u8>::empty() + d =~= d);
        }
    }
    lemma_run_append(m3, d, seq![c]);
    assert(tail == d + seq![c]);
    lemma_run_one(m4, c);
    assert(run(m0, bytes) == initial_model(capacity));

    // Assemble the outputs of the three phases.
    lemma_run_outputs_len(m0, bytes);
    lemma_run_outputs_len(m0, header);
    lemma_run_outputs_len(m3, d);
    lemma_run_outputs_len(m3, tail);
    let outs = run_outputs(m0, bytes);
    assert(outs == run_outputs(m0, header) + (run_outputs(m3, d) + run_outputs(m4, seq![c])));
    assert forall|i: int|
        0 <= i < len + 3 implies outs[i] == Ok::<Option<Seq<u8>>, CapacityError>(None) by {
        if i >= 3 {
            assert(outs[i] == run_outputs(m3, d)[i - 3]);
            assert(run_outputs(m3, d)[i - 3] == Ok::<Option<Seq<u8>>, CapacityError>(None));
        }
    }
    assert(outs[len as int + 3] == frame_step(m4, c).1);
    assert(255 - byte_sum_mod(d) == frame_checksum(d));
}

/// Round-trip law: serializing any payload that fits the receiver's
/// scratch space and feeding the bytes to a fresh receiver one at a time
/// yields exactly one frame, on the last of the `len + 4` pushes, whose
/// payload is the original one; the receiver ends back in its initial
/// state.
pub proof fn lemma_round_trip(payload: Seq<u8>, capacity: nat)
    requires
        payload.len() + 4 <= capacity,
        payload.len() <= 0xFFFF,
    ensures
        ({
            let bytes = serialized_bytes(payload);
            let outs = run_outputs(initial_model(capacity), bytes);
            &&& bytes.len() == payload.len() + 4
            &&& outs.len() == payload.len() + 4
            &&& forall|i: int|
                0 <= i < payload.len() + 3 ==> outs[i] == Ok::<
                    Option<Seq<u8>>,
                    CapacityError,
                >(None)
            &&& outs[payload.len() as int + 3] == Ok::<Option<Seq<u8>>, CapacityError>(
                Some(payload),
            )
            &&& run(initial_model(capacity), bytes) == initial_model(capacity)
        }),
{
    assert(serialized_bytes(payload) =~= framed_with_checksum(payload, frame_checksum(payload)));
    lemma_run_frame(capacity, payload, frame_checksum(payload));
}

/// Checksum sensitivity, payload side: flipping any single bit of any
/// payload byte of a serialized frame before receipt makes a fresh
/// receiver discard the frame — every push yields nothing — and return to
/// its initial state.
pub proof fn lemma_corrupt_payload_bit_rejected(payload: Seq<u8>, capacity: nat, i: int, bit: u8)
    requires
        payload.len() + 4 <= capacity,
        payload.len() <= 0xFFFF,
        0 <= i < payload.len(),
        bit < 8,
    ensures
        ({
            let bytes = serialized_bytes(payload).update(3 + i, payload[i] ^ (1u8 << bit));
            let outs = run_outputs(initial_model(capacity), bytes);
            &&& outs.len() == payload.len() + 4
            &&& forall|j: int|
                0 <= j < outs.len() ==> outs[j] == Ok::<Option<Seq<u8>>, CapacityError>(None)
            &&& run(initial_model(capacity), bytes) == initial_model(capacity)
        }),
{
    let flipped = payload[i] ^ (1u8 << bit);
    let original = payload[i];
    assert(flipped != original) by (bit_vector)
        requires
            flipped == original ^ (1u8 << bit),
            bit < 8,
    ;
    let corrupted = payload.update(i, flipped);
    let bytes = serialized_bytes(payload).update(3 + i, flipped);
    assert(bytes =~= framed_with_checksum(corrupted, frame_checksum(payload)));
    lemma_byte_sum_mod_update(payload, i, flipped);
    lemma_checksum_injective_in_sum(corrupted, payload);
    lemma_run_frame(capacity, corrupted, frame_checksum(payload));
}

/// Checksum sensitivity, checksum side: flipping any single bit of the
/// transmitted checksum byte makes a fresh receiver discard the frame —
/// every push yields nothing — and return to its initial state.
pub proof fn lemma_corrupt_checksum_bit_rejected(payload: Seq<u8>, capacity: nat, bit: u8)
    requires
        payload.len() + 4 <= capacity,
        payload.len() <= 0xFFFF,
        bit < 8,
    ensures
        ({
            let bytes = serialized_bytes(payload).update(
                payload.len() as int + 3,
                frame_checksum(payload) ^ (1u8 << bit),
            );
            let outs = run_outputs(initial_model(capacity), bytes);
            &&& outs.len() == payload.len() + 4
            &&& forall|j: int|
                0 <= j < outs.len() ==> outs[j] == Ok::<Option<Seq<u8>>, CapacityError>(None)
            &&& run(initial_model(capacity), bytes) == initial_model(capacity)
        }),
{
    let checksum = frame_checksum(payload);
    let flipped = checksum ^ (1u8 << bit);
    assert(flipped != checksum) by (bit_vector)
        requires
            flipped == checksum ^ (1u8 << bit),
            bit < 8,
    ;
    let bytes = serialized_bytes(payload).update(payload.len() as int + 3, flipped);
    assert(bytes =~= framed_with_checksum(payload, flipped));
    lemma_run_frame(capacity, payload, flipped);
}

/// Reset idempotence: the transition out of the checksum state — with a
/// matching checksum byte or not — and the transition that rejects an
/// oversized declared length both leave the receiver exactly in the state
/// of a freshly constructed one.
pub proof fn lemma_reset_after_attempt(m: ReceiverModel, byte: u8)
    requires
        m.state is ReceivingChecksum || (m.state is ReceivingLengthLsb && m.left + byte
            > m.capacity),
    ensures
        frame_step(m, byte).0 == initial_model(m.capacity),
{
}

} // verus!
