//! Run-length expansion state machine.
//!
//! Encoded bytes are consumed one at a time. Outside a run, a byte is either
//! one of the two escape markers (`0x55`, `0xAA`) or a literal pixel byte.
//! After a marker, `0x00` stands for the marker byte itself as a literal, a
//! byte below `0x80` is a 7-bit run length, and a byte with the high bit set
//! carries the low 7 bits of a 14-bit run length whose high 7 bits follow in
//! the next byte. A run expands to copies of `0x00` (marker `0x55`) or `0xFF`
//! (marker `0xAA`), truncated at the frame boundary; the excess is discarded.

use vstd::prelude::*;

verus! {

/// Size in bytes of one decoded frame: a 128x64 bitmap at one bit per pixel.
pub const FRAME_SIZE: usize = 1024;

/// The two escape markers, and the absence of one.
///
/// In the decoder state, `-1` means no marker is pending; otherwise the
/// pending marker byte itself is stored.
pub open spec fn valid_marker(marker: int) -> bool {
    marker == -1 || marker == 0x55 || marker == 0xaa
}

/// Well-formed cursor state of the byte-level machine: the pending marker is
/// one of the two reserved bytes or absent, and a partial run length is a
/// 7-bit value that can only be pending while a marker is.
pub open spec fn valid_state(marker: int, partial: int) -> bool {
    &&& valid_marker(marker)
    &&& (partial == -1 || (0 <= partial <= 0x7f && marker != -1))
}

/// The pixel byte a run expands to: all zeros for marker `0x55`, all ones
/// for marker `0xAA`.
pub open spec fn run_value(marker: int) -> u8 {
    if marker == 0x55 {
        0u8
    } else {
        0xffu8
    }
}

/// Marker component of the state after consuming one input byte `c`.
pub open spec fn step_marker(marker: int, partial: int, c: u8) -> int {
    if marker == -1 {
        if c == 0x55 || c == 0xaa {
            c as int
        } else {
            -1
        }
    } else if partial == -1 {
        if c >= 0x80 {
            marker
        } else {
            -1
        }
    } else {
        -1
    }
}

/// Partial-run-length component of the state after consuming one byte `c`:
/// the low 7 bits of a 14-bit run length, kept until the high byte arrives.
pub open spec fn step_partial(marker: int, partial: int, c: u8) -> int {
    if marker == -1 {
        partial
    } else if partial == -1 {
        if c >= 0x80 {
            c - 0x80
        } else {
            -1
        }
    } else {
        -1
    }
}

/// The pixel bytes that consuming one input byte `c` asks to emit, before
/// any truncation at the frame boundary.
pub open spec fn step_emit(marker: int, partial: int, c: u8) -> Seq<u8> {
    if marker == -1 {
        if c == 0x55 || c == 0xaa {
            Seq::empty()
        } else {
            seq![c]
        }
    } else if partial == -1 {
        if c == 0 {
            seq![marker as u8]
        } else if c < 0x80 {
            Seq::new(c as nat, |i: int| run_value(marker))
        } else {
            Seq::empty()
        }
    } else {
        Seq::new((partial + c * 0x80) as nat, |i: int| run_value(marker))
    }
}

/// Write cursor after emitting `n` bytes from position `at`, capped at the
/// frame boundary.
pub open spec fn fill_end(at: int, n: int) -> int {
    if at + n <= FRAME_SIZE {
        at + n
    } else {
        FRAME_SIZE as int
    }
}

/// `buf` with `bytes` written at position `at`; whatever would fall past the
/// end of `buf` is discarded.
pub open spec fn write_at(buf: Seq<u8>, at: int, bytes: Seq<u8>) -> Seq<u8> {
    Seq::new(buf.len(), |i: int| if at <= i < at + bytes.len() { bytes[i - at] } else { buf[i] })
}

/// Model of the decoder together with the frame buffer it fills: the read
/// cursor into the encoded stream, the pending marker and partial run
/// length, the write cursor, and the buffer contents.
#[verifier::ext_equal]
pub struct DecodeState {
    pub pos: int,
    pub marker: int,
    pub partial: int,
    pub written: int,
    pub buf: Seq<u8>,
}

impl DecodeState {
    /// A freshly reset decoder over the given buffer: everything rewound,
    /// nothing pending.
    pub open spec fn reset_with(buf: Seq<u8>) -> DecodeState {
        DecodeState { pos: 0, marker: -1, partial: -1, written: 0, buf }
    }
}

/// The model after consuming one input byte `c`: the read cursor advances,
/// the machine steps, and the emitted bytes land in the buffer, truncated at
/// the frame boundary.
pub open spec fn step_state(s: DecodeState, c: u8) -> DecodeState {
    let emitted = step_emit(s.marker, s.partial, c);
    DecodeState {
        pos: s.pos + 1,
        marker: step_marker(s.marker, s.partial, c),
        partial: step_partial(s.marker, s.partial, c),
        written: fill_end(s.written, emitted.len() as int),
        buf: write_at(s.buf, s.written, emitted),
    }
}

/// The model after one whole `decode_frame` pass: input bytes are consumed
/// one at a time until the buffer is full or the stream is exhausted.
pub open spec fn spec_decode_frame(stream: Seq<u8>, s: DecodeState) -> DecodeState
    decreases stream.len() - s.pos,
{
    if s.pos < 0 || s.written >= FRAME_SIZE || s.pos >= stream.len() {
        s
    } else {
        spec_decode_frame(stream, step_state(s, stream[s.pos]))
    }
}

/// A whole `decode_frame` call as a transformation of the model state: the
/// decoder first rewinds if the stream is exhausted, then decodes until the
/// buffer is full or the stream runs out, and the write cursor rewinds when
/// the frame completed.
pub open spec fn after_call(stream: Seq<u8>, s: DecodeState) -> DecodeState {
    let r = spec_decode_frame(stream, start_state(s, stream.len() as int));
    DecodeState {
        pos: r.pos,
        marker: r.marker,
        partial: r.partial,
        written: if r.written == FRAME_SIZE {
            0int
        } else {
            r.written
        },
        buf: r.buf,
    }
}

/// The state a `decode_frame` call actually decodes from: when the read
/// cursor is at or past the end of the stream, the decoder rewinds fully and
/// playback loops; otherwise it continues where it stood.
pub open spec fn start_state(s: DecodeState, stream_len: int) -> DecodeState {
    if s.pos >= stream_len {
        DecodeState::reset_with(s.buf)
    } else {
        s
    }
}

/// Write `count` copies of `byte` into the frame buffer at `*bytes_written`,
/// truncated at the frame boundary, and advance the cursor by the number of
/// bytes actually written. No index at or past `FRAME_SIZE` is ever touched.
pub fn put_bytes(
    frame_buffer: &mut [u8; FRAME_SIZE],
    byte: u8,
    count: i32,
    bytes_written: &mut usize,
)
    requires
        count >= 0,
        *old(bytes_written) <= FRAME_SIZE,
    ensures
        *final(bytes_written) == fill_end(*old(bytes_written) as int, count as int),
        *final(bytes_written) <= FRAME_SIZE,
        final(frame_buffer)@ == write_at(
            old(frame_buffer)@,
            *old(bytes_written) as int,
            Seq::new(count as nat, |i: int| byte),
        ),
{
    let ghost buf0 = frame_buffer@;
    let ghost bw0 = *bytes_written;
    let count_usize = count as usize;
    let end = if count_usize < FRAME_SIZE - *bytes_written {
        *bytes_written + count_usize
    } else {
        FRAME_SIZE
    };
    let mut i: usize = *bytes_written;
    while i < end
        invariant
            bw0 <= i <= end <= FRAME_SIZE,
            end == fill_end(bw0 as int, count as int),
            frame_buffer@.len() == FRAME_SIZE,
            buf0.len() == FRAME_SIZE,
            forall|j: int| bw0 <= j < i ==> frame_buffer@[j] == byte,
            forall|j: int| (0 <= j < bw0 || i <= j < FRAME_SIZE) ==> frame_buffer@[j] == buf0[j],
        decreases end - i,
    {
        frame_buffer[i] = byte;
        i = i + 1;
    }
    *bytes_written = end;
    proof {
        assert(frame_buffer@ =~= write_at(buf0, bw0 as int, Seq::new(count as nat, |i: int| byte)));
    }
}

/// Consume one encoded byte `c`, advancing the cursor state and writing any
/// emitted pixel bytes into the frame buffer, truncated at the frame
/// boundary. `c_to_dup` holds the pending escape marker (`-1` for none) and
/// `runlength` the pending low 7 bits of a 14-bit run length (`-1` for none).
pub fn decode_rle(
    frame_buffer: &mut [u8; FRAME_SIZE],
    c: u8,
    runlength: &mut i32,
    c_to_dup: &mut i32,
    bytes_written: &mut usize,
)
    requires
        valid_state(*old(c_to_dup) as int, *old(runlength) as int),
        *old(bytes_written) <= FRAME_SIZE,
    ensures
        *final(c_to_dup) == step_marker(*old(c_to_dup) as int, *old(runlength) as int, c),
        *final(runlength) == step_partial(*old(c_to_dup) as int, *old(runlength) as int, c),
        *final(bytes_written) == fill_end(
            *old(bytes_written) as int,
            step_emit(*old(c_to_dup) as int, *old(runlength) as int, c).len() as int,
        ),
        *final(bytes_written) <= FRAME_SIZE,
        final(frame_buffer)@ == write_at(
            old(frame_buffer)@,
            *old(bytes_written) as int,
            step_emit(*old(c_to_dup) as int, *old(runlength) as int, c),
        ),
        valid_state(*final(c_to_dup) as int, *final(runlength) as int),
{
    let ghost m = *c_to_dup as int;
    let ghost p = *runlength as int;
    let ghost buf0 = frame_buffer@;
    let ghost bw0 = *bytes_written as int;
    if *c_to_dup == -1 {
        if c == 0x55 || c == 0xaa {
            *c_to_dup = c as i32;
            proof {
                assert(frame_buffer@ =~= write_at(buf0, bw0, step_emit(m, p, c)));
            }
        } else {
            put_bytes(frame_buffer, c, 1, bytes_written);
            proof {
                assert(Seq::new(1nat, |i: int| c) =~= step_emit(m, p, c));
            }
        }
    } else {
        if *runlength == -1 {
            if c == 0 {
                put_bytes(frame_buffer, (*c_to_dup & 0xff) as u8, 1, bytes_written);
                *c_to_dup = -1;
                proof {
                    assert(0x55i32 & 0xff == 0x55i32) by (bit_vector);
                    assert(0xaai32 & 0xff == 0xaai32) by (bit_vector);
                    assert(Seq::new(1nat, |i: int| (m as i32 & 0xff) as u8) =~= step_emit(m, p, c));
                }
            } else if (c & 0x80) == 0 {
                proof {
                    assert(c & 0x80 == 0 ==> c < 0x80) by (bit_vector);
                }
                let val: u8 = if *c_to_dup == 0x55 {
                    0
                } else {
                    255
                };
                put_bytes(frame_buffer, val, c as i32, bytes_written);
                *c_to_dup = -1;
                proof {
                    assert(Seq::new(c as nat, |i: int| val) =~= step_emit(m, p, c));
                }
            } else {
                *runlength = (c & 0x7f) as i32;
                proof {
                    assert(c & 0x80 != 0 ==> (c >= 0x80 && (c & 0x7f) == (c - 0x80) as u8)) by (bit_vector);
                    assert(frame_buffer@ =~= write_at(buf0, bw0, step_emit(m, p, c)));
                }
            }
        } else {
            let low: i32 = *runlength;
            let combined: i32 = low | ((c as i32) << 7);
            proof {
                assert(0 <= low <= 0x7f ==> combined == low + (c as i32) * 0x80 && (c as i32)
                    == c as int) by (bit_vector)
                    requires
                        combined == low | ((c as i32) << 7),
                ;
            }
            *runlength = combined;
            let val: u8 = if *c_to_dup == 0x55 {
                0
            } else {
                255
            };
            put_bytes(frame_buffer, val, *runlength, bytes_written);
            *c_to_dup = -1;
            *runlength = -1;
            proof {
                assert(Seq::new(combined as nat, |i: int| val) =~= step_emit(m, p, c));
            }
        }
    }
}

/// Decoder cursor state, owned by the frame pump and carried across
/// `decode_frame` calls.
pub struct RleDecoder {
    /// Index into the encoded stream of the next byte to consume.
    pub src_pos: usize,
    /// Pending low 7 bits of a 14-bit run length, or `-1` for none.
    pub runlength: i32,
    /// Pending escape marker byte, or `-1` for none.
    pub c_to_dup: i32,
    /// Pixel bytes produced so far for the current, possibly partial, frame.
    pub bytes_written: usize,
}

impl RleDecoder {
    /// Well-formed decoder: the cursor state is a state the byte-level
    /// machine can be in, and the write cursor is within the frame.
    pub open spec fn wf(&self) -> bool {
        &&& valid_state(self.c_to_dup as int, self.runlength as int)
        &&& self.bytes_written <= FRAME_SIZE
    }

    /// A decoder that is fully rewound with nothing pending.
    pub open spec fn is_reset(&self) -> bool {
        &&& self.src_pos == 0
        &&& self.runlength == -1
        &&& self.c_to_dup == -1
        &&& self.bytes_written == 0
    }

    /// This decoder, as the model state over the given buffer contents.
    pub open spec fn with_buf(&self, buf: Seq<u8>) -> DecodeState {
        DecodeState {
            pos: self.src_pos as int,
            marker: self.c_to_dup as int,
            partial: self.runlength as int,
            written: self.bytes_written as int,
            buf,
        }
    }

    /// A freshly reset decoder, ready to play a stream from its start.
    pub fn new() -> (d: Self)
        ensures
            d.is_reset(),
            d.wf(),
    {
        Self { src_pos: 0, runlength: -1, c_to_dup: -1, bytes_written: 0 }
    }

    /// Rewind to the start of the stream and drop any pending marker,
    /// partial run length and partial frame.
    pub fn reset(&mut self)
        ensures
            final(self).is_reset(),
            final(self).wf(),
    {
        self.src_pos = 0;
        self.runlength = -1;
        self.c_to_dup = -1;
        self.bytes_written = 0;
    }

    /// Decode one frame: consume stream bytes from the stored position,
    /// filling the frame buffer from the stored write cursor, until the
    /// buffer is full (returns `true`, and the write cursor rewinds for the
    /// next frame) or the stream is exhausted (returns `false`, leaving a
    /// partial frame). A call made at or past the end of the stream first
    /// resets the decoder, so playback loops forever.
    pub fn decode_frame(
        &mut self,
        frame_buffer: &mut [u8; FRAME_SIZE],
        rle_data: &[u8],
    ) -> (complete: bool)
        requires
            old(self).wf(),
        ensures
            final(self).wf(),
            ({
                let s1 = spec_decode_frame(
                    rle_data@,
                    start_state(old(self).with_buf(old(frame_buffer)@), rle_data@.len() as int),
                );
                &&& final(frame_buffer)@ == s1.buf
                &&& final(self).src_pos == s1.pos
                &&& final(self).c_to_dup == s1.marker
                &&& final(self).runlength == s1.partial
                &&& complete == (s1.written == FRAME_SIZE)
                &&& final(self).bytes_written == if complete {
                    0int
                } else {
                    s1.written
                }
            }),
            final(self).with_buf(final(frame_buffer)@) == after_call(
                rle_data@,
                old(self).with_buf(old(frame_buffer)@),
            ),
            !complete ==> final(self).src_pos == rle_data@.len(),
    {
        if self.src_pos >= rle_data.len() {
            self.reset();
        }
        let ghost s0 = self.with_buf(frame_buffer@);
        proof {
            assert(s0 =~= start_state(
                old(self).with_buf(old(frame_buffer)@),
                rle_data@.len() as int,
            ));
        }
        while self.bytes_written < FRAME_SIZE && self.src_pos < rle_data.len()
            invariant
                self.wf(),
                self.src_pos <= rle_data@.len(),
                frame_buffer@.len() == FRAME_SIZE,
                spec_decode_frame(rle_data@, self.with_buf(frame_buffer@)) == spec_decode_frame(
                    rle_data@,
                    s0,
                ),
            decreases rle_data@.len() - self.src_pos,
        {
            let ghost pre = self.with_buf(frame_buffer@);
            let c = rle_data[self.src_pos];
            decode_rle(
                frame_buffer,
                c,
                &mut self.runlength,
                &mut self.c_to_dup,
                &mut self.bytes_written,
            );
            self.src_pos = self.src_pos + 1;
            proof {
                assert(self.with_buf(frame_buffer@) =~= step_state(pre, rle_data@[pre.pos]));
            }
        }
        proof {
            assert(spec_decode_frame(rle_data@, self.with_buf(frame_buffer@)) == self.with_buf(
                frame_buffer@,
            ));
        }
        let complete = self.bytes_written == FRAME_SIZE;
        if complete {
            self.bytes_written = 0;
        }
        proof {
            assert(self.with_buf(frame_buffer@) =~= after_call(
                rle_data@,
                old(self).with_buf(old(frame_buffer)@),
            ));
        }
        complete
    }
}

/// The decoder never touches a byte outside the frame: one decode step
/// writes only between the old write cursor and the frame boundary, and the
/// write cursor never passes `FRAME_SIZE`.
pub proof fn lemma_writes_stay_in_frame(s: DecodeState, c: u8)
    requires
        0 <= s.written <= FRAME_SIZE,
        s.buf.len() == FRAME_SIZE,
    ensures
        ({
            let r = step_state(s, c);
            &&& r.written <= FRAME_SIZE
            &&& r.buf.len() == FRAME_SIZE
            &&& forall|j: int|
                (0 <= j < s.written || r.written <= j < FRAME_SIZE) ==> r.buf[j] == s.buf[j]
        }),
{
}

/// Truncation at capacity: when one input byte calls for a longer run than
/// the frame has room left for, the frame fills exactly to `FRAME_SIZE`, the
/// excess is discarded, and the machine returns to the ground state, so
/// nothing of the discarded run can reach the next frame.
pub proof fn lemma_truncation(s: DecodeState, c: u8)
    requires
        valid_state(s.marker, s.partial),
        0 <= s.written <= FRAME_SIZE,
        s.buf.len() == FRAME_SIZE,
        step_emit(s.marker, s.partial, c).len() > FRAME_SIZE - s.written,
    ensures
        ({
            let r = step_state(s, c);
            &&& r.written == FRAME_SIZE
            &&& r.marker == -1
            &&& r.partial == -1
            &&& forall|j: int|
                s.written <= j < FRAME_SIZE ==> r.buf[j] == step_emit(s.marker, s.partial, c)[j
                    - s.written]
            &&& forall|j: int| 0 <= j < s.written ==> r.buf[j] == s.buf[j]
        }),
{
}

/// Looping playback: a `decode_frame` call made with the read cursor at or
/// past the end of the stream decodes exactly what the first call of a
/// freshly reset decoder over the same buffer decodes.
pub proof fn lemma_looping(stream: Seq<u8>, exhausted: DecodeState)
    requires
        exhausted.pos >= stream.len(),
    ensures
        after_call(stream, exhausted) == after_call(
            stream,
            DecodeState::reset_with(exhausted.buf),
        ),
{
}

/// Full cycles are repeatable: two playback runs over the same stream whose
/// first states are equal, each later state being what one `decode_frame`
/// call makes of the one before, step through identical states. Decoding a
/// fixed stream twice from a freshly reset decoder therefore produces
/// byte-identical frame-buffer sequences.
pub proof fn lemma_replay_identical(
    stream: Seq<u8>,
    t1: Seq<DecodeState>,
    t2: Seq<DecodeState>,
    i: int,
)
    requires
        t1.len() == t2.len(),
        t1.len() > 0,
        t1[0] == t2[0],
        forall|j: int| 0 < j < t1.len() ==> #[trigger] t1[j] == after_call(stream, t1[j - 1]),
        forall|j: int| 0 < j < t2.len() ==> #[trigger] t2[j] == after_call(stream, t2[j - 1]),
        0 <= i < t1.len(),
    ensures
        t1[i] == t2[i],
    decreases i,
{
    if i > 0 {
        lemma_replay_identical(stream, t1, t2, i - 1);
    }
}

} // verus!

