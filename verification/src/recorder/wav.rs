//! WAV files of stereo floating point samples.
//!
//! A file starts with a header whose two length fields are zero. Frames follow. When the
//! recording is over the two fields are filled in.

use vstd::prelude::*;

use crate::limiter::ZERO;
use crate::single::{single, Single};

verus! {

/// Number of bytes of the header.
pub const HEADER_BYTES: u64 = 44;

/// Number of bytes of a frame.
pub const FRAME_BYTES: u64 = 8;

/// Where the header holds the number of bytes that follow the field itself.
pub const RIFF_SIZE_AT: u64 = 4;

/// Where the header holds the number of bytes of all frames.
pub const DATA_SIZE_AT: u64 = 40;

/// What the first length counts beyond the frames.
pub const RIFF_OVERHEAD: u32 = 36;

/// A number as two bytes, the least significant one first.
pub open spec fn le16(value: u16) -> Seq<u8> {
    seq![(value % 256) as u8, (value / 256) as u8]
}

/// A number as four bytes, the least significant one first.
pub open spec fn le32(value: u32) -> Seq<u8> {
    seq![
        (value % 256) as u8,
        (value / 256 % 256) as u8,
        (value / 65536 % 256) as u8,
        (value / 16777216) as u8,
    ]
}

/// The number that the four bytes from `at` on stand for.
pub open spec fn read32(bytes: Seq<u8>, at: int) -> int {
    bytes[at] + 256 * bytes[at + 1] + 65536 * bytes[at + 2] + 16777216 * bytes[at + 3]
}

/// The number that the two bytes from `at` on stand for.
pub open spec fn read16(bytes: Seq<u8>, at: int) -> int {
    bytes[at] + 256 * bytes[at + 1]
}

/// Bytes per second of a stream of `sample_rate` frames a second.
pub open spec fn byte_rate(sample_rate: u32) -> u32 {
    if sample_rate * 8 > u32::MAX {
        u32::MAX
    } else {
        (sample_rate * 8) as u32
    }
}

/// The header: `RIFF`, its length, `WAVE`, a `fmt ` chunk of sixteen bytes for two
/// channels of 32 bit floating point samples, `data` and its length.
pub open spec fn header(sample_rate: u32, riff_size: u32, data_bytes: u32) -> Seq<u8> {
    seq![0x52u8, 0x49, 0x46, 0x46] + le32(riff_size) + seq![0x57u8, 0x41, 0x56, 0x45] + seq![
        0x66u8,
        0x6d,
        0x74,
        0x20,
    ] + le32(16) + le16(3) + le16(2) + le32(sample_rate) + le32(byte_rate(sample_rate)) + le16(8)
        + le16(32) + seq![0x64u8, 0x61, 0x74, 0x61] + le32(data_bytes)
}

/// A frame as eight bytes; a sample that is not a finite number is written as zero.
pub open spec fn frame_bytes(left: Single, right: Single) -> Seq<u8> {
    le32(left.finite_or(single(ZERO)).bits) + le32(right.finite_or(single(ZERO)).bits)
}

/// All frames, one after the other.
pub open spec fn payload(frames: Seq<(Single, Single)>) -> Seq<u8>
    decreases frames.len(),
{
    if frames.len() == 0 {
        Seq::empty()
    } else {
        payload(frames.drop_last()) + frame_bytes(frames.last().0, frames.last().1)
    }
}

/// `bytes` with `patch` written over what stood from `at` on.
pub open spec fn patched(bytes: Seq<u8>, at: int, patch: Seq<u8>) -> Seq<u8> {
    bytes.take(at) + patch + bytes.skip(at + patch.len())
}

/// Why a recording cannot be completed.
#[derive(Clone, Copy, Debug, PartialEq, Eq, Structural)]
pub enum WavError {
    /// The frames take more bytes than the length field can say.
    DataTooLong,
    /// The frames together with the header do.
    RiffTooLong,
}

impl WavError {
    pub open spec fn text(self) -> Seq<char> {
        match self {
            WavError::DataTooLong => "WAV 文件超过 RIFF 4GB 限制"@,
            WavError::RiffTooLong => "WAV RIFF 长度溢出"@,
        }
    }

    pub fn message(&self) -> (message: &'static str)
        ensures
            message@ == self.text(),
    {
        match self {
            WavError::DataTooLong => "WAV 文件超过 RIFF 4GB 限制",
            WavError::RiffTooLong => "WAV RIFF 长度溢出",
        }
    }
}

/// Four bytes that are to be written over a place in the file.
pub struct Patch {
    pub at: u64,
    pub bytes: Vec<u8>,
}

/// A file that is being written.
#[derive(Clone, Copy, Debug, PartialEq, Eq, Structural)]
pub struct FloatWavFile {
    /// Bytes of the frames written so far.
    pub data_bytes: u64,
}

fn push16(bytes: &mut Vec<u8>, value: u16)
    ensures
        final(bytes)@ == old(bytes)@ + le16(value),
{
    let ghost before = bytes@;
    bytes.push((value % 256) as u8);
    bytes.push((value / 256) as u8);
    proof {
        assert(bytes@ =~= before + le16(value));
    }
}

fn push32(bytes: &mut Vec<u8>, value: u32)
    ensures
        final(bytes)@ == old(bytes)@ + le32(value),
{
    let ghost before = bytes@;
    bytes.push((value % 256) as u8);
    bytes.push((value / 256 % 256) as u8);
    bytes.push((value / 65536 % 256) as u8);
    bytes.push((value / 16777216) as u8);
    proof {
        assert(bytes@ =~= before + le32(value));
    }
}

fn push_tag(bytes: &mut Vec<u8>, a: u8, b: u8, c: u8, d: u8)
    ensures
        final(bytes)@ == old(bytes)@ + seq![a, b, c, d],
{
    let ghost before = bytes@;
    bytes.push(a);
    bytes.push(b);
    bytes.push(c);
    bytes.push(d);
    proof {
        assert(bytes@ =~= before + seq![a, b, c, d]);
    }
}

/// What adding one frame to `data_bytes` gives; a count that would not fit stays at the
/// largest one.
pub open spec fn one_frame_more(data_bytes: u64) -> u64 {
    if data_bytes + 8 > u64::MAX {
        u64::MAX
    } else {
        (data_bytes + 8) as u64
    }
}

impl FloatWavFile {
    /// Starts a file: gives the bytes that it begins with.
    pub fn create(sample_rate: u32) -> (file: (FloatWavFile, Vec<u8>))
        ensures
            file.0.data_bytes == 0,
            file.1@ == header(sample_rate, 0, 0),
    {
        let mut bytes: Vec<u8> = Vec::new();
        let rate: u32 = if sample_rate > u32::MAX / 8 {
            u32::MAX
        } else {
            sample_rate * 8
        };
        push_tag(&mut bytes, 0x52, 0x49, 0x46, 0x46);
        push32(&mut bytes, 0);
        push_tag(&mut bytes, 0x57, 0x41, 0x56, 0x45);
        push_tag(&mut bytes, 0x66, 0x6d, 0x74, 0x20);
        push32(&mut bytes, 16);
        push16(&mut bytes, 3);
        push16(&mut bytes, 2);
        push32(&mut bytes, sample_rate);
        push32(&mut bytes, rate);
        push16(&mut bytes, 8);
        push16(&mut bytes, 32);
        push_tag(&mut bytes, 0x64, 0x61, 0x74, 0x61);
        push32(&mut bytes, 0);
        proof {
            assert(bytes@ =~= header(sample_rate, 0, 0));
        }
        (FloatWavFile { data_bytes: 0 }, bytes)
    }

    /// Gives the bytes of one more frame.
    pub fn write_frame(&mut self, left: Single, right: Single) -> (bytes: Vec<u8>)
        ensures
            bytes@ == frame_bytes(left, right),
            final(self).data_bytes == one_frame_more(old(self).data_bytes),
    {
        let zero = Single::from_bits(ZERO);
        let mut bytes: Vec<u8> = Vec::new();
        push32(&mut bytes, left.or_if_not_finite(zero).to_bits());
        push32(&mut bytes, right.or_if_not_finite(zero).to_bits());
        proof {
            assert(bytes@ =~= frame_bytes(left, right));
        }
        self.data_bytes = if self.data_bytes > u64::MAX - 8 {
            u64::MAX
        } else {
            self.data_bytes + 8
        };
        bytes
    }

    /// Gives what is to be filled in once the last frame is written.
    pub fn finalize(self) -> (patches: Result<(Patch, Patch), WavError>)
        ensures
            self.data_bytes > u32::MAX <==> patches == Err::<(Patch, Patch), WavError>(
                WavError::DataTooLong,
            ),
            u32::MAX - RIFF_OVERHEAD < self.data_bytes <= u32::MAX <==> patches == Err::<
                (Patch, Patch),
                WavError,
            >(WavError::RiffTooLong),
            self.data_bytes <= u32::MAX - RIFF_OVERHEAD ==> {
                &&& patches matches Ok((riff, data))
                &&& riff.at == RIFF_SIZE_AT
                &&& riff.bytes@ == le32((self.data_bytes + RIFF_OVERHEAD) as u32)
                &&& data.at == DATA_SIZE_AT
                &&& data.bytes@ == le32(self.data_bytes as u32)
            },
    {
        if self.data_bytes > u32::MAX as u64 {
            return Err(WavError::DataTooLong);
        }
        let data_bytes: u32 = self.data_bytes as u32;
        if data_bytes > u32::MAX - RIFF_OVERHEAD {
            return Err(WavError::RiffTooLong);
        }
        let mut riff: Vec<u8> = Vec::new();
        push32(&mut riff, data_bytes + RIFF_OVERHEAD);
        let mut data: Vec<u8> = Vec::new();
        push32(&mut data, data_bytes);
        proof {
            assert(riff@ =~= le32((data_bytes + RIFF_OVERHEAD) as u32));
            assert(data@ =~= le32(data_bytes));
        }
        Ok((Patch { at: RIFF_SIZE_AT, bytes: riff }, Patch { at: DATA_SIZE_AT, bytes: data }))
    }
}

/// Four bytes written for a number are read back as that number.
proof fn lemma_read32(value: u32, bytes: Seq<u8>, at: int)
    requires
        0 <= at,
        at + 4 <= bytes.len(),
        bytes.subrange(at, at + 4) == le32(value),
    ensures
        read32(bytes, at) == value,
{
    let part = bytes.subrange(at, at + 4);
    assert(part[0] == bytes[at]);
    assert(part[1] == bytes[at + 1]);
    assert(part[2] == bytes[at + 2]);
    assert(part[3] == bytes[at + 3]);
}

/// Filling in the two lengths of a header gives the header with these lengths.
pub proof fn law_patches_complete_the_header(
    sample_rate: u32,
    riff_size: u32,
    data_bytes: u32,
    frames: Seq<u8>,
)
    ensures
        patched(
            patched(header(sample_rate, 0, 0) + frames, RIFF_SIZE_AT as int, le32(riff_size)),
            DATA_SIZE_AT as int,
            le32(data_bytes),
        ) == header(sample_rate, riff_size, data_bytes) + frames,
{
    assert(patched(
        patched(header(sample_rate, 0, 0) + frames, RIFF_SIZE_AT as int, le32(riff_size)),
        DATA_SIZE_AT as int,
        le32(data_bytes),
    ) =~= header(sample_rate, riff_size, data_bytes) + frames);
}

/// What a reader finds in the header: the format is two channels of 32 bit floating point
/// samples at the rate of the stream, and the lengths are those that were filled in.
pub proof fn law_header_is_read_back(
    sample_rate: u32,
    riff_size: u32,
    data_bytes: u32,
    frames: Seq<u8>,
)
    ensures
        ({
            let file = header(sample_rate, riff_size, data_bytes) + frames;
            &&& file.len() == HEADER_BYTES + frames.len()
            &&& file.subrange(0, 4) == seq![0x52u8, 0x49, 0x46, 0x46]
            &&& read32(file, 4) == riff_size
            &&& file.subrange(8, 12) == seq![0x57u8, 0x41, 0x56, 0x45]
            &&& file.subrange(12, 16) == seq![0x66u8, 0x6d, 0x74, 0x20]
            &&& read32(file, 16) == 16
            &&& read16(file, 20) == 3
            &&& read16(file, 22) == 2
            &&& read32(file, 24) == sample_rate
            &&& read32(file, 28) == byte_rate(sample_rate)
            &&& read16(file, 32) == 8
            &&& read16(file, 34) == 32
            &&& file.subrange(36, 40) == seq![0x64u8, 0x61, 0x74, 0x61]
            &&& read32(file, 40) == data_bytes
        }),
{
    let file = header(sample_rate, riff_size, data_bytes) + frames;
    assert(file.subrange(0, 4) =~= seq![0x52u8, 0x49, 0x46, 0x46]);
    assert(file.subrange(8, 12) =~= seq![0x57u8, 0x41, 0x56, 0x45]);
    assert(file.subrange(12, 16) =~= seq![0x66u8, 0x6d, 0x74, 0x20]);
    assert(file.subrange(36, 40) =~= seq![0x64u8, 0x61, 0x74, 0x61]);
    assert(file.subrange(4, 8) =~= le32(riff_size));
    assert(file.subrange(16, 20) =~= le32(16));
    assert(file.subrange(24, 28) =~= le32(sample_rate));
    assert(file.subrange(28, 32) =~= le32(byte_rate(sample_rate)));
    assert(file.subrange(40, 44) =~= le32(data_bytes));
    lemma_read32(riff_size, file, 4);
    lemma_read32(16, file, 16);
    lemma_read32(sample_rate, file, 24);
    lemma_read32(byte_rate(sample_rate), file, 28);
    lemma_read32(data_bytes, file, 40);
}

/// Every frame that was written is read back, a sample that was not finite as zero.
pub proof fn law_frames_are_read_back(frames: Seq<(Single, Single)>, at: int)
    requires
        0 <= at < frames.len(),
    ensures
        payload(frames).len() == FRAME_BYTES * frames.len(),
        read32(payload(frames), FRAME_BYTES * at) == frames[at].0.finite_or(single(ZERO)).bits,
        read32(payload(frames), FRAME_BYTES * at + 4) == frames[at].1.finite_or(
            single(ZERO),
        ).bits,
    decreases frames.len(),
{
    let rest = frames.drop_last();
    let last = frames.last();
    lemma_payload_length(rest);
    lemma_payload_length(frames);
    if at == frames.len() - 1 {
        let start = FRAME_BYTES * at;
        assert(payload(frames).subrange(start, start + 4) =~= le32(
            last.0.finite_or(single(ZERO)).bits,
        ));
        assert(payload(frames).subrange(start + 4, start + 8) =~= le32(
            last.1.finite_or(single(ZERO)).bits,
        ));
        lemma_read32(last.0.finite_or(single(ZERO)).bits, payload(frames), start);
        lemma_read32(last.1.finite_or(single(ZERO)).bits, payload(frames), start + 4);
    } else {
        law_frames_are_read_back(rest, at);
        assert(rest[at] == frames[at]);
        assert(forall|i: int|
            0 <= i < payload(rest).len() ==> payload(frames)[i] == #[trigger] payload(rest)[i]);
    }
}

proof fn lemma_payload_length(frames: Seq<(Single, Single)>)
    ensures
        payload(frames).len() == FRAME_BYTES * frames.len(),
    decreases frames.len(),
{
    if frames.len() > 0 {
        lemma_payload_length(frames.drop_last());
    }
}

/// The two lengths of a completed file are those of the file as a whole: the first counts
/// what follows it, the second counts the frames.
pub proof fn law_completed_file_is_consistent(sample_rate: u32, frames: Seq<(Single, Single)>)
    requires
        FRAME_BYTES * frames.len() <= u32::MAX - RIFF_OVERHEAD,
    ensures
        ({
            let data_bytes = (FRAME_BYTES * frames.len()) as u32;
            let file = header(
                sample_rate,
                (data_bytes + RIFF_OVERHEAD) as u32,
                data_bytes,
            ) + payload(frames);
            &&& read32(file, RIFF_SIZE_AT as int) == file.len() - 8
            &&& read32(file, DATA_SIZE_AT as int) == file.len() - HEADER_BYTES
        }),
{
    lemma_payload_length(frames);
    let data_bytes = (FRAME_BYTES * frames.len()) as u32;
    law_header_is_read_back(
        sample_rate,
        (data_bytes + RIFF_OVERHEAD) as u32,
        data_bytes,
        payload(frames),
    );
}

/// A second takes eight bytes for each of its frames, as far as the field for it reaches.
pub proof fn law_second_takes_eight_bytes_a_frame(sample_rate: u32, left: Single, right: Single)
    ensures
        byte_rate(sample_rate) <= sample_rate * frame_bytes(left, right).len(),
        sample_rate < 0x2000_0000 ==> byte_rate(sample_rate) == sample_rate * frame_bytes(
            left,
            right,
        ).len(),
        sample_rate >= 0x2000_0000 ==> byte_rate(sample_rate) == u32::MAX,
{
    assert(frame_bytes(left, right).len() == 8);
}

/// Every frame adds to the count as many bytes as it takes, until the count is full.
pub proof fn law_frames_are_counted_in_bytes(data_bytes: u64, left: Single, right: Single)
    ensures
        data_bytes + frame_bytes(left, right).len() <= u64::MAX ==> one_frame_more(data_bytes)
            == data_bytes + frame_bytes(left, right).len(),
        data_bytes + frame_bytes(left, right).len() > u64::MAX ==> one_frame_more(data_bytes)
            == u64::MAX,
{
    assert(frame_bytes(left, right).len() == 8);
}

} // verus!
