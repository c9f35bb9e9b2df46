//! Typed audio messages and their little-endian wire encoding.
//!
//! A `Spec` message is ten bytes: tag `0x01`, channels (2), sample rate (4),
//! bits per sample (2) and the sample format tag (1). A `Samples` message is
//! tag `0x02`, a sample count (4) and two bytes per sample.

use vstd::prelude::*;

verus! {

/// Wire tag of a format descriptor message.
pub const SPEC_TAG: u8 = 1;

/// Wire tag of a sample batch message.
pub const SAMPLES_TAG: u8 = 2;

/// Length in bytes of an encoded `Spec` message.
pub const SPEC_MSG_LEN: usize = 10;

/// Length in bytes of the header of an encoded `Samples` message.
pub const SAMPLES_HEADER_LEN: usize = 5;

/// Bytes per encoded sample.
pub const SAMPLE_SIZE: usize = 2;

/// Largest number of samples one message may carry, so that the byte count
/// of the samples fits in 32 bits.
pub const MAX_SAMPLES: usize = 2147483647;

/// How the samples of a stream are represented.
#[derive(Clone, Copy, Debug, PartialEq, Eq, Structural)]
pub enum SampleFormat {
    Float,
    Int,
}

/// The format of a stream: fixed for the stream's lifetime.
#[derive(Clone, Copy, Debug, PartialEq, Eq, Structural)]
pub struct AudioSpec {
    pub channels: u16,
    pub sample_rate: u32,
    pub bits_per_sample: u16,
    pub sample_format: SampleFormat,
}

/// A message on the wire: a format descriptor or a batch of samples.
#[derive(Debug, PartialEq)]
pub enum AudioMessage {
    Spec(AudioSpec),
    Samples(Vec<i16>),
}

/// The reason an encoding was refused.
#[derive(Clone, Copy, Debug, PartialEq, Eq, Structural)]
pub enum LengthError {
    TooLong { len: usize },
}

/// The reason a byte sequence is not a message.
#[derive(Clone, Copy, Debug, PartialEq, Eq, Structural)]
pub enum DeserializationError {
    IncorrectAudioMessageType { kind: u8 },
    DataLengthMismatch { expected_length: usize, current_length: usize },
    UnknownWaveSpecSampleFormat,
    /// A `Samples` message of the right length declares more than
    /// `MAX_SAMPLES` samples.
    TooManySamples { count: u32 },
}

/// The abstract content of a message: what the wire encoding carries.
pub ghost enum MessageModel {
    Spec(AudioSpec),
    Samples(Seq<i16>),
}

impl View for AudioMessage {
    type V = MessageModel;

    open spec fn view(&self) -> MessageModel {
        match self {
            AudioMessage::Spec(s) => MessageModel::Spec(*s),
            AudioMessage::Samples(v) => MessageModel::Samples(v@),
        }
    }
}

/// Little-endian bytes of a 16-bit value.
pub open spec fn le16(x: u16) -> Seq<u8> {
    seq![(x % 256) as u8, (x / 256) as u8]
}

/// Little-endian bytes of a 32-bit value.
pub open spec fn le32(x: u32) -> Seq<u8> {
    seq![(x % 256) as u8, ((x / 256) % 256) as u8, ((x / 65536) % 256) as u8, (x / 16777216) as u8]
}

/// The value of two little-endian bytes.
pub open spec fn from_le16(b0: u8, b1: u8) -> u16 {
    (b0 + 256 * b1) as u16
}

/// The value of four little-endian bytes.
pub open spec fn from_le32(b0: u8, b1: u8, b2: u8, b3: u8) -> u32 {
    (b0 + 256 * b1 + 65536 * b2 + 16777216 * b3) as u32
}

/// The two's complement bit pattern of a sample.
pub open spec fn sample_bits(s: i16) -> u16 {
    if s < 0 { (s + 65536) as u16 } else { s as u16 }
}

/// The sample whose two's complement bit pattern is `u`.
pub open spec fn sample_of_bits(u: u16) -> i16 {
    if u >= 32768 { (u - 65536) as i16 } else { u as i16 }
}

/// Wire tag of a sample format.
pub open spec fn format_tag(f: SampleFormat) -> u8 {
    match f {
        SampleFormat::Float => 1,
        SampleFormat::Int => 2,
    }
}

/// Bytes of a sample sequence, two little-endian bytes per sample.
pub open spec fn samples_bytes(s: Seq<i16>) -> Seq<u8>
    decreases s.len(),
{
    if s.len() == 0 {
        seq![]
    } else {
        samples_bytes(s.drop_last()) + le16(sample_bits(s.last()))
    }
}

/// Encoding of a format descriptor.
pub open spec fn spec_bytes(spec: AudioSpec) -> Seq<u8> {
    seq![SPEC_TAG] + le16(spec.channels) + le32(spec.sample_rate) + le16(spec.bits_per_sample)
        + seq![format_tag(spec.sample_format)]
}

/// Whether a message can be encoded: a batch holds at most `MAX_SAMPLES` samples.
pub open spec fn encodable(m: MessageModel) -> bool {
    match m {
        MessageModel::Spec(_) => true,
        MessageModel::Samples(s) => s.len() <= MAX_SAMPLES,
    }
}

/// Encoding of an encodable message.
pub open spec fn encoding(m: MessageModel) -> Seq<u8> {
    match m {
        MessageModel::Spec(spec) => spec_bytes(spec),
        MessageModel::Samples(s) => seq![SAMPLES_TAG] + le32(s.len() as u32) + samples_bytes(s),
    }
}


/// The samples carried by `b`, two little-endian bytes each.
pub open spec fn samples_of(b: Seq<u8>) -> Seq<i16> {
    Seq::new(b.len() / 2, |i: int| sample_of_bits(from_le16(b[2 * i], b[2 * i + 1])))
}

/// The sample count declared in the header of a `Samples` message.
pub open spec fn declared_count(b: Seq<u8>) -> u32 {
    from_le32(b[1], b[2], b[3], b[4])
}

/// Decoding of a byte sequence: the message it encodes, or why it encodes none.
pub open spec fn parse(b: Seq<u8>) -> Result<MessageModel, DeserializationError> {
    if b.len() == 0 {
        Err(DeserializationError::DataLengthMismatch { expected_length: 1, current_length: 0 })
    } else if b[0] == SPEC_TAG {
        if b.len() != SPEC_MSG_LEN {
            Err(
                DeserializationError::DataLengthMismatch {
                    expected_length: SPEC_MSG_LEN,
                    current_length: b.len() as usize,
                },
            )
        } else if b[9] != 1 && b[9] != 2 {
            Err(DeserializationError::UnknownWaveSpecSampleFormat)
        } else {
            Ok(
                MessageModel::Spec(
                    AudioSpec {
                        channels: from_le16(b[1], b[2]),
                        sample_rate: from_le32(b[3], b[4], b[5], b[6]),
                        bits_per_sample: from_le16(b[7], b[8]),
                        sample_format: if b[9] == 1 {
                            SampleFormat::Float
                        } else {
                            SampleFormat::Int
                        },
                    },
                ),
            )
        }
    } else if b[0] == SAMPLES_TAG {
        if b.len() < SAMPLES_HEADER_LEN {
            Err(
                DeserializationError::DataLengthMismatch {
                    expected_length: SAMPLES_HEADER_LEN,
                    current_length: b.len() as usize,
                },
            )
        } else if b.len() != SAMPLES_HEADER_LEN + 2 * declared_count(b) {
            Err(
                DeserializationError::DataLengthMismatch {
                    expected_length: (SAMPLES_HEADER_LEN + 2 * declared_count(b)) as usize,
                    current_length: b.len() as usize,
                },
            )
        } else if declared_count(b) > MAX_SAMPLES {
            Err(DeserializationError::TooManySamples { count: declared_count(b) })
        } else {
            Ok(MessageModel::Samples(samples_of(b.subrange(5, b.len() as int))))
        }
    } else {
        Err(DeserializationError::IncorrectAudioMessageType { kind: b[0] })
    }
}

proof fn lemma_le16_round_trip(x: u16)
    ensures
        from_le16(le16(x)[0], le16(x)[1]) == x,
{
}

proof fn lemma_from_le16_round_trip(b0: u8, b1: u8)
    ensures
        le16(from_le16(b0, b1)) == seq![b0, b1],
{
    assert(le16(from_le16(b0, b1)) =~= seq![b0, b1]);
}

/// Reading back the little-endian bytes of a 32-bit value gives the value.
pub proof fn lemma_le32_round_trip(x: u32)
    ensures
        from_le32(le32(x)[0], le32(x)[1], le32(x)[2], le32(x)[3]) == x,
{
}

proof fn lemma_split_byte(lo: int, hi: int)
    requires
        0 <= lo < 256,
        0 <= hi,
    ensures
        (lo + 256 * hi) % 256 == lo,
        (lo + 256 * hi) / 256 == hi,
{
    assert((lo + 256 * hi) % 256 == lo && (lo + 256 * hi) / 256 == hi) by (nonlinear_arith)
        requires
            0 <= lo < 256,
            0 <= hi,
    ;
}

proof fn lemma_from_le32_round_trip(b0: u8, b1: u8, b2: u8, b3: u8)
    ensures
        le32(from_le32(b0, b1, b2, b3)) == seq![b0, b1, b2, b3],
{
    let v = b0 + 256 * b1 + 65536 * b2 + 16777216 * b3;
    let k1 = b1 + 256 * b2 + 65536 * b3;
    let k2 = b2 + 256 * b3;
    lemma_split_byte(b0 as int, k1);
    lemma_split_byte(b1 as int, k2);
    lemma_split_byte(b2 as int, b3 as int);
    assert(v == b0 + 256 * k1);
    assert(k1 == b1 + 256 * k2);
    assert(v / 65536 == k2) by {
        vstd::arithmetic::div_mod::lemma_div_denominator(v, 256, 256);
    }
    assert(v / 16777216 == b3) by {
        vstd::arithmetic::div_mod::lemma_div_denominator(v, 256, 65536);
        lemma_split_byte(b2 as int, b3 as int);
    }
    assert(le32(from_le32(b0, b1, b2, b3)) =~= seq![b0, b1, b2, b3]);
}

proof fn lemma_sample_bits_round_trip(s: i16, u: u16)
    ensures
        sample_of_bits(sample_bits(s)) == s,
        sample_bits(sample_of_bits(u)) == u,
{
}

/// Shape of the bytes of a sample sequence: two per sample, low byte first.
proof fn lemma_samples_bytes(s: Seq<i16>)
    ensures
        samples_bytes(s).len() == 2 * s.len(),
        forall|i: int|
            0 <= i < s.len() ==> {
                &&& #[trigger] samples_bytes(s)[2 * i] == le16(sample_bits(s[i]))[0]
                &&& samples_bytes(s)[2 * i + 1] == le16(sample_bits(s[i]))[1]
            },
    decreases s.len(),
{
    if s.len() > 0 {
        lemma_samples_bytes(s.drop_last());
        let a = samples_bytes(s.drop_last());
        assert(samples_bytes(s) == a + le16(sample_bits(s.last())));
        assert forall|i: int| 0 <= i < s.len() implies {
            &&& #[trigger] samples_bytes(s)[2 * i] == le16(sample_bits(s[i]))[0]
            &&& samples_bytes(s)[2 * i + 1] == le16(sample_bits(s[i]))[1]
        } by {
            if i < s.len() - 1 {
                assert(s.drop_last()[i] == s[i]);
                assert(samples_bytes(s)[2 * i] == a[2 * i]);
                assert(samples_bytes(s)[2 * i + 1] == a[2 * i + 1]);
            }
        }
    }
}

/// Decoding the encoding of any encodable message gives that message back:
/// format descriptors always, sample batches of up to `MAX_SAMPLES` samples.
pub proof fn lemma_decode_of_encoding(m: MessageModel)
    requires
        encodable(m),
    ensures
        parse(encoding(m)) == Ok::<MessageModel, DeserializationError>(m),
{
    let b = encoding(m);
    match m {
        MessageModel::Spec(spec) => {
            lemma_le16_round_trip(spec.channels);
            lemma_le32_round_trip(spec.sample_rate);
            lemma_le16_round_trip(spec.bits_per_sample);
            assert(b.len() == 10);
            assert(b[1] == le16(spec.channels)[0] && b[2] == le16(spec.channels)[1]);
            assert(b[3] == le32(spec.sample_rate)[0] && b[4] == le32(spec.sample_rate)[1]);
            assert(b[5] == le32(spec.sample_rate)[2] && b[6] == le32(spec.sample_rate)[3]);
            assert(b[7] == le16(spec.bits_per_sample)[0] && b[8] == le16(spec.bits_per_sample)[1]);
            assert(b[9] == format_tag(spec.sample_format));
        },
        MessageModel::Samples(t) => {
            let n = t.len() as u32;
            lemma_le32_round_trip(n);
            lemma_samples_bytes(t);
            let body = samples_bytes(t);
            assert(b[1] == le32(n)[0] && b[2] == le32(n)[1] && b[3] == le32(n)[2] && b[4] == le32(n)[3]);
            assert(b.subrange(5, b.len() as int) =~= body);
            let back = samples_of(body);
            assert forall|i: int| 0 <= i < t.len() implies back[i] == t[i] by {
                lemma_le16_round_trip(sample_bits(t[i]));
                lemma_sample_bits_round_trip(t[i], 0);
                assert(body[2 * i] == le16(sample_bits(t[i]))[0]);
            }
            assert(back =~= t);
        },
    }
}

/// Any byte sequence either fails to decode, with a typed error, or is
/// exactly the encoding of the message it decodes to.
pub proof fn lemma_encoding_of_decode(b: Seq<u8>)
    ensures
        parse(b) is Ok ==> encodable(parse(b)->Ok_0) && encoding(parse(b)->Ok_0) == b,
{
    if parse(b) is Ok {
        if b[0] == SPEC_TAG {
            lemma_from_le16_round_trip(b[1], b[2]);
            lemma_from_le32_round_trip(b[3], b[4], b[5], b[6]);
            lemma_from_le16_round_trip(b[7], b[8]);
            assert(encoding(parse(b)->Ok_0) =~= b);
        } else {
            let n = declared_count(b);
            let body = b.subrange(5, b.len() as int);
            let t = samples_of(body);
            assert(t.len() == n);
            lemma_from_le32_round_trip(b[1], b[2], b[3], b[4]);
            lemma_samples_bytes(t);
            let sb = samples_bytes(t);
            assert forall|j: int| 0 <= j < body.len() implies sb[j] == body[j] by {
                let i = j / 2;
                assert(0 <= i < t.len());
                lemma_from_le16_round_trip(body[2 * i], body[2 * i + 1]);
                let u = from_le16(body[2 * i], body[2 * i + 1]);
                lemma_sample_bits_round_trip(0, u);
                assert(t[i] == sample_of_bits(u));
                assert(sample_bits(t[i]) == u);
                assert(sb[2 * i] == le16(u)[0]);
                assert(le16(u)[0] == body[2 * i] && le16(u)[1] == body[2 * i + 1]);
                if j % 2 == 0 {
                    assert(j == 2 * i);
                } else {
                    assert(j == 2 * i + 1);
                }
            }
            assert(sb =~= body);
            assert(encoding(parse(b)->Ok_0) =~= b);
        }
    }
}

/// A value with a byte encoding that can be appended to a buffer and read back.
pub trait Serializable: Sized + View {
    /// Whether the value `v` has an encoding.
    spec fn can_encode(v: Self::V) -> bool;

    /// The encoding of `v`.
    spec fn wire(v: Self::V) -> Seq<u8>;

    /// What decoding `bytes` gives.
    spec fn parsed(bytes: Seq<u8>) -> Result<Self::V, DeserializationError>;

    /// The error reported for a value without an encoding.
    spec fn refusal(v: Self::V) -> LengthError;

    /// Appends the encoding of `self` to `buf`; leaves `buf` as it was when
    /// `self` has no encoding.
    fn serialize(&self, buf: &mut Vec<u8>) -> (r: Result<(), LengthError>)
        ensures
            r is Ok <==> Self::can_encode(self@),
            r is Ok ==> final(buf)@ == old(buf)@ + Self::wire(self@),
            r is Err ==> final(buf)@ == old(buf)@ && r == Err::<(), LengthError>(
                Self::refusal(self@),
            ),
    ;

    /// Decodes `bytes` as one whole value.
    fn deserialize(bytes: &[u8]) -> (r: Result<Self, DeserializationError>)
        ensures
            match r {
                Ok(v) => Self::parsed(bytes@) == Ok::<Self::V, DeserializationError>(v@),
                Err(e) => Self::parsed(bytes@) == Err::<Self::V, DeserializationError>(e),
            },
    ;
}

fn push_le16(buf: &mut Vec<u8>, x: u16)
    ensures
        final(buf)@ == old(buf)@ + le16(x),
{
    buf.push((x % 256) as u8);
    buf.push((x / 256) as u8);
    assert(buf@ =~= old(buf)@ + le16(x));
}

fn push_le32(buf: &mut Vec<u8>, x: u32)
    ensures
        final(buf)@ == old(buf)@ + le32(x),
{
    buf.push((x % 256) as u8);
    buf.push(((x / 256) % 256) as u8);
    buf.push(((x / 65536) % 256) as u8);
    buf.push((x / 16777216) as u8);
    assert(buf@ =~= old(buf)@ + le32(x));
}

fn read_le16(b0: u8, b1: u8) -> (r: u16)
    ensures
        r == from_le16(b0, b1),
{
    b0 as u16 + (b1 as u16) * 256
}

/// The value of four little-endian bytes.
pub fn read_le32(b0: u8, b1: u8, b2: u8, b3: u8) -> (r: u32)
    ensures
        r == from_le32(b0, b1, b2, b3),
{
    b0 as u32 + (b1 as u32) * 256 + (b2 as u32) * 65536 + (b3 as u32) * 16777216
}

fn bits_of_sample(s: i16) -> (r: u16)
    ensures
        r == sample_bits(s),
{
    if s < 0 {
        (s as i32 + 65536) as u16
    } else {
        s as u16
    }
}

fn sample_from_bits(u: u16) -> (r: i16)
    ensures
        r == sample_of_bits(u),
{
    if u >= 32768 {
        (u as i32 - 65536) as i16
    } else {
        u as i16
    }
}

impl AudioMessage {
    /// Appends the samples of `samples`, two little-endian bytes each.
    fn push_samples(buf: &mut Vec<u8>, samples: &Vec<i16>)
        ensures
            final(buf)@ == old(buf)@ + samples_bytes(samples@),
    {
        let mut i: usize = 0;
        while i < samples.len()
            invariant
                i <= samples@.len(),
                buf@ == old(buf)@ + samples_bytes(samples@.take(i as int)),
            decreases samples@.len() - i,
        {
            push_le16(buf, bits_of_sample(samples[i]));
            proof {
                assert(samples@.take(i + 1).drop_last() =~= samples@.take(i as int));
                assert(buf@ =~= old(buf)@ + samples_bytes(samples@.take(i + 1)));
            }
            i += 1;
        }
        assert(samples@.take(i as int) =~= samples@);
    }

    /// The samples in `bytes[5..]`, which holds `n` of them.
    fn read_samples(bytes: &[u8], n: usize) -> (r: Vec<i16>)
        requires
            bytes@.len() == SAMPLES_HEADER_LEN + 2 * n,
        ensures
            r@ == samples_of(bytes@.subrange(5, bytes@.len() as int)),
    {
        let ghost body = bytes@.subrange(5, bytes@.len() as int);
        let len = bytes.len();
        let mut out: Vec<i16> = Vec::with_capacity(n);
        let mut i: usize = 0;
        while i < n
            invariant
                i <= n,
                len == bytes@.len(),
                bytes@.len() == SAMPLES_HEADER_LEN + 2 * n,
                body == bytes@.subrange(5, bytes@.len() as int),
                out@ == samples_of(body).take(i as int),
            decreases n - i,
        {
            let lo = bytes[5 + 2 * i];
            let hi = bytes[6 + 2 * i];
            out.push(sample_from_bits(read_le16(lo, hi)));
            proof {
                assert(body[2 * i] == lo && body[2 * i + 1] == hi);
                assert(out@ =~= samples_of(body).take(i + 1));
            }
            i += 1;
        }
        assert(samples_of(body).take(n as int) =~= samples_of(body));
        out
    }
}

impl Serializable for AudioMessage {
    open spec fn can_encode(v: MessageModel) -> bool {
        encodable(v)
    }

    open spec fn wire(v: MessageModel) -> Seq<u8> {
        encoding(v)
    }

    open spec fn parsed(bytes: Seq<u8>) -> Result<MessageModel, DeserializationError> {
        parse(bytes)
    }

    open spec fn refusal(v: MessageModel) -> LengthError {
        match v {
            MessageModel::Samples(s) => LengthError::TooLong { len: s.len() as usize },
            // a format descriptor always has an encoding
            MessageModel::Spec(_) => LengthError::TooLong { len: 0 },
        }
    }

    fn serialize(&self, buf: &mut Vec<u8>) -> (r: Result<(), LengthError>) {
        match self {
            AudioMessage::Spec(spec) => {
                buf.push(SPEC_TAG);
                push_le16(buf, spec.channels);
                push_le32(buf, spec.sample_rate);
                push_le16(buf, spec.bits_per_sample);
                let format_tag: u8 = match spec.sample_format {
                    SampleFormat::Float => 1,
                    SampleFormat::Int => 2,
                };
                buf.push(format_tag);
                assert(buf@ =~= old(buf)@ + spec_bytes(*spec));
                Ok(())
            },
            AudioMessage::Samples(samples) => {
                if samples.len() > MAX_SAMPLES {
                    return Err(LengthError::TooLong { len: samples.len() });
                }
                buf.push(SAMPLES_TAG);
                push_le32(buf, samples.len() as u32);
                Self::push_samples(buf, samples);
                assert(buf@ =~= old(buf)@ + encoding(self@));
                Ok(())
            },
        }
    }

    fn deserialize(bytes: &[u8]) -> (r: Result<AudioMessage, DeserializationError>) {
        if bytes.len() == 0 {
            return Err(
                DeserializationError::DataLengthMismatch { expected_length: 1, current_length: 0 },
            );
        }
        if bytes[0] == SPEC_TAG {
            if bytes.len() != SPEC_MSG_LEN {
                return Err(
                    DeserializationError::DataLengthMismatch {
                        expected_length: SPEC_MSG_LEN,
                        current_length: bytes.len(),
                    },
                );
            }
            let channels = read_le16(bytes[1], bytes[2]);
            let sample_rate = read_le32(bytes[3], bytes[4], bytes[5], bytes[6]);
            let bits_per_sample = read_le16(bytes[7], bytes[8]);
            let sample_format = if bytes[9] == 1 {
                SampleFormat::Float
            } else if bytes[9] == 2 {
                SampleFormat::Int
            } else {
                return Err(DeserializationError::UnknownWaveSpecSampleFormat);
            };
            Ok(AudioMessage::Spec(AudioSpec { channels, sample_rate, bits_per_sample, sample_format }))
        } else if bytes[0] == SAMPLES_TAG {
            if bytes.len() < SAMPLES_HEADER_LEN {
                return Err(
                    DeserializationError::DataLengthMismatch {
                        expected_length: SAMPLES_HEADER_LEN,
                        current_length: bytes.len(),
                    },
                );
            }
            let count = read_le32(bytes[1], bytes[2], bytes[3], bytes[4]);
            let expected: u64 = 5 + 2 * (count as u64);
            if bytes.len() as u64 != expected {
                return Err(
                    DeserializationError::DataLengthMismatch {
                        expected_length: expected as usize,
                        current_length: bytes.len(),
                    },
                );
            }
            if count as usize > MAX_SAMPLES {
                return Err(DeserializationError::TooManySamples { count });
            }
            Ok(AudioMessage::Samples(Self::read_samples(bytes, count as usize)))
        } else {
            Err(DeserializationError::IncorrectAudioMessageType { kind: bytes[0] })
        }
    }
}

} // verus!
