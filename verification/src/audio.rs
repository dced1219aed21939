//! Sound as it goes over the wire: 16-bit samples, little end first, in base64.

use vstd::prelude::*;

use crate::outside::{base64_bytes, base64_decode, base64_encode, base64_text};

verus! {

/// A sample by the unsigned number that has its bits.
pub open spec fn unsigned(sample: i16) -> int {
    if sample >= 0 {
        sample as int
    } else {
        sample + 65536
    }
}

/// The sample that has the bits of an unsigned number.
pub open spec fn signed(bits: int) -> i16 {
    if bits < 32768 {
        bits as i16
    } else {
        (bits - 65536) as i16
    }
}

/// The bytes of samples, the lower half of each first.
pub open spec fn pcm_bytes(pcm: Seq<i16>) -> Seq<u8> {
    Seq::new(
        2 * pcm.len(),
        |i: int|
            if i % 2 == 0 {
                (unsigned(pcm[i / 2]) % 256) as u8
            } else {
                (unsigned(pcm[i / 2]) / 256) as u8
            },
    )
}

/// The samples that bytes stand for, two bytes each.
pub open spec fn pcm_of(bytes: Seq<u8>) -> Seq<i16> {
    Seq::new(bytes.len() / 2, |i: int| signed(bytes[2 * i] + 256 * bytes[2 * i + 1]))
}

/// What is wrong with sound that came over the wire.
#[derive(Debug, PartialEq)]
pub enum AudioError {
    /// It is no base64; how the decoder words that.
    Base64(String),
    /// It ends in half a sample.
    OddLength,
}

/// The mathematical value of an [`AudioError`].
pub enum AudioErrorView {
    Base64(Seq<char>),
    OddLength,
}

impl View for AudioError {
    type V = AudioErrorView;

    open spec fn view(&self) -> AudioErrorView {
        match self {
            AudioError::Base64(words) => AudioErrorView::Base64(words@),
            AudioError::OddLength => AudioErrorView::OddLength,
        }
    }
}

/// The samples that a text stands for.
pub open spec fn decoded(text: Seq<char>) -> Result<Seq<i16>, AudioErrorView> {
    sampled(base64_bytes(text))
}

/// The samples that bytes stand for, where a text held any.
pub open spec fn sampled(read: Result<Seq<u8>, Seq<char>>) -> Result<Seq<i16>, AudioErrorView> {
    match read {
        Ok(bytes) => if bytes.len() % 2 == 0 {
            Ok(pcm_of(bytes))
        } else {
            Err(AudioErrorView::OddLength)
        },
        Err(words) => Err(AudioErrorView::Base64(words)),
    }
}

/// The text that stands for samples.
pub open spec fn encoded(pcm: Seq<i16>) -> Seq<char> {
    base64_text(pcm_bytes(pcm))
}

/// Samples survive the way to bytes and back.
pub proof fn bytes_give_the_samples_back(pcm: Seq<i16>)
    ensures
        pcm_of(pcm_bytes(pcm)) == pcm,
{
    let bytes = pcm_bytes(pcm);
    assert forall|i: int| 0 <= i < pcm.len() implies pcm_of(bytes)[i] == pcm[i] by {
        let u = unsigned(pcm[i]);
        assert((2 * i) % 2 == 0 && (2 * i) / 2 == i);
        assert((2 * i + 1) % 2 == 1 && (2 * i + 1) / 2 == i);
        assert(bytes[2 * i] == u % 256);
        assert(bytes[2 * i + 1] == u / 256);
        assert(u % 256 + 256 * (u / 256) == u);
    }
    assert(pcm_of(bytes) =~= pcm);
}

/// An even number of bytes survives the way to samples and back.
pub proof fn samples_give_the_bytes_back(bytes: Seq<u8>)
    requires
        bytes.len() % 2 == 0,
    ensures
        pcm_bytes(pcm_of(bytes)) == bytes,
{
    let pcm = pcm_of(bytes);
    assert forall|i: int| 0 <= i < bytes.len() implies pcm_bytes(pcm)[i] == bytes[i] by {
        let k = i / 2;
        let u = bytes[2 * k] + 256 * bytes[2 * k + 1];
        assert(unsigned(pcm[k]) == u);
        assert(u % 256 == bytes[2 * k] && u / 256 == bytes[2 * k + 1]);
        assert(i == 2 * k || i == 2 * k + 1);
    }
    assert(pcm_bytes(pcm) =~= bytes);
}

/// The bytes of samples.
pub fn to_bytes(pcm: &Vec<i16>) -> (bytes: Vec<u8>)
    ensures
        bytes@ == pcm_bytes(pcm@),
{
    let mut bytes: Vec<u8> = Vec::new();
    let mut i: usize = 0;
    while i < pcm.len()
        invariant
            i <= pcm.len(),
            bytes.len() == 2 * i,
            forall|k: int| 0 <= k < 2 * i ==> #[trigger] bytes@[k] == pcm_bytes(pcm@)[k],
        decreases pcm.len() - i,
    {
        let s: i16 = pcm[i];
        let u: u32 = if s >= 0 {
            s as u32
        } else {
            (s as i32 + 65536) as u32
        };
        proof {
            assert((2 * i) % 2 == 0 && (2 * i) / 2 == i as int);
            assert((2 * i + 1) % 2 == 1 && (2 * i + 1) / 2 == i as int);
        }
        bytes.push((u % 256) as u8);
        bytes.push((u / 256) as u8);
        i += 1;
    }
    assert(bytes@ =~= pcm_bytes(pcm@));
    bytes
}

/// The samples that bytes stand for; a byte left over at the end is not one.
pub fn from_bytes(bytes: &Vec<u8>) -> (pcm: Vec<i16>)
    ensures
        pcm@ == pcm_of(bytes@),
{
    let n: usize = bytes.len() / 2;
    let mut pcm: Vec<i16> = Vec::new();
    let mut i: usize = 0;
    while i < n
        invariant
            i <= n,
            n == bytes.len() / 2,
            pcm.len() == i,
            forall|k: int| 0 <= k < i ==> #[trigger] pcm@[k] == pcm_of(bytes@)[k],
        decreases n - i,
    {
        let u: i32 = bytes[2 * i] as i32 + 256 * (bytes[2 * i + 1] as i32);
        pcm.push(
            if u < 32768 {
                u as i16
            } else {
                (u - 65536) as i16
            },
        );
        i += 1;
    }
    assert(pcm@ =~= pcm_of(bytes@));
    pcm
}

/// The text that stands for samples. Reading it gives the samples back.
pub fn encode(pcm: &Vec<i16>) -> (text: String)
    requires
        8 * pcm.len() <= usize::MAX,
    ensures
        text@ == encoded(pcm@),
        (decoded(text@) matches Ok(p) && p == pcm@),
{
    let bytes = to_bytes(pcm);
    proof {
        bytes_give_the_samples_back(pcm@);
    }
    base64_encode(&bytes)
}

/// The samples that a text stands for.
pub fn decode(text: &str) -> (r: Result<Vec<i16>, AudioError>)
    ensures
        match r {
            Ok(pcm) => decoded(text@) matches Ok(p) && p == pcm@,
            Err(e) => decoded(text@) matches Err(x) && x == e@,
        },
{
    samples(base64_decode(text))
}

/// The samples that bytes stand for, where a text held any: whole samples, with no
/// byte left over.
pub fn samples(read: Result<Vec<u8>, String>) -> (r: Result<Vec<i16>, AudioError>)
    ensures
        ({
            let want = sampled(
                match read {
                    Ok(bytes) => Ok(bytes@),
                    Err(words) => Err(words@),
                },
            );
            match r {
                Ok(pcm) => want == Ok::<Seq<i16>, AudioErrorView>(pcm@),
                Err(e) => want == Err::<Seq<i16>, AudioErrorView>(e@),
            }
        }),
{
    match read {
        Ok(bytes) => if bytes.len() % 2 != 0 {
            Err(AudioError::OddLength)
        } else {
            Ok(from_bytes(&bytes))
        },
        Err(words) => Err(AudioError::Base64(words)),
    }
}

/// Samples go out two bytes each, in order, the lower half first: a sample is what its
/// bytes come to, less the whole range where its highest bit is set.
pub proof fn samples_go_out_lower_half_first(pcm: Vec<i16>, bytes: Vec<u8>, i: int)
    requires
        call_ensures(to_bytes, (&pcm,), bytes),
    ensures
        bytes.len() == 2 * pcm.len(),
        0 <= i < pcm.len() ==> pcm@[i] == if bytes@[2 * i + 1] < 128 {
            bytes@[2 * i] + 256 * bytes@[2 * i + 1]
        } else {
            bytes@[2 * i] + 256 * bytes@[2 * i + 1] - 65536
        },
{
    if 0 <= i < pcm.len() {
        let u = unsigned(pcm@[i]);
        assert((2 * i) % 2 == 0 && (2 * i) / 2 == i);
        assert((2 * i + 1) % 2 == 1 && (2 * i + 1) / 2 == i);
        assert(bytes@[2 * i] == u % 256);
        assert(bytes@[2 * i + 1] == u / 256);
        assert(u % 256 + 256 * (u / 256) == u);
    }
}

/// Bytes come in as samples two at a time, in order, the lower half first, and a byte
/// left over at the end is no sample.
pub proof fn samples_come_in_lower_half_first(bytes: Vec<u8>, pcm: Vec<i16>, i: int)
    requires
        call_ensures(from_bytes, (&bytes,), pcm),
    ensures
        pcm.len() == bytes.len() / 2,
        0 <= i < pcm.len() ==> pcm@[i] == if bytes@[2 * i + 1] < 128 {
            bytes@[2 * i] + 256 * bytes@[2 * i + 1]
        } else {
            bytes@[2 * i] + 256 * bytes@[2 * i + 1] - 65536
        },
{
}

/// What samples are written as is read as those samples. A text is read as samples
/// exactly where it is base64 of an even number of bytes, and otherwise what is wrong
/// with it is told.
pub proof fn sound_survives_the_wire(
    pcm: Vec<i16>,
    text: String,
    sent: &str,
    read: Result<Vec<i16>, AudioError>,
    bytes: Vec<u8>,
    expected: Vec<i16>,
)
    requires
        call_ensures(encode, (&pcm,), text),
        call_ensures(decode, (sent,), read),
        base64_bytes(sent@) is Ok ==> bytes@ == base64_bytes(sent@)->Ok_0,
        call_ensures(from_bytes, (&bytes,), expected),
    ensures
        sent@ == text@ ==> read is Ok && read->Ok_0@ == pcm@,
        read is Ok <==> base64_bytes(sent@) is Ok && bytes.len() % 2 == 0,
        read is Ok ==> read->Ok_0@ == expected@,
        read is Err && base64_bytes(sent@) is Ok ==> read->Err_0 is OddLength,
        base64_bytes(sent@) is Err ==> read->Err_0 is Base64 && read->Err_0->Base64_0@
            == base64_bytes(sent@)->Err_0,
{
}

/// Bytes that were read are samples where they are even in number, in order; otherwise,
/// and where nothing was read, it is told what is wrong.
pub proof fn bytes_are_samples_or_not(
    bytes: Vec<u8>,
    words: String,
    r: Result<Vec<i16>, AudioError>,
    unread: Result<Vec<i16>, AudioError>,
    pcm: Vec<i16>,
)
    requires
        call_ensures(samples, (Ok::<Vec<u8>, String>(bytes),), r),
        call_ensures(samples, (Err::<Vec<u8>, String>(words),), unread),
        call_ensures(from_bytes, (&bytes,), pcm),
    ensures
        r is Ok <==> bytes.len() % 2 == 0,
        r is Ok ==> r->Ok_0@ == pcm@,
        r is Err ==> r->Err_0 is OddLength,
        unread is Err && unread->Err_0 is Base64 && unread->Err_0->Base64_0@ == words@,
{
}

} // verus!
