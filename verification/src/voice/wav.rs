//! RIFF/WAVE files of 16-bit samples: reading one channel, writing mono 48 kHz.
use vstd::prelude::*;

use crate::text::joined;
use crate::voice::frames::downmix;

verus! {

/// Two bytes at `i`, least significant first.
pub open spec fn le16(b: Seq<u8>, i: int) -> int {
    b[i] + 256 * b[i + 1]
}

/// Four bytes at `i`, least significant first.
pub open spec fn le32(b: Seq<u8>, i: int) -> int {
    b[i] + 256 * b[i + 1] + 65536 * b[i + 2] + 16777216 * b[i + 3]
}

/// A 16-bit number in two's complement.
pub open spec fn signed16(v: int) -> int {
    if v < 32768 {
        v
    } else {
        v - 65536
    }
}

/// The samples that bytes hold, two bytes each; an odd last byte is left over.
pub open spec fn samples_of(b: Seq<u8>) -> Seq<i16> {
    Seq::new(b.len() / 2, |k: int| signed16(le16(b, 2 * k)) as i16)
}

/// `RIFF`.
pub open spec fn riff_id() -> Seq<u8> {
    seq![82u8, 73u8, 70u8, 70u8]
}

/// `fmt `.
pub open spec fn fmt_id() -> Seq<u8> {
    seq![102u8, 109u8, 116u8, 32u8]
}

/// `data`.
pub open spec fn data_id() -> Seq<u8> {
    seq![100u8, 97u8, 116u8, 97u8]
}

/// Where the chunk behind the one at `off` starts: chunks are padded to an even
/// length.
pub open spec fn next_chunk(data: Seq<u8>, off: int) -> int {
    off + 8 + le32(data, off + 4) + le32(data, off + 4) % 2
}

/// The samples of the first `data` chunk from `off` on, all channels interleaved,
/// and the channel count in force there. A `fmt ` chunk sets the channel count and
/// the sample width; other widths than 16 bits give no samples.
pub open spec fn wav_scan(data: Seq<u8>, off: int, channels: int, bits: int) -> (Seq<i16>, int)
    decreases
            (if off < data.len() {
                data.len() - off
            } else {
                0
            }),
{
    if off < 0 || off + 8 > data.len() {
        (Seq::empty(), channels)
    } else if data.subrange(off, off + 4) == data_id() {
        (
            if bits == 16 {
                samples_of(data.subrange(off + 8, off + 8 + le32(data, off + 4)))
            } else {
                Seq::empty()
            },
            channels,
        )
    } else if data.subrange(off, off + 4) == fmt_id() && off + 24 <= data.len() {
        wav_scan(data, next_chunk(data, off), le16(data, off + 10), le16(data, off + 22))
    } else {
        wav_scan(data, next_chunk(data, off), channels, bits)
    }
}

/// Whether the first `data` chunk from `off` on, if there is one, lies whole in
/// the file.
pub open spec fn data_whole(data: Seq<u8>, off: int) -> bool
    decreases
            (if off < data.len() {
                data.len() - off
            } else {
                0
            }),
{
    if off < 0 || off + 8 > data.len() {
        true
    } else if data.subrange(off, off + 4) == data_id() {
        off + 8 + le32(data, off + 4) <= data.len()
    } else {
        data_whole(data, next_chunk(data, off))
    }
}

/// Why a file gives no samples.
#[derive(Debug, Clone, Copy, PartialEq, Eq, Structural)]
pub enum WavError {
    NotRiff,
    NoPcm,
}

impl WavError {
    /// The words for the user.
    pub fn message(self, path: &str) -> (r: String)
        ensures
            r@ == (match self {
                WavError::NotRiff => "not a RIFF/WAV file"@,
                WavError::NoPcm => "no PCM data found in "@ + path@ + " (need 16-bit)"@,
            }),
    {
        match self {
            WavError::NotRiff => "not a RIFF/WAV file".to_owned(),
            WavError::NoPcm => {
                let head: String = joined("no PCM data found in ", path);
                joined(head.as_str(), " (need 16-bit)")
            },
        }
    }
}

/// What a file holds: the samples of its first channel.
pub open spec fn wav_pcm(data: Seq<u8>) -> Result<Seq<i16>, WavError> {
    let (pcm, channels) = wav_scan(data, 12, 1, 16);
    if data.take(4) != riff_id() {
        Err(WavError::NotRiff)
    } else if pcm.len() == 0 {
        Err(WavError::NoPcm)
    } else if channels > 1 {
        Ok(crate::voice::frames::first_channel(pcm, channels))
    } else {
        Ok(pcm)
    }
}

fn has_id(data: &[u8], off: usize, a: u8, b: u8, c: u8, d: u8) -> (r: bool)
    requires
        off + 4 <= data@.len(),
    ensures
        r == (data@.subrange(off as int, off + 4) == seq![a, b, c, d]),
{
    let r: bool = data[off] == a && data[off + 1] == b && data[off + 2] == c && data[off + 3] == d;
    proof {
        let s = data@.subrange(off as int, off + 4);
        if r {
            assert(s =~= seq![a, b, c, d]);
        } else {
            assert(s[0] != a || s[1] != b || s[2] != c || s[3] != d);
            assert(seq![a, b, c, d][0] == a && seq![a, b, c, d][1] == b && seq![a, b, c, d][2] == c
                && seq![a, b, c, d][3] == d);
        }
    }
    r
}

fn read16(data: &[u8], i: usize) -> (r: u16)
    requires
        i + 2 <= data@.len(),
    ensures
        r == le16(data@, i as int),
{
    data[i] as u16 + 256 * (data[i + 1] as u16)
}

fn read32(data: &[u8], i: usize) -> (r: u32)
    requires
        i + 4 <= data@.len(),
    ensures
        r == le32(data@, i as int),
{
    data[i] as u32 + 256 * (data[i + 1] as u32) + 65536 * (data[i + 2] as u32) + 16777216 * (data[i
        + 3] as u32)
}

fn read_samples(data: &[u8], from: usize, len: usize) -> (r: Vec<i16>)
    requires
        from + len <= data@.len(),
    ensures
        r@ == samples_of(data@.subrange(from as int, from + len)),
{
    let ghost body = data@.subrange(from as int, from + len);
    assert(data.len() <= usize::MAX);
    let n: usize = len / 2;
    let mut out: Vec<i16> = Vec::new();
    let mut k: usize = 0;
    while k < n
        invariant
            n == len / 2,
            from + len <= data@.len() <= usize::MAX,
            body == data@.subrange(from as int, from + len),
            k <= n,
            out@.len() == k,
            forall|j: int| 0 <= j < k ==> #[trigger] out@[j] == samples_of(body)[j],
        decreases n - k,
    {
        let v: u16 = read16(data, from + 2 * k);
        assert(le16(body, 2 * k) == le16(data@, from + 2 * k));
        let s: i16 = if v < 32768 {
            v as i16
        } else {
            (v as i32 - 65536) as i16
        };
        out.push(s);
        k = k + 1;
    }
    assert(out@ =~= samples_of(body));
    out
}

/// The samples behind a header of 44 bytes, whatever it says.
pub fn pcm_after_header(data: &[u8]) -> (r: Vec<i16>)
    requires
        data@.len() >= 44,
    ensures
        r@ == samples_of(data@.skip(44)),
{
    let len: usize = data.len() - 44;
    assert(data@.subrange(44, data@.len() as int) =~= data@.skip(44));
    read_samples(data, 44, len)
}

/// Reads the first channel of a RIFF/WAVE file of 16-bit samples.
pub fn load_wav_pcm(data: &[u8]) -> (r: Result<Vec<i16>, WavError>)
    requires
        data@.len() >= 4,
        data@.take(4) == riff_id() ==> data_whole(data@, 12),
    ensures
        match r {
            Ok(pcm) => wav_pcm(data@) == Ok::<Seq<i16>, WavError>(pcm@),
            Err(e) => wav_pcm(data@) == Err::<Seq<i16>, WavError>(e),
        },
{
    assert(data@.take(4) =~= data@.subrange(0, 4));
    if !has_id(data, 0, 82, 73, 70, 70) {
        return Err(WavError::NotRiff);
    }
    let len: usize = data.len();
    let mut off: usize = if len < 12 {
        len
    } else {
        12
    };
    let mut channels: u16 = 1;
    let mut bits: u16 = 16;
    let mut pcm: Vec<i16> = Vec::new();
    let mut found: bool = false;
    while !found && len - off >= 8
        invariant
            len == data@.len(),
            off <= len,
            !found ==> pcm@.len() == 0,
            !found ==> data_whole(data@, off as int),
            !found ==> wav_scan(data@, off as int, channels as int, bits as int) == wav_scan(
                data@,
                12,
                1,
                16,
            ),
            found ==> (pcm@, channels as int) == wav_scan(data@, 12, 1, 16),
        decreases
                (if found {
                    0int
                } else {
                    1int
                }),
                len - off,
    {
        let sz: u32 = read32(data, off + 4);
        if has_id(data, off, 100, 97, 116, 97) {
            if bits == 16 {
                pcm = read_samples(data, off + 8, sz as usize);
            }
            found = true;
        } else {
            let ghost before = (off as int, channels as int, bits as int);
            if has_id(data, off, 102, 109, 116, 32) && len - off >= 24 {
                channels = read16(data, off + 10);
                bits = read16(data, off + 22);
            }
            let step: u64 = 8 + sz as u64 + (sz % 2) as u64;
            assert(next_chunk(data@, off as int) == off + step);
            assert(wav_scan(data@, before.0, before.1, before.2) == wav_scan(
                data@,
                off + step,
                channels as int,
                bits as int,
            ));
            if step > (len - off) as u64 {
                off = len;
            } else {
                off = off + step as usize;
            }
        }
    }
    assert((pcm@, channels as int) == wav_scan(data@, 12, 1, 16)) by {
        if !found {
            assert(pcm@ =~= Seq::<i16>::empty());
        }
    }
    if pcm.len() == 0 {
        return Err(WavError::NoPcm);
    }
    if channels > 1 {
        pcm = downmix(pcm.as_slice(), channels as usize);
    }
    Ok(pcm)
}

/// Whether `load_wav_pcm` accepts a file: it has its first four bytes, and the
/// `data` chunk of a RIFF file lies whole in it.
pub fn wav_complete(data: &[u8]) -> (r: bool)
    ensures
        r == (data@.len() >= 4 && (data@.take(4) == riff_id() ==> data_whole(data@, 12))),
{
    let len: usize = data.len();
    if len < 4 {
        return false;
    }
    assert(data@.take(4) =~= data@.subrange(0, 4));
    if !has_id(data, 0, 82, 73, 70, 70) || len < 12 {
        return true;
    }
    let mut off: usize = 12;
    while len - off >= 8
        invariant
            len == data@.len(),
            len >= 12,
            data@.take(4) == riff_id(),
            off <= len,
            data_whole(data@, off as int) == data_whole(data@, 12),
        decreases len - off,
    {
        let sz: u32 = read32(data, off + 4);
        if has_id(data, off, 100, 97, 116, 97) {
            return sz as u64 <= (len - off - 8) as u64;
        }
        let step: u64 = 8 + sz as u64 + (sz % 2) as u64;
        assert(next_chunk(data@, off as int) == off + step);
        assert(data_whole(data@, off as int) == data_whole(data@, off + step));
        if step > (len - off) as u64 {
            return true;
        }
        off = off + step as usize;
    }
    true
}

/// A number in two bytes, least significant first.
pub open spec fn le16_bytes(v: int) -> Seq<u8> {
    seq![(v % 256) as u8, (v / 256 % 256) as u8]
}

/// A number in four bytes, least significant first.
pub open spec fn le32_bytes(v: int) -> Seq<u8> {
    seq![
        (v % 256) as u8,
        (v / 256 % 256) as u8,
        (v / 65536 % 256) as u8,
        (v / 16777216 % 256) as u8,
    ]
}

/// A sample in two bytes, least significant first.
pub open spec fn sample_bytes(s: i16) -> Seq<u8> {
    le16_bytes(
        if s < 0 {
            s + 65536
        } else {
            s as int
        },
    )
}

/// Samples in bytes.
pub open spec fn pcm_bytes(pcm: Seq<i16>) -> Seq<u8>
    decreases pcm.len(),
{
    if pcm.len() == 0 {
        Seq::empty()
    } else {
        pcm_bytes(pcm.drop_last()) + sample_bytes(pcm.last())
    }
}

/// `RIFF`, the length of what follows it, `WAVE`.
pub open spec fn riff_head(samples: int) -> Seq<u8> {
    riff_id() + le32_bytes(36 + 2 * samples) + seq![87u8, 65u8, 86u8, 69u8]
}

/// The `fmt ` chunk: PCM, one channel, 48 kHz, 16 bits.
pub open spec fn fmt_chunk() -> Seq<u8> {
    fmt_id() + le32_bytes(16) + le16_bytes(1) + le16_bytes(1) + le32_bytes(48000) + le32_bytes(
        96000,
    ) + le16_bytes(2) + le16_bytes(16)
}

/// The head of the `data` chunk.
pub open spec fn data_head(samples: int) -> Seq<u8> {
    data_id() + le32_bytes(2 * samples)
}

/// A mono 48 kHz file of 16-bit samples.
pub open spec fn wav_file(pcm: Seq<i16>) -> Seq<u8> {
    riff_head(pcm.len() as int) + fmt_chunk() + data_head(pcm.len() as int) + pcm_bytes(pcm)
}

fn put16(out: &mut Vec<u8>, v: u16)
    ensures
        final(out)@ == old(out)@ + le16_bytes(v as int),
{
    out.push((v % 256) as u8);
    out.push((v / 256) as u8);
    assert(v as int / 256 % 256 == v as int / 256);
    assert(out@ =~= old(out)@ + le16_bytes(v as int));
}

fn put32(out: &mut Vec<u8>, v: u32)
    ensures
        final(out)@ == old(out)@ + le32_bytes(v as int),
{
    out.push((v % 256) as u8);
    out.push((v / 256 % 256) as u8);
    out.push((v / 65536 % 256) as u8);
    out.push((v / 16777216) as u8);
    assert(v as int / 16777216 % 256 == v as int / 16777216);
    assert(out@ =~= old(out)@ + le32_bytes(v as int));
}

fn put_id(out: &mut Vec<u8>, a: u8, b: u8, c: u8, d: u8)
    ensures
        final(out)@ == old(out)@ + seq![a, b, c, d],
{
    out.push(a);
    out.push(b);
    out.push(c);
    out.push(d);
    assert(out@ =~= old(out)@ + seq![a, b, c, d]);
}

fn put_fmt(out: &mut Vec<u8>)
    ensures
        final(out)@ == old(out)@ + fmt_chunk(),
{
    put_id(out, 102, 109, 116, 32);
    put32(out, 16);
    put16(out, 1);
    put16(out, 1);
    put32(out, 48_000);
    put32(out, 96_000);
    put16(out, 2);
    put16(out, 16);
    assert(out@ =~= old(out)@ + fmt_chunk());
}

/// The bytes of a mono 48 kHz RIFF/WAVE file of 16-bit samples.
pub fn wav_bytes(pcm: &[i16]) -> (r: Vec<u8>)
    requires
        36 + 2 * pcm@.len() <= u32::MAX,
    ensures
        r@ == wav_file(pcm@),
{
    let n: u32 = pcm.len() as u32;
    let mut out: Vec<u8> = Vec::new();
    put_id(&mut out, 82, 73, 70, 70);
    put32(&mut out, 36 + n * 2);
    put_id(&mut out, 87, 65, 86, 69);
    assert(out@ =~= riff_head(pcm@.len() as int));
    put_fmt(&mut out);
    put_id(&mut out, 100, 97, 116, 97);
    put32(&mut out, n * 2);
    let ghost head = riff_head(pcm@.len() as int) + fmt_chunk() + data_head(pcm@.len() as int);
    assert(out@ =~= head);
    let len: usize = pcm.len();
    let mut i: usize = 0;
    assert(pcm_bytes(pcm@.take(0)) =~= Seq::<u8>::empty());
    assert(out@ =~= head + pcm_bytes(pcm@.take(0)));
    while i < len
        invariant
            len == pcm@.len(),
            i <= len,
            out@ == head + pcm_bytes(pcm@.take(i as int)),
        decreases len - i,
    {
        let s: i16 = pcm[i];
        let v: u16 = if s < 0 {
            (s as i32 + 65536) as u16
        } else {
            s as u16
        };
        let ghost before = out@;
        put16(&mut out, v);
        i = i + 1;
        proof {
            let t = pcm@.take(i as int);
            assert(t.drop_last() =~= pcm@.take(i - 1));
            assert(before + sample_bytes(s) =~= head + (pcm_bytes(t.drop_last()) + sample_bytes(
                t.last(),
            )));
        }
    }
    assert(pcm@.take(len as int) =~= pcm@);
    out
}

proof fn lemma_pcm_bytes(pcm: Seq<i16>)
    ensures
        pcm_bytes(pcm).len() == 2 * pcm.len(),
        forall|k: int| 0 <= k < pcm.len() ==> #[trigger] sample_bytes(pcm[k]) == seq![
            pcm_bytes(pcm)[2 * k],
            pcm_bytes(pcm)[2 * k + 1],
        ],
    decreases pcm.len(),
{
    if pcm.len() > 0 {
        let p = pcm.drop_last();
        lemma_pcm_bytes(p);
        assert forall|k: int| 0 <= k < pcm.len() implies #[trigger] sample_bytes(pcm[k]) == seq![
            pcm_bytes(pcm)[2 * k],
            pcm_bytes(pcm)[2 * k + 1],
        ] by {
            if k < p.len() {
                assert(sample_bytes(p[k]) == seq![pcm_bytes(p)[2 * k], pcm_bytes(p)[2 * k + 1]]);
            } else {
                assert(sample_bytes(pcm[k]) =~= seq![
                    pcm_bytes(pcm)[2 * k],
                    pcm_bytes(pcm)[2 * k + 1],
                ]);
            }
        }
    }
}

proof fn lemma_samples_back(pcm: Seq<i16>)
    ensures
        samples_of(pcm_bytes(pcm)) == pcm,
{
    lemma_pcm_bytes(pcm);
    let b = pcm_bytes(pcm);
    assert forall|k: int| 0 <= k < pcm.len() implies samples_of(b)[k] == pcm[k] by {
        let s = pcm[k];
        let two = sample_bytes(s);
        assert(two == seq![b[2 * k], b[2 * k + 1]]);
        assert(two[0] == b[2 * k] && two[1] == b[2 * k + 1]);
    }
    assert(samples_of(b) =~= pcm);
}

proof fn lemma_riff_head(n: int)
    ensures
        riff_head(n).len() == 12,
        riff_head(n).take(4) == riff_id(),
{
    assert(riff_head(n).take(4) =~= riff_id());
}

proof fn lemma_fmt_chunk()
    ensures
        ({
            let b = fmt_chunk();
            &&& b.len() == 24
            &&& b.take(4) == fmt_id()
            &&& le32(b, 4) == 16
            &&& le16(b, 10) == 1
            &&& le16(b, 22) == 16
        }),
{
    let b = fmt_chunk();
    assert(b.take(4) =~= fmt_id());
    assert(b[4] == 16 && b[5] == 0 && b[6] == 0 && b[7] == 0);
    assert(b[10] == 1 && b[11] == 0);
    assert(b[22] == 16 && b[23] == 0);
}

proof fn lemma_data_head(n: int)
    requires
        0 <= 2 * n <= u32::MAX,
    ensures
        ({
            let c = data_head(n);
            &&& c.len() == 8
            &&& c.take(4) == data_id()
            &&& le32(c, 4) == 2 * n
        }),
{
    let c = data_head(n);
    let v = 2 * n;
    assert(c.take(4) =~= data_id());
    assert(c[4] == (v % 256) as u8 && c[5] == (v / 256 % 256) as u8 && c[6] == (v / 65536
        % 256) as u8 && c[7] == (v / 16777216 % 256) as u8);
}

/// The parts of a file, seen from its start.
proof fn lemma_file_parts(a: Seq<u8>, b: Seq<u8>, c: Seq<u8>, d: Seq<u8>)
    requires
        a.len() == 12,
        b.len() == 24,
        c.len() == 8,
    ensures
        ({
            let f = a + b + c + d;
            &&& f.len() == 44 + d.len()
            &&& f.take(4) == a.take(4)
            &&& f.subrange(12, 16) == b.take(4)
            &&& le32(f, 16) == le32(b, 4)
            &&& le16(f, 22) == le16(b, 10)
            &&& le16(f, 34) == le16(b, 22)
            &&& f.subrange(36, 40) == c.take(4)
            &&& le32(f, 40) == le32(c, 4)
            &&& f.subrange(44, 44 + d.len() as int) == d
        }),
{
    let f = a + b + c + d;
    assert(f.take(4) =~= a.take(4));
    assert(f.subrange(12, 16) =~= b.take(4));
    assert(f.subrange(36, 40) =~= c.take(4));
    assert(f.subrange(44, 44 + d.len() as int) =~= d);
}

proof fn lemma_scan_written(f: Seq<u8>, pcm: Seq<i16>)
    requires
        pcm.len() > 0,
        f.len() == 44 + 2 * pcm.len(),
        f.take(4) == riff_id(),
        f.subrange(12, 16) == fmt_id(),
        le32(f, 16) == 16,
        le16(f, 22) == 1,
        le16(f, 34) == 16,
        f.subrange(36, 40) == data_id(),
        le32(f, 40) == 2 * pcm.len(),
        samples_of(f.subrange(44, 44 + 2 * pcm.len() as int)) == pcm,
    ensures
        wav_pcm(f) == Ok::<Seq<i16>, WavError>(pcm),
        data_whole(f, 12),
{
    assert(fmt_id() != data_id()) by {
        assert(fmt_id()[0] != data_id()[0]);
    }
    assert(next_chunk(f, 12) == 36);
    assert(wav_scan(f, 36, 1, 16) == (pcm, 1int));
    assert(wav_scan(f, 12, 1, 16) == wav_scan(f, 36, 1, 16));
    assert(data_whole(f, 36));
    assert(data_whole(f, 12));
}

/// A file that was written reads back as the samples that went into it.
pub proof fn law_wav_round_trip(pcm: Seq<i16>)
    requires
        pcm.len() > 0,
        36 + 2 * pcm.len() <= u32::MAX,
    ensures
        wav_pcm(wav_file(pcm)) == Ok::<Seq<i16>, WavError>(pcm),
        data_whole(wav_file(pcm), 12),
{
    let n = pcm.len() as int;
    let a = riff_head(n);
    let b = fmt_chunk();
    let c = data_head(n);
    let d = pcm_bytes(pcm);
    assert(d.len() == 2 * n) by {
        lemma_pcm_bytes(pcm);
    }
    lemma_riff_head(n);
    lemma_fmt_chunk();
    lemma_data_head(n);
    lemma_file_parts(a, b, c, d);
    lemma_samples_back(pcm);
    lemma_scan_written(a + b + c + d, pcm);
}

/// The number in `n` bytes from `i` on, the least significant first.
pub open spec fn little_endian(b: Seq<u8>, i: int, n: nat) -> int
    decreases n,
{
    if n == 0 {
        0
    } else {
        b[i] + 256 * little_endian(b, i + 1, (n - 1) as nat)
    }
}

proof fn lemma_little_endian(b: Seq<u8>, i: int)
    ensures
        little_endian(b, i, 2) == le16(b, i),
        little_endian(b, i, 4) == le32(b, i),
{
    reveal_with_fuel(little_endian, 5);
}

/// Whether four characters stand in bytes from `i` on.
pub open spec fn tagged(b: Seq<u8>, i: int, c0: char, c1: char, c2: char, c3: char) -> bool {
    b[i] as int == c0 as int && b[i + 1] as int == c1 as int && b[i + 2] as int == c2 as int
        && b[i + 3] as int == c3 as int
}

/// A written recording is a RIFF file of mono 16-bit PCM at 48 kHz: each field in its
/// place, the sizes those of what follows, and the samples one behind the other, two
/// bytes each with the lower one first.
pub proof fn law_recording_written(pcm: &[i16], r: Vec<u8>, k: int)
    requires
        36 + 2 * pcm@.len() <= u32::MAX,
        call_ensures(wav_bytes, (pcm,), r),
    ensures
        r@.len() == 44 + 2 * pcm@.len(),
        tagged(r@, 0, 'R', 'I', 'F', 'F') && tagged(r@, 8, 'W', 'A', 'V', 'E'),
        little_endian(r@, 4, 4) == r@.len() - 8,
        tagged(r@, 12, 'f', 'm', 't', ' ') && little_endian(r@, 16, 4) == 16,
        little_endian(r@, 20, 2) == 1,
        little_endian(r@, 22, 2) == 1,
        little_endian(r@, 24, 4) == 48000,
        little_endian(r@, 28, 4) == 48000 * 2,
        little_endian(r@, 32, 2) == 2,
        little_endian(r@, 34, 2) == 16,
        tagged(r@, 36, 'd', 'a', 't', 'a') && little_endian(r@, 40, 4) == r@.len() - 44,
        0 <= k < pcm@.len() && pcm@[k] >= 0 ==> little_endian(r@, 44 + 2 * k, 2) == pcm@[k],
        0 <= k < pcm@.len() && pcm@[k] < 0 ==> little_endian(r@, 44 + 2 * k, 2) == pcm@[k] + 65536,
{
    let n = pcm@.len() as int;
    let a = riff_head(n);
    let b = fmt_chunk();
    let c = data_head(n);
    let d = pcm_bytes(pcm@);
    let f = r@;
    lemma_pcm_bytes(pcm@);
    assert(a.len() == 12 && b.len() == 24 && c.len() == 8);
    lemma_le32_bytes(36 + 2 * n);
    lemma_le32_bytes(2 * n);
    let s = le32_bytes(36 + 2 * n);
    assert(f[0] == riff_id()[0] && f[1] == riff_id()[1] && f[2] == riff_id()[2] && f[3]
        == riff_id()[3]);
    assert(f[4] == s[0] && f[5] == s[1] && f[6] == s[2] && f[7] == s[3]);
    assert(f[8] == 87 && f[9] == 65 && f[10] == 86 && f[11] == 69);
    assert(b[0] == 102 && b[1] == 109 && b[2] == 116 && b[3] == 32);
    assert(b[4] == 16 && b[5] == 0 && b[6] == 0 && b[7] == 0);
    assert(b[8] == 1 && b[9] == 0 && b[10] == 1 && b[11] == 0);
    assert(b[12] == 128 && b[13] == 187 && b[14] == 0 && b[15] == 0);
    assert(b[16] == 0 && b[17] == 119 && b[18] == 1 && b[19] == 0);
    assert(b[20] == 2 && b[21] == 0 && b[22] == 16 && b[23] == 0);
    assert(f[12] == b[0] && f[13] == b[1] && f[14] == b[2] && f[15] == b[3]);
    assert(f[16] == b[4] && f[17] == b[5] && f[18] == b[6] && f[19] == b[7]);
    assert(f[20] == b[8] && f[21] == b[9] && f[22] == b[10] && f[23] == b[11]);
    assert(f[24] == b[12] && f[25] == b[13] && f[26] == b[14] && f[27]
        == b[15]);
    assert(f[28] == b[16] && f[29] == b[17] && f[30] == b[18] && f[31]
        == b[19]);
    assert(f[32] == b[20] && f[33] == b[21] && f[34] == b[22] && f[35]
        == b[23]);
    let t = le32_bytes(2 * n);
    assert(f[36] == 100 && f[37] == 97 && f[38] == 116 && f[39] == 97);
    assert(f[40] == t[0] && f[41] == t[1] && f[42] == t[2] && f[43] == t[3]);
    lemma_little_endian(f, 4);
    lemma_little_endian(f, 16);
    lemma_little_endian(f, 20);
    lemma_little_endian(f, 22);
    lemma_little_endian(f, 24);
    lemma_little_endian(f, 28);
    lemma_little_endian(f, 32);
    lemma_little_endian(f, 34);
    lemma_little_endian(f, 40);
    if 0 <= k < n {
        let two = sample_bytes(pcm@[k]);
        assert(two == seq![d[2 * k], d[2 * k + 1]]);
        assert(two[0] == d[2 * k] && two[1] == d[2 * k + 1]);
        assert(f[44 + 2 * k] == d[2 * k] && f[44 + 2 * k + 1] == d[2 * k + 1]);
        lemma_little_endian(f, 44 + 2 * k);
    }
}

#[verifier::spinoff_prover]
proof fn lemma_le32_bytes(v: int)
    requires
        0 <= v <= u32::MAX,
    ensures
        le32(le32_bytes(v), 0) == v,
        le32_bytes(v).len() == 4,
{
    let b = le32_bytes(v);
    assert(b[0] == v % 256 && b[1] == v / 256 % 256 && b[2] == v / 65536 % 256 && b[3] == v
        / 16777216 % 256);
    let h = v / 256;
    let m = h / 256;
    let t = m / 256;
    assert(v / 65536 == m);
    assert(v / 16777216 == t);
}

/// A file whose format comes first, then its samples, is read by these: of every group
/// of channels the first sample, two bytes each with the lower one first, as signed
/// numbers.
pub proof fn law_recording_read(
    data: &[u8],
    r: Result<Vec<i16>, WavError>,
    size: int,
    channels: int,
    k: int,
)
    requires
        call_ensures(load_wav_pcm, (data,), r),
        data@.len() >= 46,
        tagged(data@, 0, 'R', 'I', 'F', 'F'),
        tagged(data@, 12, 'f', 'm', 't', ' '),
        little_endian(data@, 16, 4) == 16,
        little_endian(data@, 22, 2) == channels,
        channels >= 1,
        little_endian(data@, 34, 2) == 16,
        tagged(data@, 36, 'd', 'a', 't', 'a'),
        little_endian(data@, 40, 4) == size,
        2 <= size,
        44 + size <= data@.len(),
    ensures
        r matches Ok(pcm) && {
            &&& pcm@.len() > 0
            &&& (pcm@.len() - 1) * channels < size / 2 <= pcm@.len() * channels
            &&& 0 <= k < pcm@.len() ==> 0 <= k * channels && 46 + 2 * (k * channels) <= 44 + size
            &&& 0 <= k < pcm@.len() ==> ({
                let v = little_endian(data@, 44 + 2 * (k * channels), 2);
                &&& v < 32768 ==> pcm@[k] == v
                &&& v >= 32768 ==> pcm@[k] == v - 65536
            })
        },
{
    let f = data@;
    lemma_little_endian(f, 16);
    lemma_little_endian(f, 22);
    lemma_little_endian(f, 34);
    lemma_little_endian(f, 40);
    assert(f.take(4) =~= riff_id());
    assert(f.subrange(12, 16) =~= fmt_id());
    assert(f.subrange(36, 40) =~= data_id());
    let x = f.subrange(12, 16);
    assert(x[0] == 102 && data_id()[0] == 100);
    assert(x != data_id());
    let body = f.subrange(44, 44 + size);
    let all = samples_of(body);
    assert(next_chunk(f, 12) == 36);
    assert(wav_scan(f, 36, channels, 16) == (all, channels));
    assert(wav_scan(f, 12, 1, 16) == (all, channels));
    assert(all.len() == size / 2);
    crate::voice::frames::lemma_first_channel(all, channels, k);
    let pcm = r->Ok_0@;
    if channels == 1 {
        assert(pcm == all);
        assert(k * channels == k) by (nonlinear_arith)
            requires
                channels == 1,
        ;
        assert((pcm.len() - 1) * channels == pcm.len() - 1 && pcm.len() * channels == pcm.len())
            by (nonlinear_arith)
            requires
                channels == 1,
        ;
    }
    if 0 <= k < pcm.len() {
        let j = k * channels;
        assert(0 <= j < all.len());
        assert(all[j] == signed16(le16(body, 2 * j)) as i16);
        assert(body[2 * j] == f[44 + 2 * j] && body[2 * j + 1] == f[44 + 2 * j + 1]);
        lemma_little_endian(f, 44 + 2 * j);
        assert(0 <= le16(body, 2 * j) < 65536);
    }
}

/// What is written is read back sample by sample, and is whole.
pub proof fn law_recording_round_trip(
    pcm: &[i16],
    written: Vec<u8>,
    file: &[u8],
    r: Result<Vec<i16>, WavError>,
    whole: bool,
)
    requires
        0 < pcm@.len(),
        36 + 2 * pcm@.len() <= u32::MAX,
        call_ensures(wav_bytes, (pcm,), written),
        file@ == written@,
        call_ensures(load_wav_pcm, (file,), r),
        call_ensures(wav_complete, (file,), whole),
    ensures
        r matches Ok(back) && back@ == pcm@,
        whole,
{
    law_wav_round_trip(pcm@);
    assert(file@.len() >= 4) by {
        lemma_pcm_bytes(pcm@);
    }
}

/// Only a RIFF file is read.
pub proof fn law_only_riff(data: &[u8], r: Result<Vec<i16>, WavError>)
    requires
        data@.len() >= 4,
        call_ensures(load_wav_pcm, (data,), r),
    ensures
        (r matches Err(e) && e is NotRiff) <==> !tagged(data@, 0, 'R', 'I', 'F', 'F'),
{
    lemma_riff_tag(data@);
}

proof fn lemma_riff_tag(data: Seq<u8>)
    requires
        data.len() >= 4,
    ensures
        tagged(data, 0, 'R', 'I', 'F', 'F') <==> data.take(4) == riff_id(),
{
    let t = data.take(4);
    let id = riff_id();
    assert(t[0] == data[0] && t[1] == data[1] && t[2] == data[2] && t[3] == data[3]);
    if tagged(data, 0, 'R', 'I', 'F', 'F') {
        assert(t =~= id);
    }
    if t == id {
        assert(t[0] == id[0] && t[1] == id[1] && t[2] == id[2] && t[3] == id[3]);
    }
}

/// The samples behind a header of 44 bytes are taken as they stand.
pub proof fn law_samples_behind_header(data: &[u8], r: Vec<i16>, k: int)
    requires
        data@.len() >= 44,
        call_ensures(pcm_after_header, (data,), r),
    ensures
        r@.len() == (data@.len() - 44) / 2,
        0 <= k < r@.len() ==> ({
            let v = little_endian(data@, 44 + 2 * k, 2);
            &&& v < 32768 ==> r@[k] == v
            &&& v >= 32768 ==> r@[k] == v - 65536
        }),
{
    if 0 <= k < r@.len() {
        let b = data@.skip(44);
        assert(b[2 * k] == data@[44 + 2 * k] && b[2 * k + 1] == data@[44 + 2 * k + 1]);
        lemma_little_endian(data@, 44 + 2 * k);
        assert(0 <= le16(b, 2 * k) < 65536);
    }
}

/// A chunk that is neither the format nor the samples is passed over: with or without
/// it in front of them, a whole file is read the same.
pub proof fn law_other_chunks_skipped(
    plain: &[u8],
    more: &[u8],
    chunk: Seq<u8>,
    x: Result<Vec<i16>, WavError>,
    y: Result<Vec<i16>, WavError>,
)
    requires
        call_ensures(wav_complete, (plain,), true),
        plain@.len() >= 12,
        chunk.len() >= 8,
        chunk.len() == 8 + little_endian(chunk, 4, 4) + little_endian(chunk, 4, 4) % 2,
        !tagged(chunk, 0, 'f', 'm', 't', ' '),
        !tagged(chunk, 0, 'd', 'a', 't', 'a'),
        more@ == plain@.take(12) + chunk + plain@.skip(12),
        call_ensures(load_wav_pcm, (plain,), x),
        call_ensures(load_wav_pcm, (more,), y),
    ensures
        x is Ok <==> y is Ok,
        x matches Ok(p) ==> (y matches Ok(q) && p@ == q@),
        x matches Err(e) ==> y == Err::<Vec<i16>, WavError>(e),
{
    let a = plain@;
    let b = more@;
    let n = chunk.len() as int;
    lemma_little_endian(chunk, 4);
    assert(b.take(4) =~= a.take(4));
    assert(b[16] == chunk[4] && b[17] == chunk[5] && b[18] == chunk[6] && b[19] == chunk[7]);
    let id = b.subrange(12, 16);
    assert(id[0] == chunk[0] && id[1] == chunk[1] && id[2] == chunk[2] && id[3] == chunk[3]);
    assert(data_id()[0] == 100 && data_id()[1] == 97 && data_id()[2] == 116 && data_id()[3] == 97);
    assert(fmt_id()[0] == 102 && fmt_id()[1] == 109 && fmt_id()[2] == 116 && fmt_id()[3] == 32);
    assert(id != data_id() && id != fmt_id());
    assert(next_chunk(b, 12) == 12 + n);
    assert(wav_scan(b, 12, 1, 16) == wav_scan(b, 12 + n, 1, 16));
    if a.take(4) == riff_id() {
        lemma_scan_shift(a, b, n, 12, 1, 16);
    }
}

proof fn lemma_scan_shift(a: Seq<u8>, b: Seq<u8>, n: int, off: int, channels: int, bits: int)
    requires
        n >= 0,
        off >= 12,
        data_whole(a, off),
        b.len() == a.len() + n,
        forall|i: int| 12 <= i < a.len() ==> #[trigger] b[i + n] == a[i],
    ensures
        wav_scan(b, off + n, channels, bits) == wav_scan(a, off, channels, bits),
    decreases
            (if off < a.len() {
                a.len() - off
            } else {
                0
            }),
{
    if off + 8 <= a.len() {
        let p = a.subrange(off, off + 4);
        let q = b.subrange(off + n, off + n + 4);
        assert(q =~= p) by {
            assert forall|i: int| 0 <= i < 4 implies q[i] == p[i] by {
                assert(b[(off + i) + n] == a[off + i]);
            }
        }
        assert(b[(off + 4) + n] == a[off + 4] && b[(off + 5) + n] == a[off + 5]);
        assert(b[(off + 6) + n] == a[off + 6] && b[(off + 7) + n] == a[off + 7]);
        assert(le32(b, off + n + 4) == le32(a, off + 4));
        assert(next_chunk(b, off + n) == next_chunk(a, off) + n);
        let size = le32(a, off + 4);
        if p == data_id() {
            let u = a.subrange(off + 8, off + 8 + size);
            let v = b.subrange(off + n + 8, off + n + 8 + size);
            assert(v =~= u) by {
                assert forall|i: int| 0 <= i < size implies v[i] == u[i] by {
                    assert(b[(off + 8 + i) + n] == a[off + 8 + i]);
                }
            }
        } else if p == fmt_id() && off + 24 <= a.len() {
            assert(b[(off + 10) + n] == a[off + 10] && b[(off + 11) + n] == a[off + 11]);
            assert(b[(off + 22) + n] == a[off + 22] && b[(off + 23) + n] == a[off + 23]);
            lemma_scan_shift(a, b, n, next_chunk(a, off), le16(a, off + 10), le16(a, off + 22));
        } else {
            lemma_scan_shift(a, b, n, next_chunk(a, off), channels, bits);
        }
    }
}

/// An error tells what is wrong, and with which file.
pub proof fn law_wav_errors_tell(path: &str, x: String, y: String)
    requires
        call_ensures(WavError::message, (WavError::NotRiff, path), x),
        call_ensures(WavError::message, (WavError::NoPcm, path), y),
    ensures
        x@ == "not a RIFF/WAV file"@,
        y@ == "no PCM data found in "@ + path@ + " (need 16-bit)"@,
{
}

} // verus!
