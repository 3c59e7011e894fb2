//! The spectral data model and the container decoder.
//!
//! A container holds a fixed 80-byte header of ten little-endian binary64
//! fields, followed by one record per analysis frame: an 8-byte time stamp
//! (skipped), one peak per partial (amplitude and frequency, plus a phase
//! for phase-carrying types), and, for noise-carrying types, 25 per-band
//! residual energies. Every stored value is kept as its raw bit pattern.

use vstd::prelude::*;
use vstd::string::StringExecFns;
use vstd::bytes::spec_u64_from_le_bytes;
use vstd::bytes::u64_from_le_bytes;
use vstd::slice::slice_subrange;
use crate::float_bits::f64_bits_le;
use crate::float_bits::f64_bits_lt;
use crate::float_bits::f64_bits_trunc;
use crate::float_bits::f64_le;
use crate::float_bits::f64_lt;
use crate::float_bits::f64_trunc;
use crate::float_bits::MAGIC_BITS;

verus! {

/// Number of fixed noise bands.
pub const NOISE_BANDS: usize = 25;

/// The lower edge of band `i`, in Hz, as a binary64 bit pattern; index 25
/// is the upper edge of the last band. The edges run from 0 Hz to 20 kHz
/// with the fixed, non-uniform spacing of the analysis format.
pub open spec fn band_edge(i: int) -> u64 {
    if i <= 0 {
        0x0
    } else if i == 1 {
        0x4059_0000_0000_0000  // 100 Hz
    } else if i == 2 {
        0x4069_0000_0000_0000  // 200 Hz
    } else if i == 3 {
        0x4072_C000_0000_0000  // 300 Hz
    } else if i == 4 {
        0x4079_0000_0000_0000  // 400 Hz
    } else if i == 5 {
        0x407F_E000_0000_0000  // 510 Hz
    } else if i == 6 {
        0x4083_B000_0000_0000  // 630 Hz
    } else if i == 7 {
        0x4088_1000_0000_0000  // 770 Hz
    } else if i == 8 {
        0x408C_C000_0000_0000  // 920 Hz
    } else if i == 9 {
        0x4090_E000_0000_0000  // 1080 Hz
    } else if i == 10 {
        0x4093_D800_0000_0000  // 1270 Hz
    } else if i == 11 {
        0x4097_2000_0000_0000  // 1480 Hz
    } else if i == 12 {
        0x409A_E000_0000_0000  // 1720 Hz
    } else if i == 13 {
        0x409F_4000_0000_0000  // 2000 Hz
    } else if i == 14 {
        0x40A2_2000_0000_0000  // 2320 Hz
    } else if i == 15 {
        0x40A5_1800_0000_0000  // 2700 Hz
    } else if i == 16 {
        0x40A8_9C00_0000_0000  // 3150 Hz
    } else if i == 17 {
        0x40AC_E800_0000_0000  // 3700 Hz
    } else if i == 18 {
        0x40B1_3000_0000_0000  // 4400 Hz
    } else if i == 19 {
        0x40B4_B400_0000_0000  // 5300 Hz
    } else if i == 20 {
        0x40B9_0000_0000_0000  // 6400 Hz
    } else if i == 21 {
        0x40BE_1400_0000_0000  // 7700 Hz
    } else if i == 22 {
        0x40C2_8E00_0000_0000  // 9500 Hz
    } else if i == 23 {
        0x40C7_7000_0000_0000  // 12000 Hz
    } else if i == 24 {
        0x40CE_4600_0000_0000  // 15500 Hz
    } else {
        0x40D3_8800_0000_0000  // 20000 Hz
    }
}

/// Returns the lower edge of band `i` (index 25: the upper edge of the
/// last band) as a binary64 bit pattern.
pub fn band_edge_bits(i: usize) -> (r: u64)
    requires
        i <= 25,
    ensures
        r == band_edge(i as int),
{
    if i == 0 {
        0x0
    } else if i == 1 {
        0x4059_0000_0000_0000
    } else if i == 2 {
        0x4069_0000_0000_0000
    } else if i == 3 {
        0x4072_C000_0000_0000
    } else if i == 4 {
        0x4079_0000_0000_0000
    } else if i == 5 {
        0x407F_E000_0000_0000
    } else if i == 6 {
        0x4083_B000_0000_0000
    } else if i == 7 {
        0x4088_1000_0000_0000
    } else if i == 8 {
        0x408C_C000_0000_0000
    } else if i == 9 {
        0x4090_E000_0000_0000
    } else if i == 10 {
        0x4093_D800_0000_0000
    } else if i == 11 {
        0x4097_2000_0000_0000
    } else if i == 12 {
        0x409A_E000_0000_0000
    } else if i == 13 {
        0x409F_4000_0000_0000
    } else if i == 14 {
        0x40A2_2000_0000_0000
    } else if i == 15 {
        0x40A5_1800_0000_0000
    } else if i == 16 {
        0x40A8_9C00_0000_0000
    } else if i == 17 {
        0x40AC_E800_0000_0000
    } else if i == 18 {
        0x40B1_3000_0000_0000
    } else if i == 19 {
        0x40B4_B400_0000_0000
    } else if i == 20 {
        0x40B9_0000_0000_0000
    } else if i == 21 {
        0x40BE_1400_0000_0000
    } else if i == 22 {
        0x40C2_8E00_0000_0000
    } else if i == 23 {
        0x40C7_7000_0000_0000
    } else if i == 24 {
        0x40CE_4600_0000_0000
    } else {
        0x40D3_8800_0000_0000
    }
}

/// True when the frequency with bit pattern `freq` lies inside band `i`:
/// at or above the band's lower edge and strictly below its upper edge.
/// A frequency exactly on an edge belongs to the upper of the two bands.
pub open spec fn in_band(freq: u64, i: int) -> bool {
    f64_bits_le(band_edge(i), freq) && f64_bits_lt(freq, band_edge(i + 1))
}

/// The band that the scan assigns to `freq` when it starts at band `i`:
/// the first matching band, or the last band as catch-all.
pub open spec fn band_of_from(freq: u64, i: int) -> int
    decreases 25 - i,
{
    if i >= 25 {
        24
    } else if in_band(freq, i) {
        i
    } else {
        band_of_from(freq, i + 1)
    }
}

/// The noise band assigned to the frequency with bit pattern `freq`: the
/// first band whose range contains it, and the last band for frequencies
/// at or above the highest edge or matching no band (negative, NaN).
pub open spec fn band_of(freq: u64) -> int {
    band_of_from(freq, 0)
}

/// Finds the noise band of a frequency given as a binary64 bit pattern.
pub fn band_index(freq: u64) -> (r: usize)
    ensures
        r == band_of(freq),
        r < NOISE_BANDS,
{
    proof {
        lemma_band_of_from_range(freq, 0);
    }
    let mut i: usize = 0;
    while i < 25
        invariant
            i <= 25,
            band_of(freq) == band_of_from(freq, i as int),
        decreases 25 - i,
    {
        let lo = band_edge_bits(i);
        let hi = band_edge_bits(i + 1);
        if f64_le(lo, freq) && f64_lt(freq, hi) {
            return i;
        }
        i = i + 1;
    }
    24
}

/// The scan starting at band `i` lands between `i` and the last band.
proof fn lemma_band_of_from_range(freq: u64, i: int)
    requires
        0 <= i <= 25,
    ensures
        band_of_from(freq, i) <= 24,
        i <= 24 ==> i <= band_of_from(freq, i),
    decreases 25 - i,
{
    if i < 25 && !in_band(freq, i) {
        lemma_band_of_from_range(freq, i + 1);
    }
}


/// The ten fixed header fields of a container, each the bit pattern of a
/// little-endian binary64 value, in stored order.
pub struct Header {
    /// Magic constant; must hold the value 123.0.
    pub mag: u64,
    /// Sample rate of the analyzed audio.
    pub sr: u64,
    /// Analysis frame size in samples.
    pub fs: u64,
    /// Analysis window size in samples.
    pub ws: u64,
    /// Number of partials per frame.
    pub par: u64,
    /// Number of frames.
    pub fra: u64,
    /// Maximum amplitude observed.
    pub ma: u64,
    /// Maximum frequency observed.
    pub mf: u64,
    /// Total duration in seconds.
    pub dur: u64,
    /// Format type code; 1 to 4 after truncation.
    pub typ: u64,
}

/// The four container formats: amplitude and frequency, optionally with a
/// per-peak phase and a per-frame noise residual.
pub enum AtsFileType {
    AmpFreq,
    AmpFreqPhase,
    AmpFreqNoise,
    AmpFreqPhaseNoise,
}

impl AtsFileType {
    /// The numeric type code of this format.
    pub open spec fn code_spec(self) -> u64 {
        match self {
            AtsFileType::AmpFreq => 1,
            AtsFileType::AmpFreqPhase => 2,
            AtsFileType::AmpFreqNoise => 3,
            AtsFileType::AmpFreqPhaseNoise => 4,
        }
    }

    /// Returns the numeric type code of this format.
    pub fn code(&self) -> (r: u64)
        ensures
            r == self.code_spec(),
    {
        match self {
            AtsFileType::AmpFreq => 1,
            AtsFileType::AmpFreqPhase => 2,
            AtsFileType::AmpFreqNoise => 3,
            AtsFileType::AmpFreqPhaseNoise => 4,
        }
    }
}

/// One sinusoidal peak of one frame. The phase is present only for
/// phase-carrying formats. The derived per-peak noise energy is not part
/// of the container; the decoder leaves it empty.
pub struct Peak {
    /// Amplitude (binary64 bits).
    pub amp: u64,
    /// Frequency in Hz (binary64 bits).
    pub freq: u64,
    /// Phase in radians (binary64 bits), for phase-carrying formats.
    pub phase: Option<u64>,
    /// Derived noise energy (binary64 bits), filled in after decoding
    /// for noise-carrying formats.
    pub noise_energy: Option<u64>,
}

/// Why a decode attempt failed. In every case no data set is returned.
#[derive(Debug)]
pub enum DecodeError {
    /// The header's magic field does not hold 123.0.
    BadMagic,
    /// The header's type code is outside 1 to 4.
    UnsupportedType,
    /// The source ended before the header or some frame fully decoded.
    Truncated,
}

/// A decoded, immutable spectral data set.
pub struct AtsFile {
    /// The container header.
    pub header: Header,
    /// One entry per frame; each holds one peak per partial.
    pub frames: Vec<Vec<Peak>>,
    /// For noise-carrying formats, one 25-band residual per frame.
    pub noise: Option<Vec<Vec<u64>>>,
    /// Which of the four formats the container used.
    pub file_type: AtsFileType,
    /// The identifier of the source the data came from, e.g. a file path.
    pub source: String,
}

/// The `u64` stored little-endian at byte offset `off`.
pub open spec fn le64_at(bytes: Seq<u8>, off: int) -> u64
    recommends
        0 <= off,
        off + 8 <= bytes.len(),
{
    spec_u64_from_le_bytes(bytes.subrange(off, off + 8))
}

/// The header encoded in the first 80 bytes of `bytes`.
pub open spec fn header_at(bytes: Seq<u8>) -> Header
    recommends
        80 <= bytes.len(),
{
    Header {
        mag: le64_at(bytes, 0),
        sr: le64_at(bytes, 8),
        fs: le64_at(bytes, 16),
        ws: le64_at(bytes, 24),
        par: le64_at(bytes, 32),
        fra: le64_at(bytes, 40),
        ma: le64_at(bytes, 48),
        mf: le64_at(bytes, 56),
        dur: le64_at(bytes, 64),
        typ: le64_at(bytes, 72),
    }
}

/// The numeric type code a header declares: its `typ` field truncated to
/// an integer.
pub open spec fn spec_type_code(h: Header) -> u64 {
    f64_bits_trunc(h.typ)
}

/// True when type code `tc` carries a per-peak phase.
pub open spec fn type_has_phase(tc: u64) -> bool {
    tc == 2 || tc == 4
}

/// True when type code `tc` carries a per-frame noise residual.
pub open spec fn type_has_noise(tc: u64) -> bool {
    tc == 3 || tc == 4
}

/// The number of partials a header declares.
pub open spec fn spec_partials(h: Header) -> int {
    f64_bits_trunc(h.par) as int
}

/// The number of frames a header declares.
pub open spec fn spec_frame_count(h: Header) -> int {
    f64_bits_trunc(h.fra) as int
}

/// Bytes one stored peak occupies under type code `tc`.
pub open spec fn peak_bytes(tc: u64) -> int {
    if type_has_phase(tc) {
        24
    } else {
        16
    }
}

/// Bytes one stored frame occupies: the 8-byte time stamp, the peaks, and
/// for noise-carrying types the 25-band residual.
pub open spec fn frame_bytes(tc: u64, par: int) -> int {
    8 + par * peak_bytes(tc) + if type_has_noise(tc) {
        200int
    } else {
        0int
    }
}

/// The byte length a container with header `h` requires.
pub open spec fn required_len(h: Header) -> int {
    80 + spec_frame_count(h) * frame_bytes(spec_type_code(h), spec_partials(h))
}

/// The byte offset of frame `i`.
pub open spec fn frame_off(h: Header, i: int) -> int {
    80 + i * frame_bytes(spec_type_code(h), spec_partials(h))
}

/// The byte offset of peak `j` of frame `i`.
pub open spec fn peak_off(h: Header, i: int, j: int) -> int {
    frame_off(h, i) + 8 + j * peak_bytes(spec_type_code(h))
}

/// The byte offset of the noise residual of frame `i`.
pub open spec fn noise_off(h: Header, i: int) -> int {
    frame_off(h, i) + 8 + spec_partials(h) * peak_bytes(spec_type_code(h))
}

/// Peak `j` of frame `i` of the decoded set holds exactly the stored
/// amplitude, frequency and (for phase-carrying types) phase, and no
/// derived noise energy yet.
pub open spec fn peak_matches(bytes: Seq<u8>, h: Header, i: int, j: int, p: Peak) -> bool {
    &&& p.amp == le64_at(bytes, peak_off(h, i, j))
    &&& p.freq == le64_at(bytes, peak_off(h, i, j) + 8)
    &&& p.phase == if type_has_phase(spec_type_code(h)) {
        Some(le64_at(bytes, peak_off(h, i, j) + 16))
    } else {
        None::<u64>
    }
    &&& p.noise_energy is None
}

/// Frame `i` of the decoded set holds exactly the declared number of
/// peaks, each matching the stored bytes.
pub open spec fn frame_matches(bytes: Seq<u8>, h: Header, i: int, fr: Seq<Peak>) -> bool {
    &&& fr.len() == spec_partials(h)
    &&& forall|j: int| 0 <= j < fr.len() ==> peak_matches(bytes, h, i, j, #[trigger] fr[j])
}

/// The noise residual of frame `i` holds exactly the 25 stored per-band
/// energies.
pub open spec fn noise_frame_matches(bytes: Seq<u8>, h: Header, i: int, n: Seq<u64>) -> bool {
    &&& n.len() == 25
    &&& forall|k: int| 0 <= k < 25 ==> #[trigger] n[k] == le64_at(bytes, noise_off(h, i) + 8 * k)
}

/// The decoded set is exactly what `bytes` stores: the header, the
/// declared number of frames of the declared number of peaks, and the
/// noise residuals present precisely for noise-carrying types.
pub open spec fn decoded_matches(bytes: Seq<u8>, source: Seq<char>, f: AtsFile) -> bool {
    let h = header_at(bytes);
    &&& f.header == h
    &&& f.file_type.code_spec() == spec_type_code(h)
    &&& f.source@ == source
    &&& f.frames@.len() == spec_frame_count(h)
    &&& forall|i: int|
        0 <= i < spec_frame_count(h) ==> frame_matches(bytes, h, i, (#[trigger] f.frames@[i])@)
    &&& match f.noise {
        Some(n) => {
            &&& type_has_noise(spec_type_code(h))
            &&& n@.len() == spec_frame_count(h)
            &&& forall|i: int|
                0 <= i < spec_frame_count(h) ==> noise_frame_matches(
                    bytes,
                    h,
                    i,
                    (#[trigger] n@[i])@,
                )
        },
        None => !type_has_noise(spec_type_code(h)),
    }
}

/// Reads the `u64` stored little-endian at `off`.
fn read_u64_at(bytes: &[u8], off: usize) -> (r: u64)
    requires
        off + 8 <= bytes@.len(),
    ensures
        r == le64_at(bytes@, off as int),
{
    // binding the length as a usize lets the verifier bound `off + 8`
    let _len: usize = bytes.len();
    let s = slice_subrange(bytes, off, off + 8);
    u64_from_le_bytes(s)
}

/// Any prefix of a frame, extended by the bytes the next read needs,
/// still fits inside the declared container length.
proof fn lemma_within_required(fi: int, fra: int, fb: int, off_need: int)
    requires
        0 <= fi < fra,
        0 <= off_need <= fb,
    ensures
        80 + fi * fb + off_need <= 80 + fra * fb,
{
    assert(fi * fb + fb == (fi + 1) * fb) by (nonlinear_arith);
    assert((fi + 1) * fb <= fra * fb) by (nonlinear_arith)
        requires
            fi + 1 <= fra,
            fb >= 0,
    ;
}

impl AtsFile {
    /// Decodes a container from `bytes`, recording `source` as the data
    /// set's origin. Returns the error the stream forces - a bad magic
    /// value, an unsupported type code, or a truncated stream - and a
    /// complete data set otherwise; nothing partial is ever returned.
    pub fn try_read(bytes: &[u8], source: String) -> (r: Result<AtsFile, DecodeError>)
        ensures
            match r {
                Ok(f) => {
                    &&& bytes@.len() >= 80
                    &&& header_at(bytes@).mag == MAGIC_BITS
                    &&& 1 <= spec_type_code(header_at(bytes@)) <= 4
                    &&& bytes@.len() >= required_len(header_at(bytes@))
                    &&& decoded_matches(bytes@, source@, f)
                },
                Err(DecodeError::Truncated) => bytes@.len() < 80 || (header_at(bytes@).mag
                    == MAGIC_BITS && 1 <= spec_type_code(header_at(bytes@)) <= 4 && bytes@.len()
                    < required_len(header_at(bytes@))),
                Err(DecodeError::BadMagic) => bytes@.len() >= 80 && header_at(bytes@).mag
                    != MAGIC_BITS,
                Err(DecodeError::UnsupportedType) => bytes@.len() >= 80 && header_at(bytes@).mag
                    == MAGIC_BITS && !(1 <= spec_type_code(header_at(bytes@)) <= 4),
            },
    {
        if bytes.len() < 80 {
            return Err(DecodeError::Truncated);
        }
        let header = Header {
            mag: read_u64_at(bytes, 0),
            sr: read_u64_at(bytes, 8),
            fs: read_u64_at(bytes, 16),
            ws: read_u64_at(bytes, 24),
            par: read_u64_at(bytes, 32),
            fra: read_u64_at(bytes, 40),
            ma: read_u64_at(bytes, 48),
            mf: read_u64_at(bytes, 56),
            dur: read_u64_at(bytes, 64),
            typ: read_u64_at(bytes, 72),
        };
        assert(header == header_at(bytes@));
        if header.mag != MAGIC_BITS {
            return Err(DecodeError::BadMagic);
        }
        let tc = f64_trunc(header.typ);
        let file_type = match tc {
            1u64 => AtsFileType::AmpFreq,
            2u64 => AtsFileType::AmpFreqPhase,
            3u64 => AtsFileType::AmpFreqNoise,
            4u64 => AtsFileType::AmpFreqPhaseNoise,
            _ => { return Err(DecodeError::UnsupportedType) },
        };
        let par = f64_trunc(header.par);
        let fra = f64_trunc(header.fra);
        let with_phase = tc == 2 || tc == 4;
        let with_noise = tc == 3 || tc == 4;
        let psz: u64 = if with_phase { 24 } else { 16 };
        let nsz: u64 = if with_noise { 200 } else { 0 };
        let ghost h = header_at(bytes@);
        let ghost fb = frame_bytes(spec_type_code(h), spec_partials(h));
        assert(fb == 8 + par * psz + nsz);
        assert(par * psz >= 0) by (nonlinear_arith)
            requires par >= 0, psz >= 0,
        ;

        let total: usize = bytes.len();
        let mut frames: Vec<Vec<Peak>> = Vec::new();
        let mut noise: Vec<Vec<u64>> = Vec::new();
        let mut pos: usize = 80;
        let mut fi: u64 = 0;
        while fi < fra
            invariant
                total == bytes@.len(),
                h == header_at(bytes@),
                h.mag == MAGIC_BITS,
                spec_type_code(h) == tc,
                1 <= tc <= 4,
                par == spec_partials(h),
                fra == spec_frame_count(h),
                psz == peak_bytes(tc),
                nsz == if type_has_noise(tc) { 200int } else { 0int },
                with_phase == type_has_phase(tc),
                with_noise == type_has_noise(tc),
                fb == frame_bytes(tc, par as int),
                fb == 8 + par * psz + nsz,
                par * psz >= 0,
                fi <= fra,
                pos == frame_off(h, fi as int),
                pos <= bytes@.len(),
                frames@.len() == fi,
                forall|i: int|
                    0 <= i < fi ==> frame_matches(bytes@, h, i, (#[trigger] frames@[i])@),
                noise@.len() == if type_has_noise(tc) { fi as int } else { 0int },
                forall|i: int|
                    0 <= i < noise@.len() ==> noise_frame_matches(bytes@, h, i, (#[trigger] noise@[i])@),
            decreases fra - fi,
        {
            // the frame's leading time stamp is skipped, never retained
            if bytes.len() - pos < 8 {
                proof {
                    lemma_within_required(fi as int, fra as int, fb, 8);
                }
                return Err(DecodeError::Truncated);
            }
            pos = pos + 8;
            let mut frame_peaks: Vec<Peak> = Vec::new();
            let mut pj: u64 = 0;
            while pj < par
                invariant
                    total == bytes@.len(),
                    h == header_at(bytes@),
                    h.mag == MAGIC_BITS,
                    spec_type_code(h) == tc,
                    1 <= tc <= 4,
                    par == spec_partials(h),
                    fra == spec_frame_count(h),
                    psz == peak_bytes(tc),
                    with_phase == type_has_phase(tc),
                    fb == frame_bytes(tc, par as int),
                    fb == 8 + par * psz + nsz,
                    nsz >= 0,
                    fi < fra,
                    pj <= par,
                    pos == peak_off(h, fi as int, pj as int),
                    pos <= bytes@.len(),
                    frame_peaks@.len() == pj,
                    forall|j: int|
                        0 <= j < pj ==> peak_matches(bytes@, h, fi as int, j, #[trigger] frame_peaks@[j]),
                decreases par - pj,
            {
                if bytes.len() - pos < (psz as usize) {
                    proof {
                        assert(8 + pj * psz + psz <= fb) by (nonlinear_arith)
                            requires
                                fb == 8 + par * psz + nsz,
                                0 <= pj < par,
                                psz >= 0,
                                nsz >= 0,
                        ;
                        lemma_within_required(fi as int, fra as int, fb, 8 + pj * psz + psz);
                    }
                    return Err(DecodeError::Truncated);
                }
                let amp = read_u64_at(bytes, pos);
                let freq = read_u64_at(bytes, pos + 8);
                let phase = if with_phase {
                    Some(read_u64_at(bytes, pos + 16))
                } else {
                    None
                };
                frame_peaks.push(Peak { amp, freq, phase, noise_energy: None });
                pos = pos + (psz as usize);
                pj = pj + 1;
            }
            if with_noise {
                if bytes.len() - pos < 200 {
                    proof {
                        assert(8 + par * psz + 200 <= fb);
                        lemma_within_required(fi as int, fra as int, fb, 8 + par * psz + 200);
                    }
                    return Err(DecodeError::Truncated);
                }
                let mut nframe: Vec<u64> = Vec::new();
                let mut k: usize = 0;
                while k < 25
                    invariant
                        total == bytes@.len(),
                        h == header_at(bytes@),
                        k <= 25,
                        pos == noise_off(h, fi as int),
                        pos + 200 <= bytes@.len(),
                        nframe@.len() == k,
                        forall|m: int|
                            0 <= m < k ==> #[trigger] nframe@[m] == le64_at(
                                bytes@,
                                noise_off(h, fi as int) + 8 * m,
                            ),
                    decreases 25 - k,
                {
                    let v = read_u64_at(bytes, pos + 8 * k);
                    nframe.push(v);
                    k = k + 1;
                }
                noise.push(nframe);
                pos = pos + 200;
            }
            frames.push(frame_peaks);
            proof {
                assert(frame_off(h, fi as int) + fb == frame_off(h, fi as int + 1)) by (nonlinear_arith)
                    requires
                        frame_off(h, fi as int) == 80 + (fi as int) * fb,
                        frame_off(h, fi as int + 1) == 80 + (fi as int + 1) * fb,
                ;
            }
            fi = fi + 1;
        }
        let noise_out = if with_noise {
            Some(noise)
        } else {
            None
        };
        Ok(AtsFile { header, frames, noise: noise_out, file_type, source })
    }
}

impl AtsFile {
    /// The peak count shared by every frame of a well-shaped data set.
    pub open spec fn spec_partials(self) -> int {
        if self.frames@.len() == 0 {
            0
        } else {
            self.frames@[0]@.len() as int
        }
    }

    /// Every frame holds the same number of peaks, and the noise array,
    /// when present, holds one 25-entry residual per frame.
    pub open spec fn wf_shape(self) -> bool {
        &&& forall|i: int|
            0 <= i < self.frames@.len() ==> (#[trigger] self.frames@[i])@.len()
                == self.spec_partials()
        &&& match self.noise {
            Some(n) => {
                &&& n@.len() == self.frames@.len()
                &&& forall|i: int| 0 <= i < n@.len() ==> (#[trigger] n@[i])@.len() == 25
            },
            None => true,
        }
    }
}

impl AtsFile {
    /// True when the data set carries a noise channel.
    pub fn has_noise(&self) -> (r: bool)
        ensures
            r == (self.noise is Some),
    {
        self.noise.is_some()
    }

    /// The number of peaks each frame holds.
    pub fn partials(&self) -> (r: usize)
        ensures
            r == self.spec_partials(),
    {
        if self.frames.len() == 0 {
            0
        } else {
            self.frames[0].len()
        }
    }

    /// The number of frames.
    pub fn frame_count(&self) -> (r: usize)
        ensures
            r == self.frames@.len(),
    {
        self.frames.len()
    }
}

/// What the decoder returns is well shaped: every frame holds the
/// declared peak count, and the noise array, when present, one 25-entry
/// residual per frame.
pub proof fn lemma_decoded_well_shaped(bytes: Seq<u8>, source: Seq<char>, f: AtsFile)
    requires
        decoded_matches(bytes, source, f),
    ensures
        f.wf_shape(),
        f.frames@.len() > 0 ==> f.spec_partials() == spec_partials(header_at(bytes)),
{
    let h = header_at(bytes);
    assert forall|i: int| 0 <= i < f.frames@.len() implies (#[trigger] f.frames@[i])@.len()
        == f.spec_partials() by {
        assert(frame_matches(bytes, h, i, f.frames@[i]@));
        if f.frames@.len() > 0 {
            assert(frame_matches(bytes, h, 0, f.frames@[0]@));
        }
    }
}

/// Renders an underlying error's text behind the fixed prefix under
/// which job code reports it to the user.
pub fn stringify(x: &str) -> (m: String)
    ensures
        m@ == "error code: "@ + x@,
{
    let mut m = "error code: ".to_owned();
    m.append(x);
    m
}

} // verus!
