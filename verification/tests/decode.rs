use ats_pd::data::AtsFile;
use ats_pd::data::DecodeError;
use ats_pd::data::band_index;
use ats_pd::float_bits::f64_le;
use ats_pd::float_bits::f64_lt;
use ats_pd::float_bits::f64_trunc;

fn push_f64(bytes: &mut Vec<u8>, v: f64) {
    bytes.extend_from_slice(&v.to_le_bytes());
}

fn header(typ: f64, par: f64, fra: f64) -> Vec<u8> {
    let mut b = Vec::new();
    push_f64(&mut b, 123.0); // mag
    push_f64(&mut b, 44100.0); // sr
    push_f64(&mut b, 512.0); // fs
    push_f64(&mut b, 1024.0); // ws
    push_f64(&mut b, par);
    push_f64(&mut b, fra);
    push_f64(&mut b, 0.9); // ma
    push_f64(&mut b, 880.0); // mf
    push_f64(&mut b, 2.5); // dur
    push_f64(&mut b, typ);
    b
}

/// A 4-frame, 2-partial, type-1 file with known bytes decodes to exactly
/// the written amplitude/frequency pairs.
#[test]
fn decode_type1_exact() {
    let mut b = header(1.0, 2.0, 4.0);
    for i in 0..4 {
        push_f64(&mut b, i as f64 * 0.1); // frame time, skipped
        push_f64(&mut b, 0.5 + i as f64); // amp of partial 0
        push_f64(&mut b, 440.0 + i as f64); // freq of partial 0
        push_f64(&mut b, 0.25 + i as f64); // amp of partial 1
        push_f64(&mut b, 660.0 + i as f64); // freq of partial 1
    }
    let f = AtsFile::try_read(&b, "t.ats".to_string()).unwrap();
    assert_eq!(f.frames.len(), 4);
    assert!(f.noise.is_none());
    assert_eq!(f64::from_bits(f.header.sr), 44100.0);
    assert_eq!(f64::from_bits(f.header.dur), 2.5);
    for i in 0..4 {
        assert_eq!(f.frames[i].len(), 2);
        let p0 = &f.frames[i][0];
        let p1 = &f.frames[i][1];
        assert_eq!(f64::from_bits(p0.amp), 0.5 + i as f64);
        assert_eq!(f64::from_bits(p0.freq), 440.0 + i as f64);
        assert_eq!(f64::from_bits(p1.amp), 0.25 + i as f64);
        assert_eq!(f64::from_bits(p1.freq), 660.0 + i as f64);
        assert!(p0.phase.is_none());
        assert!(p0.noise_energy.is_none());
    }
    assert_eq!(f.source, "t.ats");
    assert_eq!(f.partials(), 2);
    assert_eq!(f.frame_count(), 4);
    assert!(!f.has_noise());
}

/// A magic value other than 123.0 always yields BadMagic, whatever
/// follows.
#[test]
fn decode_bad_magic() {
    let mut b = header(1.0, 1.0, 1.0);
    b[0..8].copy_from_slice(&122.0f64.to_le_bytes());
    for _ in 0..64 {
        b.push(0xAB);
    }
    assert!(matches!(
        AtsFile::try_read(&b, String::new()),
        Err(DecodeError::BadMagic)
    ));
    let mut b2 = header(1.0, 1.0, 1.0);
    b2[0..8].copy_from_slice(&f64::NAN.to_le_bytes());
    assert!(matches!(
        AtsFile::try_read(&b2, String::new()),
        Err(DecodeError::BadMagic)
    ));
}

/// A type code outside 1..=4 after truncation is rejected; one inside is
/// accepted, fractional part and all.
#[test]
fn decode_type_codes() {
    let b = header(5.0, 0.0, 0.0);
    assert!(matches!(
        AtsFile::try_read(&b, String::new()),
        Err(DecodeError::UnsupportedType)
    ));
    let b = header(0.9, 0.0, 0.0);
    assert!(matches!(
        AtsFile::try_read(&b, String::new()),
        Err(DecodeError::UnsupportedType)
    ));
    let b = header(f64::NAN, 0.0, 0.0);
    assert!(matches!(
        AtsFile::try_read(&b, String::new()),
        Err(DecodeError::UnsupportedType)
    ));
    // 1.9 truncates to type 1: no phase, no noise
    let mut b = header(1.9, 1.0, 1.0);
    push_f64(&mut b, 0.0);
    push_f64(&mut b, 0.5);
    push_f64(&mut b, 100.0);
    let f = AtsFile::try_read(&b, String::new()).unwrap();
    assert!(matches!(f.file_type.code(), 1));
    assert!(f.noise.is_none());
}

/// A type-3 file carries one 25-band residual per frame, decoded
/// exactly; peaks still carry no derived noise energy.
#[test]
fn decode_type3_noise() {
    let mut b = header(3.0, 1.0, 2.0);
    for i in 0..2 {
        push_f64(&mut b, 0.0); // time
        push_f64(&mut b, 0.5); // amp
        push_f64(&mut b, 440.0); // freq
        for k in 0..25 {
            push_f64(&mut b, (i * 25 + k) as f64 * 0.01);
        }
    }
    let f = AtsFile::try_read(&b, String::new()).unwrap();
    assert!(f.has_noise());
    let n = f.noise.as_ref().unwrap();
    assert_eq!(n.len(), 2);
    for i in 0..2 {
        assert_eq!(n[i].len(), 25);
        for k in 0..25 {
            assert_eq!(f64::from_bits(n[i][k]), (i * 25 + k) as f64 * 0.01);
        }
    }
    assert!(f.frames[0][0].noise_energy.is_none());
    assert!(f.frames[0][0].phase.is_none());
}

/// A type-2 file carries one phase per peak.
#[test]
fn decode_type2_phase() {
    let mut b = header(2.0, 1.0, 1.0);
    push_f64(&mut b, 0.0); // time
    push_f64(&mut b, 0.5); // amp
    push_f64(&mut b, 440.0); // freq
    push_f64(&mut b, 1.25); // phase
    let f = AtsFile::try_read(&b, String::new()).unwrap();
    assert_eq!(f64::from_bits(f.frames[0][0].phase.unwrap()), 1.25);
    assert!(f.noise.is_none());
}

/// Truncating the stream at any byte offset yields an error; no partial
/// data set ever comes back.
#[test]
fn decode_truncated_everywhere() {
    let mut b = header(4.0, 2.0, 3.0);
    for _ in 0..3 {
        push_f64(&mut b, 0.0); // time
        for _ in 0..2 {
            push_f64(&mut b, 0.5); // amp
            push_f64(&mut b, 440.0); // freq
            push_f64(&mut b, 0.1); // phase
        }
        for k in 0..25 {
            push_f64(&mut b, k as f64);
        }
    }
    // the full stream decodes
    assert!(AtsFile::try_read(&b, String::new()).is_ok());
    for cut in 0..b.len() {
        let r = AtsFile::try_read(&b[0..cut], String::new());
        assert!(
            matches!(r, Err(DecodeError::Truncated)),
            "prefix of {} bytes must be truncated",
            cut
        );
    }
    // trailing garbage after a complete stream is ignored
    let mut b2 = b.clone();
    b2.push(0xFF);
    assert!(AtsFile::try_read(&b2, String::new()).is_ok());
}

/// Band assignment: first matching band wins, an edge frequency belongs
/// to the upper band, and everything unmatched lands in the last band.
#[test]
fn band_assignment() {
    assert_eq!(band_index(0.0f64.to_bits()), 0);
    assert_eq!(band_index(50.0f64.to_bits()), 0);
    assert_eq!(band_index(100.0f64.to_bits()), 1); // on the edge: upper band
    assert_eq!(band_index(99.999f64.to_bits()), 0);
    assert_eq!(band_index(510.0f64.to_bits()), 5);
    assert_eq!(band_index(15500.0f64.to_bits()), 24);
    assert_eq!(band_index(19999.0f64.to_bits()), 24);
    assert_eq!(band_index(20000.0f64.to_bits()), 24); // at the top edge: catch-all
    assert_eq!(band_index(25000.0f64.to_bits()), 24);
    assert_eq!(band_index((-5.0f64).to_bits()), 24); // no band matches
    assert_eq!(band_index(f64::NAN.to_bits()), 24);
    assert_eq!(band_index((-0.0f64).to_bits()), 0); // negative zero is 0 Hz
}

/// The bit-level comparison and truncation agree with the hardware
/// operations on a spread of values.
#[test]
fn float_bits_agree_with_std() {
    let vals = [
        0.0,
        -0.0,
        1.0,
        -1.0,
        0.5,
        -0.5,
        123.0,
        1e-308,
        -1e-308,
        1e308,
        -1e308,
        f64::INFINITY,
        f64::NEG_INFINITY,
        f64::NAN,
        4.9,
        1.9999999,
        4294967296.0,
        18446744073709551615.0,
        1e20,
        -3.25,
    ];
    for &a in &vals {
        for &b in &vals {
            assert_eq!(
                f64_lt(a.to_bits(), b.to_bits()),
                a < b,
                "lt {} {}",
                a,
                b
            );
            assert_eq!(
                f64_le(a.to_bits(), b.to_bits()),
                a <= b,
                "le {} {}",
                a,
                b
            );
        }
        assert_eq!(f64_trunc(a.to_bits()), a as u64, "trunc {}", a);
    }
}
