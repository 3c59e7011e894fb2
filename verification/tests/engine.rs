use std::sync::Arc;

use ats_pd::data::AtsFile;
use ats_pd::data::AtsFileType;
use ats_pd::data::Header;
use ats_pd::synth::FractMode;
use ats_pd::synth::apply_swaps;
use ats_pd::synth::clamp_bottom;
use ats_pd::synth::creation_params;
use ats_pd::synth::extract_args;
use ats_pd::synth::map_position;
use ats_pd::synth::select_partials;

/// A position at or before the start reads frame 0 with the cross-fade
/// pinned to 0; one at or past the last pair reads the last two frames
/// with the cross-fade pinned to 1.
#[test]
fn position_boundaries() {
    let (p0, m) = map_position(-7, 10);
    assert_eq!(p0, 0);
    assert!(matches!(m, FractMode::Zero));
    let (p0, m) = map_position(0, 10);
    assert_eq!(p0, 0);
    assert!(matches!(m, FractMode::Interior));
    let (p0, m) = map_position(4, 10);
    assert_eq!(p0, 4);
    assert!(matches!(m, FractMode::Interior));
    let (p0, m) = map_position(8, 10);
    assert_eq!(p0, 8);
    assert!(matches!(m, FractMode::Interior));
    let (p0, m) = map_position(9, 10);
    assert_eq!(p0, 8);
    assert!(matches!(m, FractMode::One));
    let (p0, m) = map_position(1000, 10);
    assert_eq!(p0, 8);
    assert!(matches!(m, FractMode::One));
    // the smallest interpolatable data set
    let (p0, m) = map_position(5, 2);
    assert_eq!(p0, 0);
    assert!(matches!(m, FractMode::One));
}

/// Partial selection: offset, stride, limit and bank size cap the count
/// exactly as the per-block setup computes it.
#[test]
fn partial_selection() {
    // 10 partials, skip 2, every 3rd: ceil(8/3) = 3 strides
    let s = select_partials(10, 2, 3, usize::MAX, 16);
    assert_eq!(s.count, 3);
    assert_eq!(s.end, 10);
    // bank smaller than stride count
    let s = select_partials(10, 0, 1, usize::MAX, 4);
    assert_eq!(s.count, 4);
    assert_eq!(s.end, 4);
    // limit wins
    let s = select_partials(10, 0, 1, 2, 16);
    assert_eq!(s.count, 2);
    assert_eq!(s.end, 2);
    // offset at or past the data: silence
    let s = select_partials(10, 10, 1, usize::MAX, 16);
    assert_eq!(s.count, 0);
    let s = select_partials(0, 0, 1, usize::MAX, 16);
    assert_eq!(s.count, 0);
    // limit zero: silence
    let s = select_partials(10, 0, 1, 0, 16);
    assert_eq!(s.count, 0);
    // stride end is capped by the partial count
    let s = select_partials(10, 1, 4, usize::MAX, 16);
    assert_eq!(s.count, 3);
    assert_eq!(s.end, 10);
}

/// The setters clamp to their floor: offset to 0, increment to 1.
#[test]
fn setter_clamps() {
    assert_eq!(clamp_bottom(-3, 0), 0);
    assert_eq!(clamp_bottom(7, 0), 7);
    assert_eq!(clamp_bottom(0, 1), 1);
    assert_eq!(clamp_bottom(-100, 1), 1);
    assert_eq!(clamp_bottom(5, 1), 5);
}

/// Control-message validation: the exact errors of the original checks,
/// and the index-equal-to-bank quirk that validates but drives nothing.
#[test]
fn control_args() {
    let v = 2.5f64.to_bits();
    assert_eq!(
        extract_args(2, Some(3), false, Some(v), 8),
        Ok((Some(3), v))
    );
    assert_eq!(extract_args(2, None, true, Some(v), 8), Ok((None, v)));
    assert_eq!(
        extract_args(1, Some(3), false, Some(v), 8),
        Err("expected 2 arguments".to_string())
    );
    assert_eq!(
        extract_args(2, Some(9), false, Some(v), 8),
        Err("partial index 9 out of range".to_string())
    );
    // index equal to the bank size still validates
    assert_eq!(
        extract_args(2, Some(8), false, Some(v), 8),
        Ok((Some(8), v))
    );
    assert_eq!(
        extract_args(2, None, false, Some(v), 8),
        Err("expect first arg to be an index or 'all'".to_string())
    );
    assert_eq!(
        extract_args(2, Some(1), false, None, 8),
        Err("expect second arg to be a float".to_string())
    );
    // a negative index wraps and lands out of range
    assert_eq!(
        extract_args(2, Some(-1), false, Some(v), 8),
        Err("partial index 18446744073709551615 out of range".to_string())
    );
}

fn empty_file(source: &str) -> Arc<AtsFile> {
    Arc::new(AtsFile {
        header: Header {
            mag: 123.0f64.to_bits(),
            sr: 0,
            fs: 0,
            ws: 0,
            par: 0,
            fra: 0,
            ma: 0,
            mf: 0,
            dur: 0,
            typ: 1.0f64.to_bits(),
        },
        frames: Vec::new(),
        noise: None,
        file_type: AtsFileType::AmpFreq,
        source: source.to_string(),
    })
}

/// The most recently posted swap wins; draining nothing keeps the
/// current set.
#[test]
fn swap_drain() {
    let a = empty_file("a");
    let b = empty_file("b");
    let r = apply_swaps(Some(a.clone()), Vec::new());
    assert_eq!(r.unwrap().source, "a");
    let r = apply_swaps(Some(a.clone()), vec![None, Some(b.clone())]);
    assert_eq!(r.unwrap().source, "b");
    let r = apply_swaps(Some(a.clone()), vec![Some(b.clone()), None]);
    assert!(r.is_none());
}

/// Creation arguments: a positive partial count is required, the offset
/// and increment floors are enforced, and the checks run in argument
/// order.
#[test]
fn creation_arguments() {
    assert_eq!(creation_params(Some(8), None, None), Ok((8, 0, 1)));
    assert_eq!(creation_params(Some(8), Some(2), Some(3)), Ok((8, 2, 3)));
    assert_eq!(
        creation_params(None, None, None),
        Err("first argument must be a non zero partial count".to_string())
    );
    assert_eq!(
        creation_params(Some(0), None, None),
        Err("first argument must be a non zero partial count".to_string())
    );
    assert_eq!(
        creation_params(Some(8), Some(-1), None),
        Err("offset must be a positive integer".to_string())
    );
    assert_eq!(
        creation_params(Some(8), Some(1), Some(0)),
        Err("increment must be an integer greater than 0".to_string())
    );
    // a bad increment is reported even when the count is also bad
    assert_eq!(
        creation_params(None, Some(1), Some(0)),
        Err("increment must be an integer greater than 0".to_string())
    );
}
