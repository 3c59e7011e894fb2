use std::sync::Arc;

use ats_pd::cache::Cache;
use ats_pd::data::AtsFile;
use ats_pd::data::AtsFileType;
use ats_pd::data::Header;
use ats_pd::dump::AtomValue;
use ats_pd::dump::Message;
use ats_pd::dump::Tag;
use ats_pd::dump::dump_messages;
use ats_pd::pipeline::Pipeline;
use ats_pd::pipeline::PostMessage;
use ats_pd::pipeline::msg_analysis_failed;
use ats_pd::pipeline::msg_bad_paths;
use ats_pd::pipeline::msg_missing_source;
use ats_pd::pipeline::msg_tempdir_failed;

fn one_frame_file(source: &str) -> AtsFile {
    AtsFile {
        header: Header {
            mag: 123.0f64.to_bits(),
            sr: 44100.0f64.to_bits(),
            fs: 512.0f64.to_bits(),
            ws: 1024.0f64.to_bits(),
            par: 1.0f64.to_bits(),
            fra: 1.0f64.to_bits(),
            ma: 0.5f64.to_bits(),
            mf: 440.0f64.to_bits(),
            dur: 0.01f64.to_bits(),
            typ: 3.0f64.to_bits(),
        },
        frames: vec![vec![ats_pd::data::Peak {
            amp: 0.5f64.to_bits(),
            freq: 440.0f64.to_bits(),
            phase: None,
            noise_energy: Some(0.125f64.to_bits()),
        }]],
        noise: Some(vec![(0..25).map(|k| (k as f64).to_bits()).collect()]),
        file_type: AtsFileType::AmpFreqNoise,
        source: source.to_string(),
    }
}

/// An idle tick changes nothing and stays scheduled; a finished job is
/// merged, published, and reported.
#[test]
fn poll_merges_one_result() {
    let mut cache = Cache::new();
    let mut p = Pipeline::new();
    assert!(p.queue_job());
    let out = p.poll_done(&mut cache, None);
    assert!(out.reschedule);
    assert!(out.post.is_none());
    assert!(!out.dump);
    assert_eq!(p.waiting, 1);

    let out = p.poll_done(
        &mut cache,
        Some(Ok((one_frame_file("x.ats"), "x.ats".to_string()))),
    );
    assert!(!out.reschedule);
    assert!(out.dump);
    match out.post {
        Some(PostMessage::Info(m)) => assert_eq!(m, "read x.ats"),
        _ => panic!("expected an info message"),
    }
    assert_eq!(p.waiting, 0);
    let (k, a) = p.current.as_ref().expect("a data set must be current");
    assert_eq!(a.source, "x.ats");
    assert_eq!(k.text, "0-x_ats");
    // the published key resolves to the same data
    let hit = cache.get(k).expect("key must resolve");
    assert!(Arc::ptr_eq(&hit, a));
}

/// A failed job surfaces its message and clears the current set; the
/// loop keeps polling while more jobs are in flight.
#[test]
fn poll_reports_failure() {
    let mut cache = Cache::new();
    let mut p = Pipeline::new();
    assert!(p.queue_job());
    assert!(p.queue_job());
    let out = p.poll_done(&mut cache, Some(Err("bad file".to_string())));
    assert!(out.reschedule); // one job still in flight
    assert!(out.dump);
    match out.post {
        Some(PostMessage::Error(m)) => assert_eq!(m, "bad file"),
        _ => panic!("expected an error message"),
    }
    assert!(p.current.is_none());
    assert_eq!(p.waiting, 1);
}

/// The job error messages, rendered exactly.
#[test]
fn job_messages() {
    assert_eq!(msg_missing_source("in.wav"), "file does not exist: in.wav");
    assert_eq!(msg_tempdir_failed(), "failed to create tempdir");
    assert_eq!(msg_bad_paths(), "cannot get out or resfile paths");
    assert_eq!(
        msg_analysis_failed("in.wav", 7),
        "failed to analyize file: in.wav with error num: 7"
    );
    assert_eq!(
        msg_analysis_failed("in.wav", -3),
        "failed to analyize file: in.wav with error num: -3"
    );
}

fn values(m: &Message) -> &Vec<AtomValue> {
    &m.values
}

/// With no data set the dump is the empty report bracketed by the
/// dumping flag.
#[test]
fn dump_empty() {
    let msgs = dump_messages(None);
    assert_eq!(msgs.len(), 4);
    assert!(matches!(msgs[0].tag, Tag::Dumping));
    assert!(matches!(values(&msgs[0])[0], AtomValue::Index(1)));
    assert!(matches!(msgs[1].tag, Tag::FileType));
    assert!(matches!(values(&msgs[1])[0], AtomValue::Real(0)));
    assert!(matches!(msgs[2].tag, Tag::TrackCount));
    assert_eq!(values(&msgs[2]).len(), 2);
    assert!(matches!(msgs[3].tag, Tag::Dumping));
    assert!(matches!(values(&msgs[3])[0], AtomValue::Index(0)));
}

/// With a data set the dump carries the band edges, header fields, key,
/// table size, track points and noise points, in order.
#[test]
fn dump_full() {
    let mut cache = Cache::new();
    let mut p = Pipeline::new();
    p.queue_job();
    p.poll_done(
        &mut cache,
        Some(Ok((one_frame_file("y.ats"), "y.ats".to_string()))),
    );
    let msgs = dump_messages(p.current.as_ref());
    // 1 dumping + 25 bands + 9 fields + key + table size
    // + 1 track point + 25 noise points + 1 dumping
    assert_eq!(msgs.len(), 38 + 1 + 25);
    assert!(matches!(msgs[0].tag, Tag::Dumping));
    // first band: 0 Hz to 100 Hz
    assert!(matches!(msgs[1].tag, Tag::NoiseBandInfo));
    match &values(&msgs[1])[..] {
        [AtomValue::Index(0), AtomValue::Real(lo), AtomValue::Real(hi)] => {
            assert_eq!(f64::from_bits(*lo), 0.0);
            assert_eq!(f64::from_bits(*hi), 100.0);
        }
        _ => panic!("unexpected band message"),
    }
    // the nine header fields, in dump order
    let tags: Vec<&str> = (26..35).map(|i| msgs[i].tag.symbol()).collect();
    assert_eq!(
        tags,
        vec![
            "file_type",
            "sample_rate",
            "dur_sec",
            "frame_samps",
            "window_samps",
            "partial_count",
            "frame_count",
            "amp_max",
            "freq_max"
        ]
    );
    match &values(&msgs[35])[..] {
        [AtomValue::Text(t)] => assert_eq!(t, "0-y_ats"),
        _ => panic!("expected the key"),
    }
    assert!(matches!(msgs[35].tag, Tag::DataKey));
    assert!(matches!(msgs[36].tag, Tag::TrackCount));
    // the single track point
    assert!(matches!(msgs[37].tag, Tag::TrackPoint));
    match &values(&msgs[37])[..] {
        [AtomValue::Index(j), AtomValue::Index(i), AtomValue::Real(fr), AtomValue::Real(am), AtomValue::Real(ne)] =>
        {
            assert_eq!(*j, 0);
            assert_eq!(*i, 0);
            assert_eq!(f64::from_bits(*fr), 440.0);
            assert_eq!(f64::from_bits(*am), 0.5);
            assert_eq!(f64::from_bits(*ne), 0.125);
        }
        _ => panic!("unexpected track message"),
    }
    // the first and last noise points
    assert!(matches!(msgs[38].tag, Tag::NoisePoint));
    match &values(&msgs[62])[..] {
        [AtomValue::Index(k), AtomValue::Index(i), AtomValue::Real(e)] => {
            assert_eq!(*k, 24);
            assert_eq!(*i, 0);
            assert_eq!(f64::from_bits(*e), 24.0);
        }
        _ => panic!("unexpected noise message"),
    }
    assert!(matches!(msgs[63].tag, Tag::Dumping));
}

/// An underlying error's text is reported behind the fixed prefix.
#[test]
fn stringify_prefix() {
    assert_eq!(ats_pd::data::stringify("boom"), "error code: boom");
    assert_eq!(ats_pd::data::stringify(""), "error code: ");
}
