//! The "dump current state" operation.
//!
//! The host's outlet is a transport the core never depends on; the dump
//! is computed here as a plain list of tagged messages, and the host code
//! sends them one by one. With a current data set the dump brackets, in
//! a dumping-flag pair, the band edges, the header fields, the key the
//! set was published under, the track table size, every track point, and
//! every noise point; with no data set it reports a zero file type and an
//! empty track table.

use vstd::prelude::*;
use std::sync::Arc;
use crate::cache::Key;
use crate::data::AtsFile;
use crate::data::Header;
use crate::data::Peak;
use crate::data::band_edge;
use crate::data::band_edge_bits;

verus! {

/// What a dump message reports.
pub enum Tag {
    /// The container's type code, or zero with no data set.
    FileType,
    /// The sample rate header field.
    SampleRate,
    /// The duration header field.
    DurSeconds,
    /// The frame size header field.
    FrameSize,
    /// The window size header field.
    WindowSize,
    /// The partial count header field.
    PartialCount,
    /// The frame count header field.
    FrameCount,
    /// The maximum amplitude header field.
    AmpMax,
    /// The maximum frequency header field.
    FreqMax,
    /// The key the current data set is published under.
    DataKey,
    /// The size of the track table: partial count and frame count.
    TrackCount,
    /// One noise band: index and its two edges.
    NoiseBandInfo,
    /// One track point: partial, frame, frequency, amplitude, noise.
    TrackPoint,
    /// One noise point: band, frame, residual energy.
    NoisePoint,
    /// Whether a dump is starting (1) or has finished (0).
    Dumping,
}

/// One value of a dump message.
pub enum AtomValue {
    /// An index or count.
    Index(usize),
    /// A binary64 bit pattern.
    Real(u64),
    /// A key text.
    Text(String),
}

/// One discrete message of a dump.
pub struct Message {
    /// What the message reports.
    pub tag: Tag,
    /// Its values, in order.
    pub values: Vec<AtomValue>,
}

/// The message `m` carries tag `tag` and exactly the values `vals`.
pub open spec fn msg_is(m: Message, tag: Tag, vals: Seq<AtomValue>) -> bool {
    m.tag == tag && m.values@ == vals
}

/// The tag of the `d`-th header-field message.
pub open spec fn info_tag(d: int) -> Tag {
    if d == 0 {
        Tag::FileType
    } else if d == 1 {
        Tag::SampleRate
    } else if d == 2 {
        Tag::DurSeconds
    } else if d == 3 {
        Tag::FrameSize
    } else if d == 4 {
        Tag::WindowSize
    } else if d == 5 {
        Tag::PartialCount
    } else if d == 6 {
        Tag::FrameCount
    } else if d == 7 {
        Tag::AmpMax
    } else {
        Tag::FreqMax
    }
}

/// The value of the `d`-th header-field message.
pub open spec fn info_val(h: Header, d: int) -> u64 {
    if d == 0 {
        h.typ
    } else if d == 1 {
        h.sr
    } else if d == 2 {
        h.dur
    } else if d == 3 {
        h.fs
    } else if d == 4 {
        h.ws
    } else if d == 5 {
        h.par
    } else if d == 6 {
        h.fra
    } else if d == 7 {
        h.ma
    } else {
        h.mf
    }
}

/// A peak's derived noise energy, or the bit pattern of zero when it
/// carries none.
pub open spec fn noise_or_zero(p: Peak) -> u64 {
    match p.noise_energy {
        Some(v) => v,
        None => 0,
    }
}

/// The values of the track-point message for peak `j` of frame `i`.
pub open spec fn track_vals(f: AtsFile, i: int, j: int) -> Seq<AtomValue> {
    seq![
        AtomValue::Index(j as usize),
        AtomValue::Index(i as usize),
        AtomValue::Real(f.frames@[i]@[j].freq),
        AtomValue::Real(f.frames@[i]@[j].amp),
        AtomValue::Real(noise_or_zero(f.frames@[i]@[j])),
    ]
}

/// The values of the noise-point message for band `k` of frame `i`.
pub open spec fn noise_vals(n: Seq<Vec<u64>>, i: int, k: int) -> Seq<AtomValue> {
    seq![AtomValue::Index(k as usize), AtomValue::Index(i as usize), AtomValue::Real(n[i]@[k])]
}

/// Track messages of frame `i` fill slots `base + i * partials + j`.
proof fn lemma_track_slot(i: int, j: int, frames: int, partials: int)
    requires
        0 <= i < frames,
        0 <= j < partials,
    ensures
        (i * partials + j) / partials == i,
        (i * partials + j) % partials == j,
        i * partials + j < frames * partials,
        i * partials + partials == (i + 1) * partials,
{
    vstd::arithmetic::div_mod::lemma_fundamental_div_mod_converse(
        i * partials + j,
        partials,
        i,
        j,
    );
    assert(i * partials + j < frames * partials) by (nonlinear_arith)
        requires
            0 <= i < frames,
            0 <= j < partials,
    ;
    assert(i * partials + partials == (i + 1) * partials) by (nonlinear_arith);
}

/// Computes the dump of the current state: the exact sequence of
/// messages the host sends, bracketed by the dumping flag. With a data
/// set the dump holds the 25 band edges, the nine header fields, the
/// set's key, the track table size, one message per track point in frame
/// order, and one per noise point; with none it holds a zero file type
/// and an empty track table.
pub fn dump_messages(current: Option<&(Key, Arc<AtsFile>)>) -> (r: Vec<Message>)
    requires
        current matches Some(c) ==> c.1.wf_shape(),
    ensures
        match current {
            Some(c) => {
                let f = *(c.1);
                let fl = f.frames@.len() as int;
                let pl = f.spec_partials();
                let nn = if f.noise is Some {
                    fl * 25
                } else {
                    0int
                };
                &&& r@.len() == 38 + fl * pl + nn
                &&& msg_is(r@[0], Tag::Dumping, seq![AtomValue::Index(1usize)])
                &&& forall|i: int|
                    0 <= i < 25 ==> msg_is(
                        #[trigger] r@[1 + i],
                        Tag::NoiseBandInfo,
                        seq![
                            AtomValue::Index(i as usize),
                            AtomValue::Real(band_edge(i)),
                            AtomValue::Real(band_edge(i + 1)),
                        ],
                    )
                &&& forall|d: int|
                    0 <= d < 9 ==> msg_is(
                        #[trigger] r@[26 + d],
                        info_tag(d),
                        seq![AtomValue::Real(info_val(f.header, d))],
                    )
                &&& msg_is(r@[35], Tag::DataKey, seq![AtomValue::Text(c.0.text)])
                &&& msg_is(
                    r@[36],
                    Tag::TrackCount,
                    seq![AtomValue::Real(f.header.par), AtomValue::Real(f.header.fra)],
                )
                &&& forall|i: int, j: int|
                    0 <= i < fl && 0 <= j < pl ==> msg_is(
                        #[trigger] r@[37 + i * pl + j],
                        Tag::TrackPoint,
                        track_vals(f, i, j),
                    )
                &&& f.noise matches Some(n) ==> forall|i: int, k: int|
                    0 <= i < fl && 0 <= k < 25 ==> msg_is(
                        #[trigger] r@[37 + fl * pl + i * 25 + k],
                        Tag::NoisePoint,
                        noise_vals(n@, i, k),
                    )
                &&& msg_is(
                    r@[37 + fl * pl + nn],
                    Tag::Dumping,
                    seq![AtomValue::Index(0usize)],
                )
            },
            None => {
                &&& r@.len() == 4
                &&& msg_is(r@[0], Tag::Dumping, seq![AtomValue::Index(1usize)])
                &&& msg_is(r@[1], Tag::FileType, seq![AtomValue::Real(0u64)])
                &&& msg_is(
                    r@[2],
                    Tag::TrackCount,
                    seq![AtomValue::Real(0u64), AtomValue::Real(0u64)],
                )
                &&& msg_is(r@[3], Tag::Dumping, seq![AtomValue::Index(0usize)])
            },
        },
{
    let mut msgs: Vec<Message> = Vec::new();
    let mut vals: Vec<AtomValue> = Vec::new();
    vals.push(AtomValue::Index(1));
    msgs.push(Message { tag: Tag::Dumping, values: vals });
    match current {
        Some(c) => {
            let f: &AtsFile = &c.1;
            let mut i: usize = 0;
            while i < 25
                invariant
                    msgs@.len() == 1 + i,
                    i <= 25,
                    msg_is(msgs@[0], Tag::Dumping, seq![AtomValue::Index(1usize)]),
                    forall|b: int|
                        0 <= b < i ==> msg_is(
                            #[trigger] msgs@[1 + b],
                            Tag::NoiseBandInfo,
                            seq![
                                AtomValue::Index(b as usize),
                                AtomValue::Real(band_edge(b)),
                                AtomValue::Real(band_edge(b + 1)),
                            ],
                        ),
                decreases 25 - i,
            {
                let mut vals: Vec<AtomValue> = Vec::new();
                vals.push(AtomValue::Index(i));
                vals.push(AtomValue::Real(band_edge_bits(i)));
                vals.push(AtomValue::Real(band_edge_bits(i + 1)));
                assert(vals@ =~= seq![
                    AtomValue::Index(i),
                    AtomValue::Real(band_edge(i as int)),
                    AtomValue::Real(band_edge(i as int + 1)),
                ]);
                msgs.push(Message { tag: Tag::NoiseBandInfo, values: vals });
                i = i + 1;
            }
            let mut vals: Vec<AtomValue> = Vec::new();
            vals.push(AtomValue::Real(f.header.typ));
            msgs.push(Message { tag: Tag::FileType, values: vals });
            let mut vals: Vec<AtomValue> = Vec::new();
            vals.push(AtomValue::Real(f.header.sr));
            msgs.push(Message { tag: Tag::SampleRate, values: vals });
            let mut vals: Vec<AtomValue> = Vec::new();
            vals.push(AtomValue::Real(f.header.dur));
            msgs.push(Message { tag: Tag::DurSeconds, values: vals });
            let mut vals: Vec<AtomValue> = Vec::new();
            vals.push(AtomValue::Real(f.header.fs));
            msgs.push(Message { tag: Tag::FrameSize, values: vals });
            let mut vals: Vec<AtomValue> = Vec::new();
            vals.push(AtomValue::Real(f.header.ws));
            msgs.push(Message { tag: Tag::WindowSize, values: vals });
            let mut vals: Vec<AtomValue> = Vec::new();
            vals.push(AtomValue::Real(f.header.par));
            msgs.push(Message { tag: Tag::PartialCount, values: vals });
            let mut vals: Vec<AtomValue> = Vec::new();
            vals.push(AtomValue::Real(f.header.fra));
            msgs.push(Message { tag: Tag::FrameCount, values: vals });
            let mut vals: Vec<AtomValue> = Vec::new();
            vals.push(AtomValue::Real(f.header.ma));
            msgs.push(Message { tag: Tag::AmpMax, values: vals });
            let mut vals: Vec<AtomValue> = Vec::new();
            vals.push(AtomValue::Real(f.header.mf));
            msgs.push(Message { tag: Tag::FreqMax, values: vals });
            assert(forall|d: int|
                0 <= d < 9 ==> msg_is(
                    #[trigger] msgs@[26 + d],
                    info_tag(d),
                    seq![AtomValue::Real(info_val(f.header, d))],
                ));
            let mut vals: Vec<AtomValue> = Vec::new();
            vals.push(AtomValue::Text(c.0.text.clone()));
            msgs.push(Message { tag: Tag::DataKey, values: vals });
            let mut vals: Vec<AtomValue> = Vec::new();
            vals.push(AtomValue::Real(f.header.par));
            vals.push(AtomValue::Real(f.header.fra));
            assert(vals@ =~= seq![AtomValue::Real(f.header.par), AtomValue::Real(f.header.fra)]);
            msgs.push(Message { tag: Tag::TrackCount, values: vals });
            let ghost base = msgs@;
            let fl = f.frames.len();
            let pl = if fl == 0 {
                0
            } else {
                f.frames[0].len()
            };
            assert(pl == f.spec_partials());
            let mut fi: usize = 0;
            while fi < fl
                invariant
                    f.wf_shape(),
                    fl == f.frames@.len(),
                    pl == f.spec_partials(),
                    fi <= fl,
                    base.len() == 37,
                    msgs@.len() == 37 + fi * pl,
                    forall|b: int| 0 <= b < 37 ==> #[trigger] msgs@[b] == base[b],
                    forall|t: int|
                        0 <= t < fi * pl ==> msg_is(
                            #[trigger] msgs@[37 + t],
                            Tag::TrackPoint,
                            track_vals(*f, t / (pl as int), t % (pl as int)),
                        ),
                decreases fl - fi,
            {
                let frame = &f.frames[fi];
                let mut pj: usize = 0;
                while pj < pl
                    invariant
                        f.wf_shape(),
                        fl == f.frames@.len(),
                        pl == f.spec_partials(),
                        fi < fl,
                        pj <= pl,
                        frame == &f.frames@[fi as int],
                        base.len() == 37,
                        msgs@.len() == 37 + fi * pl + pj,
                        forall|b: int| 0 <= b < 37 ==> #[trigger] msgs@[b] == base[b],
                        forall|t: int|
                            0 <= t < fi * pl + pj ==> msg_is(
                                #[trigger] msgs@[37 + t],
                                Tag::TrackPoint,
                                track_vals(*f, t / (pl as int), t % (pl as int)),
                            ),
                    decreases pl - pj,
                {
                    let p = &frame[pj];
                    let ne = match p.noise_energy {
                        Some(v) => v,
                        None => 0,
                    };
                    let mut vals: Vec<AtomValue> = Vec::new();
                    vals.push(AtomValue::Index(pj));
                    vals.push(AtomValue::Index(fi));
                    vals.push(AtomValue::Real(p.freq));
                    vals.push(AtomValue::Real(p.amp));
                    vals.push(AtomValue::Real(ne));
                    proof {
                        lemma_track_slot(fi as int, pj as int, fl as int, pl as int);
                        assert(vals@ =~= track_vals(*f, fi as int, pj as int));
                    }
                    msgs.push(Message { tag: Tag::TrackPoint, values: vals });
                    proof {
                        assert forall|t: int| 0 <= t < fi * pl + pj + 1 implies msg_is(
                            #[trigger] msgs@[37 + t],
                            Tag::TrackPoint,
                            track_vals(*f, t / (pl as int), t % (pl as int)),
                        ) by {
                            if t == fi * pl + pj {
                                assert((t / (pl as int)) == fi as int && (t % (pl as int))
                                    == pj as int);
                            }
                        }
                    }
                    pj = pj + 1;
                }
                proof {
                    assert(fi * pl + pl == (fi + 1) * pl) by (nonlinear_arith);
                }
                fi = fi + 1;
            }
            proof {
                assert(fl * pl >= 0) by (nonlinear_arith)
                    requires
                        fl >= 0,
                        pl >= 0,
                ;
            }
            let ghost snap = msgs@;
            if f.noise.is_some() {
                let nv = f.noise.as_ref().unwrap();
                let mut ni: usize = 0;
                while ni < fl
                    invariant
                        fl == f.frames@.len(),
                        f.noise matches Some(nvv) && nvv@ == nv@,
                        nv@.len() == fl,
                        forall|x: int| 0 <= x < fl ==> (#[trigger] nv@[x])@.len() == 25,
                        ni <= fl,
                        snap.len() == 37 + fl * pl,
                        msgs@.len() == snap.len() + ni * 25,
                        forall|b: int| 0 <= b < snap.len() ==> #[trigger] msgs@[b] == snap[b],
                        forall|t: int|
                            0 <= t < ni * 25 ==> msg_is(
                                #[trigger] msgs@[snap.len() + t],
                                Tag::NoisePoint,
                                noise_vals(nv@, t / 25, t % 25),
                            ),
                    decreases fl - ni,
                {
                    let nfr = &nv[ni];
                    let mut k: usize = 0;
                    while k < 25
                        invariant
                            fl == f.frames@.len(),
                            f.noise matches Some(nvv) && nvv@ == nv@,
                            nv@.len() == fl,
                            forall|x: int| 0 <= x < fl ==> (#[trigger] nv@[x])@.len() == 25,
                            ni < fl,
                            k <= 25,
                            nfr == &nv@[ni as int],
                            snap.len() == 37 + fl * pl,
                            msgs@.len() == snap.len() + ni * 25 + k,
                            forall|b: int| 0 <= b < snap.len() ==> #[trigger] msgs@[b] == snap[b],
                            forall|t: int|
                                0 <= t < ni * 25 + k ==> msg_is(
                                    #[trigger] msgs@[snap.len() + t],
                                    Tag::NoisePoint,
                                    noise_vals(nv@, t / 25, t % 25),
                                ),
                        decreases 25 - k,
                    {
                        let mut vals: Vec<AtomValue> = Vec::new();
                        vals.push(AtomValue::Index(k));
                        vals.push(AtomValue::Index(ni));
                        vals.push(AtomValue::Real(nfr[k]));
                        proof {
                            vstd::arithmetic::div_mod::lemma_fundamental_div_mod_converse(
                                (ni as int) * 25 + (k as int),
                                25,
                                ni as int,
                                k as int,
                            );
                            assert(vals@ =~= noise_vals(nv@, ni as int, k as int));
                        }
                        msgs.push(Message { tag: Tag::NoisePoint, values: vals });
                        proof {
                            assert forall|t: int| 0 <= t < ni * 25 + k + 1 implies msg_is(
                                #[trigger] msgs@[snap.len() + t],
                                Tag::NoisePoint,
                                noise_vals(nv@, t / 25, t % 25),
                            ) by {
                                if t == ni * 25 + k {
                                    assert((t / 25) == ni as int && (t % 25) == k as int);
                                }
                            }
                        }
                        k = k + 1;
                    }
                    ni = ni + 1;
                }
            }
            let ghost whole = msgs@;
            let mut vals: Vec<AtomValue> = Vec::new();
            vals.push(AtomValue::Index(0));
            assert(vals@ =~= seq![AtomValue::Index(0usize)]);
            msgs.push(Message { tag: Tag::Dumping, values: vals });
            proof {
                assert(forall|b: int| 0 <= b < whole.len() ==> #[trigger] msgs@[b] == whole[b]);
                assert forall|i2: int, j2: int| 0 <= i2 < fl && 0 <= j2 < pl implies msg_is(
                    #[trigger] msgs@[37 + i2 * pl + j2],
                    Tag::TrackPoint,
                    track_vals(*f, i2, j2),
                ) by {
                    let t = i2 * pl + j2;
                    lemma_track_slot(i2, j2, fl as int, pl as int);
                    assert(msg_is(snap[37 + t], Tag::TrackPoint, track_vals(
                        *f,
                        t / (pl as int),
                        t % (pl as int),
                    )));
                    assert(whole[37 + t] == snap[37 + t]);
                    assert(msgs@[37 + t] == whole[37 + t]);
                }
                if f.noise is Some {
                    let nvv = f.noise->Some_0;
                    assert forall|i2: int, k2: int| 0 <= i2 < fl && 0 <= k2 < 25 implies msg_is(
                        #[trigger] msgs@[37 + (fl as int) * pl + i2 * 25 + k2],
                        Tag::NoisePoint,
                        noise_vals(nvv@, i2, k2),
                    ) by {
                        let t = i2 * 25 + k2;
                        vstd::arithmetic::div_mod::lemma_fundamental_div_mod_converse(
                            t,
                            25,
                            i2,
                            k2,
                        );
                        assert(i2 * 25 + k2 < (fl as int) * 25) by (nonlinear_arith)
                            requires
                                0 <= i2 < fl,
                                0 <= k2 < 25,
                        ;
                        assert(msg_is(whole[snap.len() + t], Tag::NoisePoint, noise_vals(
                            nvv@,
                            t / 25,
                            t % 25,
                        )));
                        assert(msgs@[snap.len() + t] == whole[snap.len() + t]);
                        assert(37 + (fl as int) * pl + t == snap.len() + t);
                    }
                }
            }
            msgs
        },
        None => {
            let mut vals: Vec<AtomValue> = Vec::new();
            vals.push(AtomValue::Real(0));
            msgs.push(Message { tag: Tag::FileType, values: vals });
            let mut vals: Vec<AtomValue> = Vec::new();
            vals.push(AtomValue::Real(0));
            vals.push(AtomValue::Real(0));
            assert(vals@ =~= seq![AtomValue::Real(0u64), AtomValue::Real(0u64)]);
            msgs.push(Message { tag: Tag::TrackCount, values: vals });
            let mut vals: Vec<AtomValue> = Vec::new();
            vals.push(AtomValue::Index(0));
            msgs.push(Message { tag: Tag::Dumping, values: vals });
            msgs
        },
    }
}


impl Tag {
    /// The selector word under which the host sends a message with this
    /// tag.
    pub fn symbol(&self) -> (s: &str)
        ensures
            s@ == match *self {
                Tag::FileType => "file_type"@,
                Tag::SampleRate => "sample_rate"@,
                Tag::DurSeconds => "dur_sec"@,
                Tag::FrameSize => "frame_samps"@,
                Tag::WindowSize => "window_samps"@,
                Tag::PartialCount => "partial_count"@,
                Tag::FrameCount => "frame_count"@,
                Tag::AmpMax => "amp_max"@,
                Tag::FreqMax => "freq_max"@,
                Tag::DataKey => "ats_data"@,
                Tag::TrackCount => "track_count"@,
                Tag::NoiseBandInfo => "noise_band"@,
                Tag::TrackPoint => "track_point"@,
                Tag::NoisePoint => "noise_point"@,
                Tag::Dumping => "dumping"@,
            },
    {
        match self {
            Tag::FileType => "file_type",
            Tag::SampleRate => "sample_rate",
            Tag::DurSeconds => "dur_sec",
            Tag::FrameSize => "frame_samps",
            Tag::WindowSize => "window_samps",
            Tag::PartialCount => "partial_count",
            Tag::FrameCount => "frame_count",
            Tag::AmpMax => "amp_max",
            Tag::FreqMax => "freq_max",
            Tag::DataKey => "ats_data",
            Tag::TrackCount => "track_count",
            Tag::NoiseBandInfo => "noise_band",
            Tag::TrackPoint => "track_point",
            Tag::NoisePoint => "noise_point",
            Tag::Dumping => "dumping",
        }
    }
}

} // verus!
