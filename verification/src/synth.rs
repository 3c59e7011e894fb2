//! Integer-side decisions of the partial synthesis engine.
//!
//! The per-sample oscillator and noise arithmetic is floating point and
//! lives with the real-time host code; everything the engine decides with
//! integers is here: which pair of frames a playback position reads and
//! how the cross-fade fraction is pinned at the ends of the timeline,
//! which partials of a data set a bank of a given size drives, how the
//! offset / increment / limit setters clamp their input, and how a
//! per-partial control message is validated.

use vstd::prelude::*;
use vstd::string::StringExecFns;
use std::sync::Arc;
use crate::data::AtsFile;
use crate::cache::decimal_digits;
use crate::cache::push_decimal;

verus! {

/// How the cross-fade fraction of a mapped playback position is chosen.
pub enum FractMode {
    /// Before the first frame: the fraction is pinned to 0, freezing the
    /// output at frame 0's content.
    Zero,
    /// At or past the last interpolatable pair: the fraction is pinned
    /// to 1, freezing the output at the last frame's content.
    One,
    /// An interior position: the fraction is the position's own
    /// fractional part.
    Interior,
}

/// Maps the floor of a fractional frame index onto the first of the two
/// frames to interpolate, together with how the cross-fade fraction is
/// chosen. Positions at or before the start always read frame 0 with the
/// fraction pinned to 0; positions at or past the last interpolatable
/// pair always read the last two frames with the fraction pinned to 1.
pub fn map_position(frame_floor: i64, frames: usize) -> (r: (usize, FractMode))
    requires
        2 <= frames,
        frames <= i64::MAX,
    ensures
        frame_floor < 0 ==> r.0 == 0 && r.1 is Zero,
        frame_floor <= 0 ==> r.0 == 0,
        0 <= frame_floor && frame_floor + 1 >= frames ==> r.0 == frames - 2 && r.1 is One,
        0 <= frame_floor && frame_floor + 1 < frames ==> r.0 == frame_floor && r.1 is Interior,
        r.0 + 1 < frames,
{
    if frame_floor < 0 {
        (0, FractMode::Zero)
    } else if frame_floor >= (frames as i64) - 1 {
        (frames - 2, FractMode::One)
    } else {
        (frame_floor as usize, FractMode::Interior)
    }
}

/// Which partials of a data set a bank drives: a count of generators and
/// the exclusive end of the partial indices they read.
pub struct Selection {
    /// How many generators produce sound; the `k`-th reads partial
    /// `offset + k * incr`. Zero means silence.
    pub count: usize,
    /// Exclusive upper bound of the partial indices read.
    pub end: usize,
}

/// The number of strides of length `incr` that cover `avail` items.
pub open spec fn ceil_div(avail: int, incr: int) -> int {
    avail / incr + if avail % incr > 0 {
        1int
    } else {
        0int
    }
}

/// Computes which partials a bank of `bank` generators drives when the
/// data set has `partials` partials and the engine is configured to skip
/// the first `offset`, take every `incr`-th, and drive at most `limit`.
/// The count is the stride count capped by the limit and the bank size;
/// it is zero - silence - when the offset is at or past the partial
/// count or the limit or bank is empty.
pub fn select_partials(partials: usize, offset: usize, incr: usize, limit: usize, bank: usize) -> (r:
    Selection)
    requires
        1 <= incr,
        partials + incr <= usize::MAX,
    ensures
        offset >= partials ==> r.count == 0,
        offset < partials ==> r.count == vstd::math::min(
            ceil_div(partials - offset, incr as int),
            vstd::math::min(limit as int, bank as int),
        ),
        r.count == 0 ==> r.end == 0,
        r.count > 0 ==> r.end == vstd::math::min(
            r.count * incr + offset,
            partials as int,
        ),
        r.count <= bank,
        r.count <= limit,
        r.end <= partials,
        forall|k: int| 0 <= k < r.count ==> offset + #[trigger] (k * incr) < r.end,
{
    if offset >= partials {
        return Selection { count: 0, end: 0 };
    }
    let avail = partials - offset;
    let q = avail / incr;
    let rem = avail % incr;
    proof {
        vstd::arithmetic::div_mod::lemma_fundamental_div_mod(avail as int, incr as int);
        vstd::arithmetic::div_mod::lemma_div_pos_is_pos(avail as int, incr as int);
        vstd::arithmetic::div_mod::lemma_mod_bound(avail as int, incr as int);
    }
    let mut count = q + if rem > 0 {
        1
    } else {
        0
    };
    assert(count == ceil_div(avail as int, incr as int));
    assert(count * incr <= avail + incr) by (nonlinear_arith)
        requires
            avail == incr * q + rem,
            count == q + if rem > 0 {
                1int
            } else {
                0int
            },
            0 <= rem < incr,
            incr >= 1,
            q >= 0,
    ;
    if limit < count {
        count = limit;
    }
    if bank < count {
        count = bank;
    }
    if count == 0 {
        return Selection { count: 0, end: 0 };
    }
    assert(count * incr <= avail + incr) by (nonlinear_arith)
        requires
            count <= ceil_div(avail as int, incr as int),
            ceil_div(avail as int, incr as int) * incr <= avail + incr,
            incr >= 1,
            count >= 0,
    ;
    let stretch = count * incr;
    let end0 = stretch + offset;
    let end = if end0 < partials {
        end0
    } else {
        partials
    };
    proof {
        assert forall|k: int| 0 <= k < count implies offset + #[trigger] (k * incr) < end by {
            assert(k * incr + incr == (k + 1) * incr) by (nonlinear_arith);
            assert((k + 1) * incr <= count * incr) by (nonlinear_arith)
                requires
                    k + 1 <= count,
                    incr >= 1,
            ;
            assert(incr * ((avail as int) / (incr as int)) <= avail) by {
                vstd::arithmetic::div_mod::lemma_fundamental_div_mod(avail as int, incr as int);
            }
            assert(count * incr <= avail + incr - 1) by (nonlinear_arith)
                requires
                    avail == incr * ((avail as int) / (incr as int)) + (avail as int) % (
                    incr as int),
                    count <= ceil_div(avail as int, incr as int),
                    0 <= (avail as int) % (incr as int) < incr,
                    incr >= 1,
                    count >= 1,
            ;
        }
    }
    Selection { count, end }
}

/// Clamps the integer part of a control value to a floor, as the
/// offset, increment and limit setters store it.
pub fn clamp_bottom(value_floor: isize, bottom: isize) -> (r: usize)
    requires
        0 <= bottom,
    ensures
        r == if value_floor > bottom {
            value_floor as int
        } else {
            bottom as int
        },
{
    let m = if value_floor > bottom {
        value_floor
    } else {
        bottom
    };
    m as usize
}

/// Validates the two arguments of a per-partial control message. The
/// first argument selects one generator by index or all of them with the
/// selector word; the second is the value, given as a binary64 bit
/// pattern. `first_index` and `value` are empty when the corresponding
/// argument is not of that kind, `first_is_all` is true when the first
/// argument is the selector word, and `bank` is the generator count. An
/// index equal to `bank` is accepted here and then ignored by the
/// dispatch, as the original checks have it.
pub fn extract_args(
    arg_count: usize,
    first_index: Option<i64>,
    first_is_all: bool,
    value: Option<u64>,
    bank: usize,
) -> (r: Result<(Option<usize>, u64), String>)
    ensures
        match r {
            Ok((sel, v)) => {
                &&& arg_count == 2
                &&& value == Some(v)
                &&& match sel {
                    Some(i) => first_index matches Some(fi) && i == fi as u64 && i <= bank,
                    None => first_index is None && first_is_all,
                }
            },
            Err(m) => {
                if arg_count != 2 {
                    m@ == "expected 2 arguments"@
                } else {
                    match first_index {
                        Some(fi) => {
                            if (fi as u64) > bank as u64 {
                                m@ == "partial index "@ + decimal_digits(fi as u64 as int)
                                    + " out of range"@
                            } else {
                                m@ == "expect second arg to be a float"@ && value is None
                            }
                        },
                        None => {
                            if !first_is_all {
                                m@ == "expect first arg to be an index or 'all'"@
                            } else {
                                m@ == "expect second arg to be a float"@ && value is None
                            }
                        },
                    }
                }
            },
        },
        r is Err <==> (arg_count != 2 || (first_index matches Some(fi) && (fi as u64)
            > bank as u64) || (first_index is None && !first_is_all) || value is None),
{
    if arg_count != 2 {
        return Err("expected 2 arguments".to_owned());
    }
    let sel: Option<usize> = match first_index {
        Some(fi) => {
            let iu = fi as u64;
            if iu > bank as u64 {
                let mut m = "partial index ".to_owned();
                push_decimal(&mut m, iu);
                m.append(" out of range");
                return Err(m);
            }
            Some(iu as usize)
        },
        None => {
            if !first_is_all {
                return Err("expect first arg to be an index or 'all'".to_owned());
            }
            None
        },
    };
    match value {
        Some(v) => Ok((sel, v)),
        None => Err("expect second arg to be a float".to_owned()),
    }
}


/// Applies the data-set swaps the real-time side drained from its
/// channel this tick: the most recently posted one becomes current, and
/// draining nothing leaves the current set alone.
pub fn apply_swaps(current: Option<Arc<AtsFile>>, drained: Vec<Option<Arc<AtsFile>>>) -> (r: Option<
    Arc<AtsFile>,
>)
    ensures
        r == if drained@.len() == 0 {
            current
        } else {
            drained@.last()
        },
{
    if drained.len() == 0 {
        current
    } else {
        let mut d = drained;
        let last = d.pop();
        last.unwrap()
    }
}


/// Validates the creation arguments of the synthesis external, given as
/// the integer values of the first three arguments where present: a
/// required positive generator count, an optional offset that must not
/// be negative, and an optional increment that must be at least 1.
/// Checks run in argument order, so a bad offset or increment is
/// reported even when the count is also bad.
pub fn creation_params(first: Option<i64>, second: Option<i64>, third: Option<i64>) -> (r: Result<
    (usize, usize, usize),
    String,
>)
    requires
        first matches Some(p) ==> p <= usize::MAX,
        second matches Some(o) ==> o <= usize::MAX,
        third matches Some(i) ==> i <= usize::MAX,
    ensures
        match r {
            Ok((partials, offset, incr)) => {
                &&& first matches Some(p) && p > 0 && partials == p
                &&& offset == match second {
                    Some(o) => o as int,
                    None => 0int,
                }
                &&& incr == match third {
                    Some(i) => i as int,
                    None => 1int,
                }
            },
            Err(m) => {
                if second matches Some(o) && o < 0 {
                    m@ == "offset must be a positive integer"@
                } else if third matches Some(i) && i < 1 {
                    m@ == "increment must be an integer greater than 0"@
                } else {
                    m@ == "first argument must be a non zero partial count"@ && match first {
                        Some(p) => p <= 0,
                        None => true,
                    }
                }
            },
        },
{
    let partials: Option<i64> = match first {
        Some(v) => if v > 0 {
            Some(v)
        } else {
            None
        },
        None => None,
    };
    let mut offset: i64 = 0;
    let mut incr: i64 = 1;
    match second {
        Some(v) => {
            if v < 0 {
                return Err("offset must be a positive integer".to_owned());
            }
            offset = v;
        },
        None => {},
    }
    match third {
        Some(v) => {
            if v < 1 {
                return Err("increment must be an integer greater than 0".to_owned());
            }
            incr = v;
        },
        None => {},
    }
    match partials {
        Some(p) => Ok((p as usize, offset as usize, incr as usize)),
        None => Err("first argument must be a non zero partial count".to_owned()),
    }
}

} // verus!
