//! Relative-to-absolute translation of indices and ranges.
//!
//! A bound is either absolute from the front (`Start`) or a magnitude from
//! the back (`End`); note that `End(0)` (written `-0`) means the position
//! `len`, which is distinct from `Start(0)`. A range of two optional bounds
//! resolves against a concrete length either to `start..end` with
//! `0 <= start <= end <= len`, or to one of two errors: a bound individually
//! out of `0..=len`, or a resolved start beyond the resolved end.

use vstd::prelude::*;

verus! {

/// A range bound, used instead of a plain signed integer so that `-0`
/// ("zero from the back") stays distinct from `0` ("zero from the front").
#[derive(Debug, PartialEq, Eq, Clone, Copy, Structural)]
pub enum EolinaRangeBound {
    /// An absolute bound, counted from the front.
    Start(usize),
    /// A bound given as a magnitude counted from the back.
    End(usize),
}

/// An error that can occur when resolving an index against a length.
#[derive(Debug, PartialEq, Eq, Clone, Copy, Structural)]
pub enum IndexError {
    /// The index resolves outside the valid target range.
    /// Carries the given bound and the target length.
    OutOfTargetRange(EolinaRangeBound, usize),
}

/// An error that can occur when resolving a range against a length.
#[derive(Debug, PartialEq, Eq, Clone)]
pub enum RangeError {
    /// A bound of the given range is out of the valid target range.
    /// Carries the given relative range, the computed absolute range and
    /// the valid range.
    OutOfTargetRange(EolinaRange, EolinaRange, EolinaRange),
    /// The given bounds resolve to a start beyond the end.
    /// Carries the computed absolute range and the valid range.
    IncompatibleBounds(EolinaRange, EolinaRange),
}

/// The signed position a bound stands for, against a target length.
pub open spec fn bound_abs(b: EolinaRangeBound, len: nat) -> int {
    match b {
        EolinaRangeBound::Start(i) => i as int,
        EolinaRangeBound::End(i) => len - i,
    }
}

/// The signed value a bound denotes on its own: `Start(i)` is `i`,
/// `End(i)` is `-i`.
pub open spec fn bound_signed(b: EolinaRangeBound) -> int {
    match b {
        EolinaRangeBound::Start(i) => i as int,
        EolinaRangeBound::End(i) => -(i as int),
    }
}

impl EolinaRangeBound {
    /// The magnitude of this bound, whichever side it counts from.
    pub open spec fn magnitude(&self) -> nat {
        match *self {
            EolinaRangeBound::Start(i) => i as nat,
            EolinaRangeBound::End(i) => i as nat,
        }
    }

    /// Converts this bound into a signed integer, where a negative value
    /// denotes an index relative from the back.
    pub fn as_isize(&self) -> (r: isize)
        requires
            self.magnitude() <= isize::MAX as nat,
        ensures
            r as int == bound_signed(*self),
    {
        match *self {
            EolinaRangeBound::Start(idx) => idx as isize,
            EolinaRangeBound::End(idx) => -(idx as isize),
        }
    }

    /// Converts this bound into a signed integer, where a negative value
    /// denotes an index relative from the back.
    pub fn to_isize(&self) -> (r: isize)
        requires
            self.magnitude() <= isize::MAX as nat,
        ensures
            r as int == bound_signed(*self),
    {
        self.as_isize()
    }

    /// Creates a new bound from its components: a magnitude, counted from
    /// the back when `from_back` is set.
    pub fn from_components(from_back: bool, value: usize) -> (r: Self)
        ensures
            r == if from_back {
                EolinaRangeBound::End(value)
            } else {
                EolinaRangeBound::Start(value)
            },
    {
        if from_back {
            Self::End(value)
        } else {
            Self::Start(value)
        }
    }

    /// Resolves this bound against a target length.
    ///
    /// `Start(i)` is valid iff `i <= len` and resolves to `i`; `End(i)` is
    /// valid iff `i <= len` and resolves to `len - i`. An invalid bound is
    /// reported as out of the target range.
    pub fn to_absolute(&self, len: usize) -> (r: Result<usize, IndexError>)
        ensures
            0 <= bound_abs(*self, len as nat) <= len ==> r == Ok::<usize, IndexError>(
                bound_abs(*self, len as nat) as usize,
            ),
            !(0 <= bound_abs(*self, len as nat) <= len) ==> r == Err::<usize, IndexError>(
                IndexError::OutOfTargetRange(*self, len),
            ),
    {
        match *self {
            EolinaRangeBound::Start(i) => {
                if i <= len {
                    Ok(i)
                } else {
                    Err(IndexError::OutOfTargetRange(*self, len))
                }
            },
            EolinaRangeBound::End(i) => {
                if i <= len {
                    Ok(len - i)
                } else {
                    Err(IndexError::OutOfTargetRange(*self, len))
                }
            },
        }
    }
}

/// The bound that stands for an already-resolved signed position: a
/// non-negative position from the front, a negative one as a magnitude from
/// the back.
pub open spec fn abs_bound_repr(v: int) -> EolinaRangeBound {
    if v >= 0 {
        EolinaRangeBound::Start(v as usize)
    } else {
        EolinaRangeBound::End((-v) as usize)
    }
}

/// The representation of the valid target range `0..len`.
pub open spec fn valid_repr(len: nat) -> EolinaRange {
    EolinaRange {
        start: Some(EolinaRangeBound::Start(0)),
        end: Some(EolinaRangeBound::Start(len as usize)),
    }
}

/// A range of two optional bounds, written `|s.e|`: `s` is the inclusive
/// relative start and `e` the exclusive relative end. A bound from the back
/// denotes a position relative to the target's length.
#[derive(Debug, Clone, Copy)]
pub struct EolinaRange {
    /// The optional start bound.
    pub start: Option<EolinaRangeBound>,
    /// The optional end bound.
    pub end: Option<EolinaRangeBound>,
}

impl PartialEq for EolinaRange {
    fn eq(&self, other: &EolinaRange) -> (r: bool) {
        let s = match (self.start, other.start) {
            (None, None) => true,
            (Some(a), Some(b)) => a == b,
            _ => false,
        };
        let e = match (self.end, other.end) {
            (None, None) => true,
            (Some(a), Some(b)) => a == b,
            _ => false,
        };
        s && e
    }
}

impl vstd::std_specs::cmp::PartialEqSpecImpl for EolinaRange {
    open spec fn obeys_eq_spec() -> bool {
        true
    }

    open spec fn eq_spec(&self, other: &EolinaRange) -> bool {
        self.start == other.start && self.end == other.end
    }
}

impl Eq for EolinaRange {

}

impl EolinaRange {
    /// The position the start bound resolves to against a target length;
    /// an absent start defaults to the front.
    pub open spec fn start_abs(&self, len: nat) -> int {
        match self.start {
            Some(b) => bound_abs(b, len),
            None => 0,
        }
    }

    /// The position the end bound resolves to against a target length;
    /// an absent end defaults to the back.
    pub open spec fn end_abs(&self, len: nat) -> int {
        match self.end {
            Some(b) => bound_abs(b, len),
            None => len as int,
        }
    }

    /// Both bounds resolve into the valid target range `0..=len`.
    pub open spec fn bounds_valid(&self, len: nat) -> bool {
        0 <= self.start_abs(len) <= len && 0 <= self.end_abs(len) <= len
    }

    /// The range of the two resolved positions, as it is reported in errors.
    pub open spec fn translated(&self, len: nat) -> EolinaRange {
        EolinaRange {
            start: Some(abs_bound_repr(self.start_abs(len))),
            end: Some(abs_bound_repr(self.end_abs(len))),
        }
    }

    /// Creates a new range from the given bounds.
    pub fn new(start: Option<EolinaRangeBound>, end: Option<EolinaRangeBound>) -> (r: Self)
        ensures
            r == (EolinaRange { start, end }),
    {
        Self { start, end }
    }

    /// Creates a new range from optional signed bounds, where a negative
    /// value counts from the back.
    pub fn from_isize(start: Option<isize>, end: Option<isize>) -> (r: Self)
        ensures
            r.start == (match start {
                Some(v) => Some(abs_bound_repr(v as int)),
                None => None::<EolinaRangeBound>,
            }),
            r.end == (match end {
                Some(v) => Some(abs_bound_repr(v as int)),
                None => None::<EolinaRangeBound>,
            }),
    {
        Self {
            start: match start {
                Some(v) => Some(EolinaRangeBound::from(v)),
                None => None,
            },
            end: match end {
                Some(v) => Some(EolinaRangeBound::from(v)),
                None => None,
            },
        }
    }

    /// Creates a new range from optional component pairs, each a magnitude
    /// and whether it counts from the back.
    pub fn from_components(start: Option<(bool, usize)>, end: Option<(bool, usize)>) -> (r: Self)
        ensures
            r.start == (match start {
                Some((rel, num)) => Some(
                    if rel {
                        EolinaRangeBound::End(num)
                    } else {
                        EolinaRangeBound::Start(num)
                    },
                ),
                None => None::<EolinaRangeBound>,
            }),
            r.end == (match end {
                Some((rel, num)) => Some(
                    if rel {
                        EolinaRangeBound::End(num)
                    } else {
                        EolinaRangeBound::Start(num)
                    },
                ),
                None => None::<EolinaRangeBound>,
            }),
    {
        Self {
            start: match start {
                Some((rel, num)) => Some(EolinaRangeBound::from_components(rel, num)),
                None => None,
            },
            end: match end {
                Some((rel, num)) => Some(EolinaRangeBound::from_components(rel, num)),
                None => None,
            },
        }
    }

    /// Creates a new range from optional component pairs, each a magnitude
    /// and whether it counts from the back.
    pub fn components(start: Option<(bool, usize)>, end: Option<(bool, usize)>) -> (r: Self)
        ensures
            r.start == (match start {
                Some((rel, num)) => Some(
                    if rel {
                        EolinaRangeBound::End(num)
                    } else {
                        EolinaRangeBound::Start(num)
                    },
                ),
                None => None::<EolinaRangeBound>,
            }),
            r.end == (match end {
                Some((rel, num)) => Some(
                    if rel {
                        EolinaRangeBound::End(num)
                    } else {
                        EolinaRangeBound::Start(num)
                    },
                ),
                None => None::<EolinaRangeBound>,
            }),
    {
        Self::from_components(start, end)
    }

    /// Applies the given mapping functions to the bounds that are present.
    pub fn map<FS: Fn(EolinaRangeBound) -> EolinaRangeBound, FE: Fn(
        EolinaRangeBound,
    ) -> EolinaRangeBound>(self, f_start: FS, f_end: FE) -> (r: Self)
        requires
            forall|b: EolinaRangeBound| self.start == Some(b) ==> f_start.requires((b,)),
            forall|b: EolinaRangeBound| self.end == Some(b) ==> f_end.requires((b,)),
        ensures
            (match (self.start, r.start) {
                (Some(a), Some(rb)) => f_start.ensures((a,), rb),
                (None, None) => true,
                _ => false,
            }),
            (match (self.end, r.end) {
                (Some(a), Some(rb)) => f_end.ensures((a,), rb),
                (None, None) => true,
                _ => false,
            }),
    {
        Self {
            start: match self.start {
                Some(b) => Some(f_start(b)),
                None => None,
            },
            end: match self.end {
                Some(b) => Some(f_end(b)),
                None => None,
            },
        }
    }

    /// Resolves this range against a target length.
    ///
    /// Each bound resolves on its own, the start defaulting to `0` and the
    /// end to `len`. If either resolved bound falls outside `0..=len`, the
    /// whole range is out of the target range; otherwise, if the resolved
    /// start lies beyond the resolved end, the bounds are incompatible;
    /// otherwise the result is the resolved pair.
    pub fn as_range(&self, len: usize) -> (r: Result<(usize, usize), RangeError>)
        ensures
            !self.bounds_valid(len as nat) ==> r == Err::<(usize, usize), RangeError>(
                RangeError::OutOfTargetRange(
                    *self,
                    self.translated(len as nat),
                    valid_repr(len as nat),
                ),
            ),
            self.bounds_valid(len as nat) && self.start_abs(len as nat) > self.end_abs(len as nat)
                ==> r == Err::<(usize, usize), RangeError>(
                RangeError::IncompatibleBounds(
                    self.translated(len as nat),
                    valid_repr(len as nat),
                ),
            ),
            self.bounds_valid(len as nat) && self.start_abs(len as nat) <= self.end_abs(len as nat)
                ==> r == Ok::<(usize, usize), RangeError>(
                (self.start_abs(len as nat) as usize, self.end_abs(len as nat) as usize),
            ),
    {
        let (s_valid, s_abs, s_trans): (bool, usize, EolinaRangeBound) = match self.start {
            None => (true, 0, EolinaRangeBound::Start(0)),
            Some(EolinaRangeBound::Start(i)) => (i <= len, i, EolinaRangeBound::Start(i)),
            Some(EolinaRangeBound::End(i)) => {
                if i <= len {
                    (true, len - i, EolinaRangeBound::Start(len - i))
                } else {
                    (false, 0, EolinaRangeBound::End(i - len))
                }
            },
        };
        let (e_valid, e_abs, e_trans): (bool, usize, EolinaRangeBound) = match self.end {
            None => (true, len, EolinaRangeBound::Start(len)),
            Some(EolinaRangeBound::Start(i)) => (i <= len, i, EolinaRangeBound::Start(i)),
            Some(EolinaRangeBound::End(i)) => {
                if i <= len {
                    (true, len - i, EolinaRangeBound::Start(len - i))
                } else {
                    (false, 0, EolinaRangeBound::End(i - len))
                }
            },
        };

        let translated = EolinaRange { start: Some(s_trans), end: Some(e_trans) };
        let valid = EolinaRange {
            start: Some(EolinaRangeBound::Start(0)),
            end: Some(EolinaRangeBound::Start(len)),
        };

        if !(s_valid && e_valid) {
            Err(RangeError::OutOfTargetRange(*self, translated, valid))
        } else if s_abs > e_abs {
            Err(RangeError::IncompatibleBounds(translated, valid))
        } else {
            Ok((s_abs, e_abs))
        }
    }
}

impl From<usize> for EolinaRangeBound {
    /// Creates an absolute bound from an unsigned integer.
    fn from(v: usize) -> (r: Self) {
        Self::Start(v)
    }
}

impl vstd::std_specs::convert::FromSpecImpl<usize> for EolinaRangeBound {
    open spec fn obeys_from_spec() -> bool {
        true
    }

    open spec fn from_spec(v: usize) -> Self {
        EolinaRangeBound::Start(v)
    }
}

impl From<isize> for EolinaRangeBound {
    /// Creates a bound from a signed integer: a negative value counts from
    /// the back.
    fn from(v: isize) -> (r: Self) {
        if v >= 0 {
            Self::Start(v as usize)
        } else {
            // magnitude of a negative value, written so that it cannot
            // overflow even for the smallest signed integer
            Self::End((-(v + 1)) as usize + 1)
        }
    }
}

impl vstd::std_specs::convert::FromSpecImpl<isize> for EolinaRangeBound {
    open spec fn obeys_from_spec() -> bool {
        true
    }

    open spec fn from_spec(v: isize) -> Self {
        if v >= 0 {
            EolinaRangeBound::Start(v as usize)
        } else {
            EolinaRangeBound::End((-(v as int)) as usize)
        }
    }
}

} // verus!
