use eolina::range::EolinaRange;
use eolina::range::EolinaRangeBound;
use eolina::range::RangeError;

#[test]
fn to_range_valid() {
    let len = 4;
    let abs_abs_range = EolinaRange::from_isize(Some(0), Some(4));
    let rel_abs_range = EolinaRange::from_isize(Some(-1), Some(4));
    let abs_rel_range = EolinaRange::from_isize(Some(0), Some(-1));
    let rel_rel_range = EolinaRange::from_isize(Some(-2), Some(-1));

    assert_eq!(abs_abs_range.as_range(len).unwrap(), (0, 4));
    assert_eq!(rel_abs_range.as_range(len).unwrap(), (3, 4));
    assert_eq!(abs_rel_range.as_range(len).unwrap(), (0, 3));
    assert_eq!(rel_rel_range.as_range(len).unwrap(), (2, 3));
}

#[test]
fn to_range_out_of_target() {
    let len = 4;
    let abs_abs_range = EolinaRange::from_isize(Some(0), Some(5));
    let rel_abs_range = EolinaRange::from_isize(Some(-5), Some(4));
    let abs_rel_range = EolinaRange::from_isize(Some(0), Some(-5));
    let rel_rel_range = EolinaRange::from_isize(Some(-5), Some(-5));

    assert_eq!(
        abs_abs_range.as_range(len).unwrap_err(),
        RangeError::OutOfTargetRange(
            abs_abs_range,
            EolinaRange::from_isize(Some(0), Some(5)),
            EolinaRange::from_isize(Some(0), Some(4))
        )
    );
    assert_eq!(
        rel_abs_range.as_range(len).unwrap_err(),
        RangeError::OutOfTargetRange(
            rel_abs_range,
            EolinaRange::from_isize(Some(-1), Some(4)),
            EolinaRange::from_isize(Some(0), Some(4))
        )
    );
    assert_eq!(
        abs_rel_range.as_range(len).unwrap_err(),
        RangeError::OutOfTargetRange(
            abs_rel_range,
            EolinaRange::from_isize(Some(0), Some(-1)),
            EolinaRange::from_isize(Some(0), Some(4))
        )
    );
    assert_eq!(
        rel_rel_range.as_range(len).unwrap_err(),
        RangeError::OutOfTargetRange(
            rel_rel_range,
            EolinaRange::from_isize(Some(-1), Some(-1)),
            EolinaRange::from_isize(Some(0), Some(4))
        )
    );
}

#[test]
fn to_range_incompatible() {
    let len = 4;
    let abs_abs_range = EolinaRange::from_isize(Some(4), Some(0));
    let rel_abs_range = EolinaRange::from_isize(Some(-1), Some(0));
    let abs_rel_range = EolinaRange::from_isize(Some(4), Some(-4));
    let rel_rel_range = EolinaRange::from_isize(Some(-1), Some(-4));

    assert_eq!(
        abs_abs_range.as_range(len).unwrap_err(),
        RangeError::IncompatibleBounds(
            EolinaRange::from_isize(Some(4), Some(0)),
            EolinaRange::from_isize(Some(0), Some(4))
        )
    );
    assert_eq!(
        rel_abs_range.as_range(len).unwrap_err(),
        RangeError::IncompatibleBounds(
            EolinaRange::from_isize(Some(3), Some(0)),
            EolinaRange::from_isize(Some(0), Some(4))
        )
    );
    assert_eq!(
        abs_rel_range.as_range(len).unwrap_err(),
        RangeError::IncompatibleBounds(
            EolinaRange::from_isize(Some(4), Some(0)),
            EolinaRange::from_isize(Some(0), Some(4))
        )
    );
    assert_eq!(
        rel_rel_range.as_range(len).unwrap_err(),
        RangeError::IncompatibleBounds(
            EolinaRange::from_isize(Some(3), Some(0)),
            EolinaRange::from_isize(Some(0), Some(4))
        )
    );
}

#[test]
fn bound_components_round_trip() {
    assert_eq!(
        EolinaRangeBound::from_components(false, 3),
        EolinaRangeBound::Start(3)
    );
    assert_eq!(
        EolinaRangeBound::from_components(true, 3),
        EolinaRangeBound::End(3)
    );
    assert_eq!(EolinaRangeBound::Start(3).as_isize(), 3);
    assert_eq!(EolinaRangeBound::End(3).to_isize(), -3);
    assert_eq!(EolinaRangeBound::from(5usize), EolinaRangeBound::Start(5));
    assert_eq!(EolinaRangeBound::from(-5isize), EolinaRangeBound::End(5));
    // -0 parsed from components stays distinct from 0
    assert_ne!(
        EolinaRangeBound::from_components(true, 0),
        EolinaRangeBound::from_components(false, 0)
    );
}

#[test]
fn end_zero_resolves_to_length() {
    // `-0` means the position `len`, distinct from `0`
    let r = EolinaRange::from_components(Some((true, 0)), None);
    assert_eq!(r.as_range(4).unwrap(), (4, 4));
    let s = EolinaRange::from_components(None, Some((true, 0)));
    assert_eq!(s.as_range(4).unwrap(), (0, 4));
    let zero = EolinaRange::from_components(Some((false, 0)), Some((true, 0)));
    assert_eq!(zero.as_range(4).unwrap(), (0, 4));
}
