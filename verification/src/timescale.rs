use vstd::prelude::*;

verus! {

/// A data point looked up in an interpolated table: either between two
/// rows, to be interpolated, or outside the table's time range, saturated
/// at the nearest row.
pub enum InterpolatedDataPoint<Datapoint, Time> {
    /// A data point that needs to be interpolated.
    Interpolation {
        /// The row before the looked-up time.
        prev: Datapoint,
        /// The row after the looked-up time.
        next: Datapoint,
        /// How far the looked-up time lies from `prev` towards `next`: 0 on
        /// `prev`, 1 on `next`.
        percent: Time,
    },
    /// A data point outside of the table's range, saturated at the last
    /// given value.
    Saturation(Datapoint),
}

impl<Datapoint, Time> InterpolatedDataPoint<Datapoint, Time> {
    /// The value of the table at this point: a saturated value as it is; an
    /// interpolation through `lerp(prev, next, percent)`.
    pub fn resolve<F: FnOnce(Datapoint, Datapoint, Time) -> Datapoint>(self, lerp: F) -> (value: Datapoint)
        requires
            self matches InterpolatedDataPoint::Interpolation { prev, next, percent } ==> lerp.requires(
                (prev, next, percent),
            ),
        ensures
            match self {
                InterpolatedDataPoint::Saturation(v) => value == v,
                InterpolatedDataPoint::Interpolation { prev, next, percent } => lerp.ensures(
                    (prev, next, percent),
                    value,
                ),
            },
    {
        match self {
            InterpolatedDataPoint::Saturation(v) => v,
            InterpolatedDataPoint::Interpolation { prev, next, percent } => lerp(prev, next, percent),
        }
    }
}

/// Looks `time` up in an interpolated table: asks `get_raw` once, for
/// `time` itself, and gives the value of the point it returns, saturated
/// as it is or interpolated through `lerp(prev, next, percent)`.
pub fn get<Datapoint, Time, R, L>(get_raw: R, lerp: L, time: Time) -> (value: Datapoint) where
    R: FnOnce(Time) -> InterpolatedDataPoint<Datapoint, Time>,
    L: FnOnce(Datapoint, Datapoint, Time) -> Datapoint,

    requires
        get_raw.requires((time,)),
        forall|point: InterpolatedDataPoint<Datapoint, Time>| #[trigger]
            get_raw.ensures((time,), point) ==> (point matches InterpolatedDataPoint::Interpolation {
                prev,
                next,
                percent,
            } ==> lerp.requires((prev, next, percent))),
    ensures
        exists|point: InterpolatedDataPoint<Datapoint, Time>| #[trigger]
            get_raw.ensures((time,), point) && match point {
                InterpolatedDataPoint::Saturation(v) => value == v,
                InterpolatedDataPoint::Interpolation { prev, next, percent } => lerp.ensures(
                    (prev, next, percent),
                    value,
                ),
            },
{
    let point = get_raw(time);
    point.resolve(lerp)
}

} // verus!
