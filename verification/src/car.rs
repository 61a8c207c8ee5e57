//! The car: eight rigid rectangles and a steering step.
//!
//! The front wheels are steered in whole steps between `-TURNING_COUNT`
//! (full right) and `TURNING_COUNT` (full left). A steering step other than
//! zero fixes a turning centre on the line through the rear axle; driving then
//! carries every part of the car along one and the same rotation about that
//! centre. With the wheels straight, driving moves every part by one and the
//! same step along the body's heading.
use crate::error::CarError;
use crate::fixed::{lemma_mul_rounding, magnitude, round_quot, Fixed};
use crate::fixed::{MAX_RAW, MINUS_ONE_RAW, MIN_RAW, ONE_RAW};
use crate::geometry::{distance_of, distance_spec, new_rotation_matrix, point2, Point, Rotation};
use crate::geometry::{heading_step, lemma_forward_keeps_distance, rotation_matrix_spec};
use crate::linear_algebra::Matrix;
use crate::logo::{is_logo, logo_extents, logo_extents_spec, new_logo, Picture};
use crate::rect::{half, half_spec, Color, Rect, Source};
use crate::rounding::lemma_steering_matrix_has_inverse;
use crate::trig::QUARTER_TURN_RAW;
use crate::turns::{in_reach, nearly_as_far, squared_distance, within_far, DISTANCE_TOLERANCE};
use crate::turns::{lemma_distance_squared, lemma_nearly_as_far_in_distance};
use crate::turns::{lemma_rotation_matrix_is_turn, lemma_turn_nearly_keeps_distance};
use vstd::prelude::*;

verus! {

/// Pixels per metre, for whoever paints the map.
pub const SCALE: i64 = 128849018880;

/// The map's width, 800 pixels, in metres (raw).
pub const MAP_WIDTH: i64 = 114532461227;

/// The map's height, 800 pixels, in metres (raw).
pub const MAP_HEIGHT: i64 = 114532461227;

/// The body's width, 1.837 m (raw).
pub const CAR_WIDTH: i64 = 7889854923;

/// The body's length, 4.765 m (raw).
pub const CAR_HEIGHT: i64 = 20465519165;

/// The logo's width, 1 m (raw).
pub const LOGO_WIDTH: i64 = 4294967296;

/// How far the logo's front edge lies behind the body's front edge, 0.2 m (raw).
pub const LOGO_INSET: i64 = 858993459;

/// A tyre's width, 0.215 m (raw).
pub const WHEEL_WIDTH: i64 = 923417969;

/// A wheel's diameter: a 17 inch rim and twice 55 % of the tyre's width,
/// 0.6683 m (raw).
pub const WHEEL_HEIGHT: i64 = 2870330353;

/// The rated smallest turning radius, 5.5 m (raw).
pub const TURNING_RADIUS: i64 = 23622320128;

/// The number of steering steps to either side.
pub const TURNING_COUNT: i32 = 4;

/// The distance between the wheels of one axle, 1.58 m (raw).
pub const TRACK_WIDTH: i64 = 6786048328;

/// From the body's front edge to the front axle, 0.92 m (raw).
pub const FRONT_SUSPENSION: i64 = 3951369912;

/// From the body's rear edge to the rear axle, 1.05 m (raw).
pub const REAR_SUSPENSION: i64 = 4509715661;

/// A mirror's thickness, 0.08 m (raw).
pub const MIRROR_WIDTH: i64 = 343597384;

/// A mirror's length, 0.35 m (raw).
pub const MIRROR_HEIGHT: i64 = 1503238554;

/// The angle between a mirror and the body's side, 70 degrees (raw).
pub const MIRROR_ANGLE: i64 = 5247292441;

/// From the body's front edge to the middle of a mirror's foot, 1.51 m (raw).
pub const MIRROR_ORIGIN_TO_FRONT: i64 = 6485400617;

/// The body, the four wheels, the logo and the two mirrors of a car, and
/// the step at which it is steered.
#[derive(Debug)]
pub struct Car {
    /// The front left wheel.
    pub lt: Rect,
    /// The front right wheel.
    pub rt: Rect,
    /// The rear left wheel.
    pub lb: Rect,
    /// The rear right wheel.
    pub rb: Rect,
    pub body: Rect,
    pub steer_angle: i32,
    pub logo: Rect,
    pub left_mirror: Rect,
    pub right_mirror: Rect,
}

/// The colour of the body and the mirrors.
pub open spec fn body_color() -> Color {
    Color { r: 24, g: 174, b: 219 }
}

/// The colour of the wheels.
pub open spec fn wheel_color() -> Color {
    Color { r: 0, g: 0, b: 0 }
}

/// The steering step after a step to the left: one more, but never more
/// than `TURNING_COUNT`.
pub open spec fn left_of(step: int) -> int {
    if step < TURNING_COUNT {
        step + 1
    } else {
        step
    }
}

/// The steering step after a step to the right: one less, but never less
/// than `-TURNING_COUNT`.
pub open spec fn right_of(step: int) -> int {
    if step > -TURNING_COUNT {
        step - 1
    } else {
        step
    }
}

/// The steering step after `count` steps to the left.
pub open spec fn after_left_steps(step: int, count: nat) -> int
    decreases count,
{
    if count == 0 {
        step
    } else {
        left_of(after_left_steps(step, (count - 1) as nat))
    }
}

/// The steering step after `count` steps to the right.
pub open spec fn after_right_steps(step: int, count: nat) -> int
    decreases count,
{
    if count == 0 {
        step
    } else {
        right_of(after_right_steps(step, (count - 1) as nat))
    }
}

/// Steering to the left saturates: from any step within the range, `count`
/// steps to the left lead to `step + count`, but never beyond
/// `TURNING_COUNT`. So `TURNING_COUNT + 5` steps, and any greater number,
/// end at `TURNING_COUNT` wherever they began.
pub proof fn lemma_left_steps_saturate(step: int, count: nat)
    requires
        -TURNING_COUNT <= step <= TURNING_COUNT,
    ensures
        after_left_steps(step, count) == if step + count <= TURNING_COUNT {
            step + count
        } else {
            TURNING_COUNT as int
        },
        count >= 2 * TURNING_COUNT ==> after_left_steps(step, count) == TURNING_COUNT,
    decreases count,
{
    if count > 0 {
        lemma_left_steps_saturate(step, (count - 1) as nat);
    }
}

/// Steering to the right saturates: from any step within the range, `count`
/// steps to the right lead to `step - count`, but never beyond
/// `-TURNING_COUNT`.
pub proof fn lemma_right_steps_saturate(step: int, count: nat)
    requires
        -TURNING_COUNT <= step <= TURNING_COUNT,
    ensures
        after_right_steps(step, count) == if step - count >= -TURNING_COUNT {
            step - count
        } else {
            -TURNING_COUNT as int
        },
        count >= 2 * TURNING_COUNT ==> after_right_steps(step, count) == -TURNING_COUNT,
    decreases count,
{
    if count > 0 {
        lemma_right_steps_saturate(step, (count - 1) as nat);
    }
}

/// With the wheels straight there is no turning radius and no turning
/// centre, and driving moves every part forward by the same distance along
/// the body's heading: no part changes its orientation, its extents or what
/// it is painted with, and the steering step stays.
pub proof fn lemma_straight_drive(car: Car, distance: Fixed)
    requires
        car.steer_angle == 0,
    ensures
        car.angle2r_spec(car.steer_angle) is None,
        car.angle2origin_spec(car.steer_angle) is None,
        car.forward_spec(distance) == car.forward_all(distance, car.body.rotation_matrix),
        car.forward_spec(distance).steer_angle == 0,
        forall|part: Rect| #[trigger]
            part.forward_spec(distance, car.body.rotation_matrix).origin
                == part.origin.forward_spec(distance, car.body.rotation_matrix),
        forall|part: Rect| #[trigger]
            part.forward_spec(distance, car.body.rotation_matrix).rotation_matrix
                == part.rotation_matrix,
        forall|part: Rect| #[trigger]
            part.forward_spec(distance, car.body.rotation_matrix).width == part.width,
        forall|part: Rect| #[trigger]
            part.forward_spec(distance, car.body.rotation_matrix).height == part.height,
        forall|part: Rect| #[trigger]
            part.forward_spec(distance, car.body.rotation_matrix).source == part.source,
{
}

/// Driving straight keeps the wheelbase and the track, so long as no wheel
/// leaves the representable positions.
pub proof fn lemma_straight_drive_is_rigid(car: Car, distance: Fixed)
    requires
        car.steer_angle == 0,
        stays_representable(car.lt.origin, distance, car.body.rotation_matrix),
        stays_representable(car.lb.origin, distance, car.body.rotation_matrix),
        stays_representable(car.rb.origin, distance, car.body.rotation_matrix),
    ensures
        car.forward_spec(distance).wheelbase() == car.wheelbase(),
        car.forward_spec(distance).track() == car.track(),
{
    let m = car.body.rotation_matrix;
    lemma_forward_keeps_distance(car.lt.origin, car.lb.origin, distance, m);
    lemma_forward_keeps_distance(car.lb.origin, car.rb.origin, distance, m);
}

/// Driving in a turn nearly keeps the car rigid. With the wheels steered
/// the car is carried along one rotation about the turning centre, and the
/// squared distance between the centres of any two of its parts changes by
/// at most its `2^-31`-th part and eight raw units for each raw unit of the
/// centres' coordinate differences (`nearly_as_far`): for the wheelbase of
/// some 2.8 m that is a change of less than 2 nm. The parts' centres and the
/// turning centre must be within `REACH`.
pub proof fn lemma_turning_drive_is_nearly_rigid(car: Car, distance: Fixed)
    requires
        car.steer_angle != 0,
        car.parts_in_reach(),
        in_reach(car.angle2origin_spec(car.steer_angle)->Some_0),
    ensures
        car.angle2origin_spec(car.steer_angle) is Some,
        car.forward_spec(distance) == car.rotate_all(
            Rotation::new_spec(
                car.arc_angle(distance, car.angle2origin_spec(car.steer_angle)->Some_0),
                car.angle2origin_spec(car.steer_angle)->Some_0,
            ),
        ),
        forall|i: int, j: int|
            0 <= i < 8 && 0 <= j < 8 ==> nearly_as_far(
                #[trigger] car.part(i).origin,
                #[trigger] car.part(j).origin,
                car.forward_spec(distance).part(i).origin,
                car.forward_spec(distance).part(j).origin,
            ),
{
    let o = car.angle2origin_spec(car.steer_angle)->Some_0;
    let rotation = Rotation::new_spec(car.arc_angle(distance, o), o);
    lemma_rotation_matrix_is_turn(car.arc_angle(distance, o));
    let after = car.forward_spec(distance);
    assert forall|i: int, j: int| 0 <= i < 8 && 0 <= j < 8 implies nearly_as_far(
        #[trigger] car.part(i).origin,
        #[trigger] car.part(j).origin,
        after.part(i).origin,
        after.part(j).origin,
    ) by {
        assert(in_reach(car.part(i).origin));
        assert(in_reach(car.part(j).origin));
        assert(after.part(i).origin == car.part(i).origin.rotate_spec(rotation));
        assert(after.part(j).origin == car.part(j).origin.rotate_spec(rotation));
        lemma_turn_nearly_keeps_distance(car.part(i).origin, car.part(j).origin, rotation);
    }
}

/// Driving in a turn keeps the wheelbase and the track to within
/// `DISTANCE_TOLERANCE` raw units, some 6 nm, for a car whose wheelbase and
/// track lie between one and sixteen metres. The parts' centres and the
/// turning centre must be within `REACH`.
pub proof fn lemma_turning_drive_keeps_wheelbase_and_track(car: Car, distance: Fixed)
    requires
        car.steer_angle != 0,
        car.parts_in_reach(),
        in_reach(car.angle2origin_spec(car.steer_angle)->Some_0),
        within_far(car.lt.origin, car.lb.origin),
        within_far(car.lb.origin, car.rb.origin),
        ONE_RAW <= car.wheelbase()@ <= 16 * ONE_RAW,
        ONE_RAW <= car.track()@ <= 16 * ONE_RAW,
    ensures
        magnitude(car.forward_spec(distance).wheelbase()@ - car.wheelbase()@)
            <= DISTANCE_TOLERANCE,
        magnitude(car.forward_spec(distance).track()@ - car.track()@) <= DISTANCE_TOLERANCE,
{
    lemma_turning_drive_is_nearly_rigid(car, distance);
    let after = car.forward_spec(distance);
    assert(car.part(0) == car.lt && car.part(2) == car.lb && car.part(3) == car.rb);
    assert(after.part(0) == after.lt && after.part(2) == after.lb && after.part(3) == after.rb);
    assert(nearly_as_far(
        car.part(0).origin,
        car.part(2).origin,
        after.part(0).origin,
        after.part(2).origin,
    ));
    assert(nearly_as_far(
        car.part(2).origin,
        car.part(3).origin,
        after.part(2).origin,
        after.part(3).origin,
    ));
    lemma_nearly_as_far_in_distance(
        car.lt.origin,
        car.lb.origin,
        after.lt.origin,
        after.lb.origin,
    );
    lemma_nearly_as_far_in_distance(
        car.lb.origin,
        car.rb.origin,
        after.lb.origin,
        after.rb.origin,
    );
}

/// Driving in a turn keeps the distance between the centres of any two
/// parts that lie between one and sixteen metres apart, to within
/// `DISTANCE_TOLERANCE` raw units: so for the right wheels as for the left
/// ones, and for the front axle as for the rear one. The parts' centres and
/// the turning centre must be within `REACH`.
pub proof fn lemma_turning_drive_keeps_distance(car: Car, distance: Fixed, i: int, j: int)
    requires
        car.steer_angle != 0,
        car.parts_in_reach(),
        in_reach(car.angle2origin_spec(car.steer_angle)->Some_0),
        0 <= i < 8,
        0 <= j < 8,
        within_far(car.part(i).origin, car.part(j).origin),
        ONE_RAW <= distance_spec(car.part(i).origin, car.part(j).origin)@ <= 16 * ONE_RAW,
    ensures
        magnitude(
            distance_spec(
                car.forward_spec(distance).part(i).origin,
                car.forward_spec(distance).part(j).origin,
            )@ - distance_spec(car.part(i).origin, car.part(j).origin)@,
        ) <= DISTANCE_TOLERANCE,
{
    lemma_turning_drive_is_nearly_rigid(car, distance);
    let after = car.forward_spec(distance);
    assert(nearly_as_far(
        car.part(i).origin,
        car.part(j).origin,
        after.part(i).origin,
        after.part(j).origin,
    ));
    lemma_nearly_as_far_in_distance(
        car.part(i).origin,
        car.part(j).origin,
        after.part(i).origin,
        after.part(j).origin,
    );
}

/// Steering succeeds for every car with a wheelbase: where the centres of
/// the left wheels do not coincide, the steering matrices of the front
/// wheels can be had for every turning centre and for none.
pub proof fn lemma_steering_succeeds(car: Car, o: Option<Point>)
    requires
        car.wheelbase()@ > 0,
    ensures
        car.top2_angle_matrix_spec(o) is Ok,
{
    if let Some(o) = o {
        let r = distance_spec(car.back_origin_spec(), o);
        let l = car.wheelbase();
        lemma_steering_matrix_has_inverse(r.add_spec(half_spec(car.track())), l);
        lemma_steering_matrix_has_inverse(r.sub_spec(half_spec(car.track())), l);
    }
}

/// The wheelbase as the measurements give it: the body's length less the
/// two suspensions, 2.795 m (raw).
pub const WHEELBASE: i64 = 12004433593;

/// The largest raw coordinate, in magnitude, of a body's centre for which a
/// new car is known to fit together: `2^57`, half of `REACH`.
pub const START_REACH: i64 = 0x200_0000_0000_0000;

/// Both coordinates of the point are within `START_REACH`.
pub open spec fn can_start_at(o: Point) -> bool {
    &&& -START_REACH <= o.x@ <= START_REACH
    &&& -START_REACH <= o.y@ <= START_REACH
}

/// Half of a number that is not negative is half its raw value, rounded
/// upwards; half of a negative number is the negated half of its magnitude.
pub proof fn lemma_half_value(v: Fixed)
    ensures
        v@ >= 0 ==> half_spec(v)@ == (v@ + 1) / 2,
        v@ < 0 ==> half_spec(v)@ == -((-v@ + 1) / 2),
{
    reveal(Fixed::div_spec);
    let k = ONE_RAW as int;
    let x = magnitude(v@);
    let n = x * k;
    assert(n == 0x1_0000_0000 * x) by (nonlinear_arith)
        requires
            n == x * k,
            k == 0x1_0000_0000,
    ;
    let d = 0x2_0000_0000int;
    assert((2 * n + d) / (2 * d) == (x + 1) / 2) by (nonlinear_arith)
        requires
            n == 0x1_0000_0000 * x,
            d == 0x2_0000_0000,
            0 <= x,
    ;
    assert(round_quot(n, 0x2_0000_0000) == (x + 1) / 2);
}

/// The track of a new car, wherever it starts within `START_REACH` and
/// whatever its heading: posing the car changes it by at most
/// `DISTANCE_TOLERANCE` raw units from the upright car's, which is
/// `TRACK_WIDTH` or one raw unit less. The rear wheels are not far apart.
pub proof fn lemma_new_car_track(body_origin: Point, angle: Fixed, logo: Rect)
    requires
        can_start_at(body_origin),
    ensures
        TRACK_WIDTH - 1 - DISTANCE_TOLERANCE <= Car::new_spec(body_origin, angle, logo).track()@
            <= TRACK_WIDTH + DISTANCE_TOLERANCE,
        within_far(
            Car::new_spec(body_origin, angle, logo).lb.origin,
            Car::new_spec(body_origin, angle, logo).rb.origin,
        ),
{
    let car = Car::new_spec(body_origin, angle, logo);
    let pose = Rotation::new_spec(angle, body_origin);
    let left = Car::wheel_home(body_origin, true, false).origin;
    let right = Car::wheel_home(body_origin, false, false).origin;
    lemma_half_value(Fixed { raw: CAR_HEIGHT });
    lemma_half_value((Fixed { raw: CAR_HEIGHT }).neg_spec());
    lemma_half_value(Fixed { raw: TRACK_WIDTH });
    assert(left.y@ == right.y@);
    assert(right.x@ - left.x@ == TRACK_WIDTH);
    let w = squared_distance(left, right);
    let tw = TRACK_WIDTH as int;
    assert(w == tw * tw) by (nonlinear_arith)
        requires
            w == (left.x@ - right.x@) * (left.x@ - right.x@) + (left.y@ - right.y@) * (left.y@
                - right.y@),
            left.y@ == right.y@,
            right.x@ - left.x@ == tw,
    ;
    lemma_distance_squared(left, right);
    let home = distance_spec(left, right)@;
    if home > tw {
        assert(home * home >= (tw + 1) * (tw + 1)) by (nonlinear_arith)
            requires
                home >= tw + 1,
                tw >= 0,
        ;
        assert((tw + 1) * (tw + 1) == tw * tw + 2 * tw + 1) by (nonlinear_arith);
    }
    if home < tw - 1 {
        assert((home + 1) * (home + 1) <= (tw - 1) * (tw - 1)) by (nonlinear_arith)
            requires
                0 <= home + 1 <= tw - 1,
        ;
        assert((tw - 1) * (tw - 1) == tw * tw - 2 * tw + 1) by (nonlinear_arith);
    }
    assert(tw - 1 <= home <= tw);
    lemma_rotation_matrix_is_turn(angle);
    lemma_turn_nearly_keeps_distance(left, right, pose);
    lemma_nearly_as_far_in_distance(left, right, left.rotate_spec(pose), right.rotate_spec(pose));
    assert(car.lb.origin == left.rotate_spec(pose));
    assert(car.rb.origin == right.rotate_spec(pose));
}

/// A new car fits together and can be steered, wherever it starts within
/// `START_REACH` and whatever its heading: posing the car changes its
/// wheelbase and its track by at most `DISTANCE_TOLERANCE` raw units from
/// the upright car's, which are `WHEELBASE` and `TRACK_WIDTH` or one raw
/// unit less. So the wheelbase is positive and well below the rated turning
/// radius, both lie between one and sixteen metres, and the wheels of one
/// side and those of the rear axle are not far apart.
pub proof fn lemma_new_car_fits(body_origin: Point, angle: Fixed, logo: Rect)
    requires
        can_start_at(body_origin),
    ensures
        Car::new_spec(body_origin, angle, logo).config_ok(),
        WHEELBASE - 1 - DISTANCE_TOLERANCE <= Car::new_spec(body_origin, angle, logo).wheelbase()@
            <= WHEELBASE + DISTANCE_TOLERANCE,
        TRACK_WIDTH - 1 - DISTANCE_TOLERANCE <= Car::new_spec(body_origin, angle, logo).track()@
            <= TRACK_WIDTH + DISTANCE_TOLERANCE,
        ONE_RAW <= Car::new_spec(body_origin, angle, logo).wheelbase()@ <= 16 * ONE_RAW,
        ONE_RAW <= Car::new_spec(body_origin, angle, logo).track()@ <= 16 * ONE_RAW,
        within_far(
            Car::new_spec(body_origin, angle, logo).lt.origin,
            Car::new_spec(body_origin, angle, logo).lb.origin,
        ),
        within_far(
            Car::new_spec(body_origin, angle, logo).lb.origin,
            Car::new_spec(body_origin, angle, logo).rb.origin,
        ),
{
    lemma_new_car_track(body_origin, angle, logo);
    let car = Car::new_spec(body_origin, angle, logo);
    let pose = Rotation::new_spec(angle, body_origin);
    let front = Car::wheel_home(body_origin, true, true).origin;
    let rear = Car::wheel_home(body_origin, true, false).origin;
    lemma_half_value(Fixed { raw: CAR_HEIGHT });
    lemma_half_value((Fixed { raw: CAR_HEIGHT }).neg_spec());
    lemma_half_value(Fixed { raw: TRACK_WIDTH });
    assert(front.x@ == rear.x@);
    assert(front.y@ - rear.y@ == WHEELBASE);
    let w = squared_distance(front, rear);
    let wb = WHEELBASE as int;
    assert(w == wb * wb) by (nonlinear_arith)
        requires
            w == (front.x@ - rear.x@) * (front.x@ - rear.x@) + (front.y@ - rear.y@) * (front.y@
                - rear.y@),
            front.x@ == rear.x@,
            front.y@ - rear.y@ == wb,
    ;
    lemma_distance_squared(front, rear);
    let home = distance_spec(front, rear)@;
    if home > wb {
        assert(home * home >= (wb + 1) * (wb + 1)) by (nonlinear_arith)
            requires
                home >= wb + 1,
                wb >= 0,
        ;
        assert((wb + 1) * (wb + 1) == wb * wb + 2 * wb + 1) by (nonlinear_arith);
    }
    if home < wb - 1 {
        assert((home + 1) * (home + 1) <= (wb - 1) * (wb - 1)) by (nonlinear_arith)
            requires
                0 <= home + 1 <= wb - 1,
        ;
        assert((wb - 1) * (wb - 1) == wb * wb - 2 * wb + 1) by (nonlinear_arith);
    }
    assert(wb - 1 <= home <= wb);
    lemma_rotation_matrix_is_turn(angle);
    lemma_turn_nearly_keeps_distance(front, rear, pose);
    lemma_nearly_as_far_in_distance(
        front,
        rear,
        front.rotate_spec(pose),
        rear.rotate_spec(pose),
    );
    assert(car.lt.origin == front.rotate_spec(pose));
    assert(car.lb.origin == rear.rotate_spec(pose));
    let l = car.wheelbase();
    assert(wb - 28 <= l@ <= wb + 27);
    // the wheelbase squared is below the rated turning radius squared
    let rated = Fixed { raw: TURNING_RADIUS };
    assert(magnitude(rated@) * magnitude(rated@) == 0x5_8000_0000 * 0x5_8000_0000);
    lemma_mul_rounding(rated, rated);
    assert(l@ * l@ <= (wb + 27) * (wb + 27)) by (nonlinear_arith)
        requires
            0 <= l@ <= wb + 27,
    ;
    assert(magnitude(l@) * magnitude(l@) == l@ * l@);
    lemma_mul_rounding(l, l);
}

/// What a car becomes depends on nothing but what it is built of: two
/// results of building a car at the same place, with the same heading and
/// of the same picture are both the same error, or both cars that are alike.
pub proof fn lemma_built_alike(
    r1: Result<Car, CarError>,
    r2: Result<Car, CarError>,
    body_origin: Point,
    angle: Fixed,
    picture: Picture,
)
    requires
        Car::is_built(r1, body_origin, angle, picture),
        Car::is_built(r2, body_origin, angle, picture),
    ensures
        r1 is Ok <==> r2 is Ok,
        r1 is Err ==> r1->Err_0 == r2->Err_0,
        r1 is Ok ==> r1->Ok_0.alike(r2->Ok_0),
{
    match logo_extents_spec(Fixed { raw: LOGO_WIDTH }, picture.width, picture.height) {
        Ok((height, pixel_width, pixel_height)) => {
            if picture.raster@.len() == 4 * pixel_width * pixel_height {
                let anchor = Car::logo_anchor_spec(body_origin);
                let width = Fixed { raw: LOGO_WIDTH };
                let logo1 = choose|logo: Rect|
                    is_logo(logo, anchor, width, height, picture.raster@) && r1
                        == Car::with_logo_spec(body_origin, angle, logo);
                let logo2 = choose|logo: Rect|
                    is_logo(logo, anchor, width, height, picture.raster@) && r2
                        == Car::with_logo_spec(body_origin, angle, logo);
                assert(logo1.alike(logo2));
                lemma_new_cars_alike(body_origin, angle, logo1, logo2);
            }
        },
        Err(e) => {},
    }
}

/// Cars built around logos that are alike are alike, and fit together
/// alike.
pub proof fn lemma_new_cars_alike(body_origin: Point, angle: Fixed, logo1: Rect, logo2: Rect)
    requires
        logo1.alike(logo2),
    ensures
        Car::new_spec(body_origin, angle, logo1).alike(Car::new_spec(body_origin, angle, logo2)),
        Car::new_spec(body_origin, angle, logo1).config_ok() == Car::new_spec(
            body_origin,
            angle,
            logo2,
        ).config_ok(),
{
}

/// Cars that are alike drive alike: after the same distance they are alike
/// again.
pub proof fn lemma_alike_cars_drive_alike(a: Car, b: Car, distance: Fixed)
    requires
        a.alike(b),
    ensures
        a.forward_spec(distance).alike(b.forward_spec(distance)),
{
}

/// Cars that are alike steer alike: at any step both can be steered or
/// neither, and with their front wheels turned they are alike again.
pub proof fn lemma_alike_cars_steer_alike(a: Car, b: Car, step: int)
    requires
        a.alike(b),
    ensures
        a.at_step(step).steer_matrices() == b.at_step(step).steer_matrices(),
        a.at_step(step).steer_matrices() matches Ok((left, right)) ==> a.at_step(
            step,
        ).with_front_wheels(left, right).alike(b.at_step(step).with_front_wheels(left, right)),
{
}

/// Driving in a turn applies one and the same rotation to every part, the
/// rotation about the turning centre of the car as it stood before: each
/// part's centre is turned about that centre, and each part's orientation is
/// multiplied from the left by the one matrix of the arc's angle. No part
/// changes its extents or what it is painted with, and the steering step
/// stays.
pub proof fn lemma_turning_drive_turns_all_parts_alike(car: Car, distance: Fixed)
    requires
        car.steer_angle != 0,
    ensures
        car.angle2origin_spec(car.steer_angle) is Some,
        ({
            let o = car.angle2origin_spec(car.steer_angle)->Some_0;
            let turn = rotation_matrix_spec(car.arc_angle(distance, o));
            let after = car.forward_spec(distance);
            &&& after.steer_angle == car.steer_angle
            &&& forall|i: int|
                0 <= i < 8 ==> {
                    &&& (#[trigger] after.part(i)).origin == car.part(i).origin.rotate_spec(
                        Rotation { rotation_matrix: turn, origin: o },
                    )
                    &&& after.part(i).rotation_matrix == turn.mul_spec(
                        car.part(i).rotation_matrix,
                    )
                    &&& after.part(i).width == car.part(i).width
                    &&& after.part(i).height == car.part(i).height
                    &&& after.part(i).source == car.part(i).source
                }
        }),
{
}

/// A point can move forward by `distance` along the heading of
/// `rotation_matrix` without leaving the representable positions.
pub open spec fn stays_representable(p: Point, distance: Fixed, rotation_matrix: Matrix) -> bool {
    &&& MIN_RAW <= p.y@ + distance@ <= MAX_RAW
    &&& MIN_RAW <= p.x@ + heading_step(distance, rotation_matrix).x@ <= MAX_RAW
    &&& MIN_RAW <= p.y@ + heading_step(distance, rotation_matrix).y@ <= MAX_RAW
}

impl Car {
    /// The steering step is within its range, and every part has positive
    /// extents.
    pub open spec fn wf(self) -> bool {
        &&& -TURNING_COUNT <= self.steer_angle <= TURNING_COUNT
        &&& self.lt.wf()
        &&& self.rt.wf()
        &&& self.lb.wf()
        &&& self.rb.wf()
        &&& self.body.wf()
        &&& self.logo.wf()
        &&& self.left_mirror.wf()
        &&& self.right_mirror.wf()
    }

    /// What building a car around a logo gives: the car of `new_spec` where
    /// its measurements fit together, and `ConfigurationError` otherwise.
    pub open spec fn with_logo_spec(body_origin: Point, angle: Fixed, logo: Rect) -> Result<
        Car,
        CarError,
    > {
        if Car::new_spec(body_origin, angle, logo).config_ok() {
            Ok(Car::new_spec(body_origin, angle, logo))
        } else {
            Err(CarError::ConfigurationError)
        }
    }

    /// `r` is what [`Car::new`] makes of a body's centre, a heading and the
    /// picture of the logo.
    ///
    /// The logo is `LOGO_WIDTH` wide and lies at the logo's anchor. Where no
    /// logo can be made of the picture, `r` is the error of
    /// [`is_new_logo`]. Otherwise `r` is what [`Car::with_logo`] gives for
    /// that logo: the upright rectangle of the logo's extents, painted with
    /// the pixels packed from the picture's raster.
    pub open spec fn is_built(
        r: Result<Car, CarError>,
        body_origin: Point,
        angle: Fixed,
        picture: Picture,
    ) -> bool {
        match logo_extents_spec(Fixed { raw: LOGO_WIDTH }, picture.width, picture.height) {
            Ok((height, pixel_width, pixel_height)) => {
                if picture.raster@.len() == 4 * pixel_width * pixel_height {
                    exists|logo: Rect| #[trigger]
                        is_logo(
                            logo,
                            Car::logo_anchor_spec(body_origin),
                            Fixed { raw: LOGO_WIDTH },
                            height,
                            picture.raster@,
                        ) && r == Car::with_logo_spec(body_origin, angle, logo)
                } else {
                    r == Err::<Car, CarError>(CarError::AssetLoadError)
                }
            },
            Err(e) => r == Err::<Car, CarError>(e),
        }
    }

    /// Two cars are alike: they are steered alike, and each part of the one
    /// is like the same part of the other.
    pub open spec fn alike(self, other: Car) -> bool {
        &&& self.steer_angle == other.steer_angle
        &&& self.lt.alike(other.lt)
        &&& self.rt.alike(other.rt)
        &&& self.lb.alike(other.lb)
        &&& self.rb.alike(other.rb)
        &&& self.body.alike(other.body)
        &&& self.logo.alike(other.logo)
        &&& self.left_mirror.alike(other.left_mirror)
        &&& self.right_mirror.alike(other.right_mirror)
    }

    /// The car's parts, numbered: the four wheels (front left, front right,
    /// rear left, rear right), the body, the logo and the two mirrors.
    pub open spec fn part(self, i: int) -> Rect {
        if i == 0 {
            self.lt
        } else if i == 1 {
            self.rt
        } else if i == 2 {
            self.lb
        } else if i == 3 {
            self.rb
        } else if i == 4 {
            self.body
        } else if i == 5 {
            self.logo
        } else if i == 6 {
            self.left_mirror
        } else {
            self.right_mirror
        }
    }

    /// The centres of all parts are within `REACH`.
    pub open spec fn parts_in_reach(self) -> bool {
        forall|i: int| 0 <= i < 8 ==> in_reach(#[trigger] self.part(i).origin)
    }

    /// The wheelbase: the distance between the left wheels.
    pub open spec fn wheelbase(self) -> Fixed {
        distance_spec(self.lt.origin, self.lb.origin)
    }

    /// The track: the distance between the rear wheels.
    pub open spec fn track(self) -> Fixed {
        distance_spec(self.lb.origin, self.rb.origin)
    }

    /// The middle of the rear axle.
    pub open spec fn back_origin_spec(self) -> Point {
        Point {
            x: half_spec(self.lb.origin.x.add_spec(self.rb.origin.x)),
            y: half_spec(self.lb.origin.y.add_spec(self.rb.origin.y)),
        }
    }

    /// The middle of the front axle.
    pub open spec fn top_origin_spec(self) -> Point {
        Point {
            x: half_spec(self.lt.origin.x.add_spec(self.rt.origin.x)),
            y: half_spec(self.lt.origin.y.add_spec(self.rt.origin.y)),
        }
    }

    /// What stands under the root in the turning radius: the rated turning
    /// radius squared less the wheelbase squared.
    pub open spec fn radicand(self) -> Fixed {
        (Fixed { raw: TURNING_RADIUS }).mul_spec(Fixed { raw: TURNING_RADIUS }).sub_spec(
            self.wheelbase().mul_spec(self.wheelbase()),
        )
    }

    /// The car's measurements fit together: the wheelbase does not exceed
    /// the rated turning radius.
    pub open spec fn config_ok(self) -> bool {
        self.radicand()@ >= 0
    }

    /// The turning radius at a steering step other than zero:
    /// `TURNING_COUNT * (sqrt(TURNING_RADIUS^2 - L^2) - T / 2) / step`.
    /// At the last step the car turns on its rated radius; the sign is the
    /// step's, positive to the left.
    pub open spec fn radius_at(self, angle: i32) -> Fixed {
        Fixed::from_int_spec(TURNING_COUNT).mul_spec(
            self.radicand().sqrt_spec().sub_spec(half_spec(self.track())),
        ).div_spec(Fixed::from_int_spec(angle))
    }

    /// The turning radius at a steering step; none with the wheels straight.
    pub open spec fn angle2r_spec(self, angle: i32) -> Option<Fixed> {
        if angle == 0 {
            None
        } else {
            Some(self.radius_at(angle))
        }
    }

    /// The turning centre for a radius: beside the middle of the rear axle,
    /// at the radius' distance to the left of the body's heading.
    pub open spec fn centre_at(self, r: Fixed) -> Point {
        let back_origin = self.back_origin_spec();
        (Point { x: back_origin.x.sub_spec(r), y: back_origin.y }).rotate_spec(
            Rotation { rotation_matrix: self.body.rotation_matrix, origin: back_origin },
        )
    }

    /// The turning centre at a steering step; none with the wheels straight.
    pub open spec fn angle2origin_spec(self, angle: i32) -> Option<Point> {
        match self.angle2r_spec(angle) {
            Some(r) => Some(self.centre_at(r)),
            None => None,
        }
    }

    /// The matrix of the steering angle whose tangent is `L / r`:
    /// ```text
    /// | r / c  -L / c |
    /// | L / c   r / c |      c = sqrt(r^2 + L^2)
    /// ```
    pub open spec fn angle_matrix_spec(self, r: Fixed) -> Matrix {
        let l = self.wheelbase();
        let c = r.mul_spec(r).add_spec(l.mul_spec(l)).sqrt_spec();
        Matrix {
            m11: r.div_spec(c),
            m12: l.neg_spec().div_spec(c),
            m21: l.div_spec(c),
            m22: r.div_spec(c),
        }
    }

    /// The matrix of the wheel that runs on the wider circle.
    pub open spec fn small_angle_matrix_spec(self, r: Fixed) -> Matrix {
        self.angle_matrix_spec(r.add_spec(half_spec(self.track())))
    }

    /// The matrix of the wheel that runs on the tighter circle.
    pub open spec fn big_angle_matrix_spec(self, r: Fixed) -> Matrix {
        self.angle_matrix_spec(r.sub_spec(half_spec(self.track())))
    }

    /// The front left wheel is nearer to `o` than the front right wheel.
    pub open spec fn left_is_inner(self, o: Point) -> bool {
        distance_spec(self.lt.origin, o)@ < distance_spec(self.rt.origin, o)@
    }

    /// The steering matrices of the front left and the front right wheel
    /// for a turning centre.
    ///
    /// Without a centre both are the identity. With the left wheel nearer
    /// to the centre, the left wheel gets the tighter angle and the right
    /// wheel the wider one. Otherwise the left wheel gets the inverse of the
    /// wider angle's matrix and the right wheel the inverse of the tighter
    /// one's; this fails where one of the two has determinant zero.
    pub open spec fn top2_angle_matrix_spec(self, o: Option<Point>) -> Result<
        (Matrix, Matrix),
        CarError,
    > {
        match o {
            Some(o) => {
                let r = distance_spec(self.back_origin_spec(), o);
                let small = self.small_angle_matrix_spec(r);
                let big = self.big_angle_matrix_spec(r);
                if self.left_is_inner(o) {
                    Ok((big, small))
                } else if small.det_spec()@ == 0 || big.det_spec()@ == 0 {
                    Err(CarError::DegenerateMatrix)
                } else {
                    Ok((small.inverse_spec(), big.inverse_spec()))
                }
            },
            None => Ok((Matrix::eye_spec(), Matrix::eye_spec())),
        }
    }

    /// The car with its front wheels turned by the given matrices, measured
    /// from the body's orientation.
    pub open spec fn with_front_wheels(self, left: Matrix, right: Matrix) -> Car {
        Car {
            lt: Rect { rotation_matrix: left.mul_spec(self.body.rotation_matrix), ..self.lt },
            rt: Rect { rotation_matrix: right.mul_spec(self.body.rotation_matrix), ..self.rt },
            ..self
        }
    }

    /// The car with every part carried along one rotation.
    pub open spec fn rotate_all(self, rotation: Rotation) -> Car {
        Car {
            lt: self.lt.rotate_spec(rotation),
            rt: self.rt.rotate_spec(rotation),
            lb: self.lb.rotate_spec(rotation),
            rb: self.rb.rotate_spec(rotation),
            body: self.body.rotate_spec(rotation),
            steer_angle: self.steer_angle,
            logo: self.logo.rotate_spec(rotation),
            left_mirror: self.left_mirror.rotate_spec(rotation),
            right_mirror: self.right_mirror.rotate_spec(rotation),
        }
    }

    /// The car with every part moved by one distance along one heading.
    pub open spec fn forward_all(self, distance: Fixed, rotation_matrix: Matrix) -> Car {
        Car {
            lt: self.lt.forward_spec(distance, rotation_matrix),
            rt: self.rt.forward_spec(distance, rotation_matrix),
            lb: self.lb.forward_spec(distance, rotation_matrix),
            rb: self.rb.forward_spec(distance, rotation_matrix),
            body: self.body.forward_spec(distance, rotation_matrix),
            steer_angle: self.steer_angle,
            logo: self.logo.forward_spec(distance, rotation_matrix),
            left_mirror: self.left_mirror.forward_spec(distance, rotation_matrix),
            right_mirror: self.right_mirror.forward_spec(distance, rotation_matrix),
        }
    }

    /// The angle by which the car turns about `o` when the middle of its
    /// front axle travels `distance`: the distance over the front axle's
    /// radius, counterclockwise when steering to the left and clockwise
    /// otherwise.
    pub open spec fn arc_angle(self, distance: Fixed, o: Point) -> Fixed {
        distance.div_spec(distance_spec(self.top_origin_spec(), o)).mul_spec(
            if self.steer_angle > 0 {
                Fixed { raw: ONE_RAW }
            } else {
                Fixed { raw: MINUS_ONE_RAW }
            },
        )
    }

    /// The car after driving `distance`: along an arc about the turning
    /// centre where there is one, and straight on otherwise.
    pub open spec fn forward_spec(self, distance: Fixed) -> Car {
        match self.angle2origin_spec(self.steer_angle) {
            Some(o) => self.rotate_all(Rotation::new_spec(self.arc_angle(distance, o), o)),
            None => self.forward_all(distance, self.body.rotation_matrix),
        }
    }

    /// The steering matrices of the front wheels at the car's steering step.
    pub open spec fn steer_matrices(self) -> Result<(Matrix, Matrix), CarError> {
        self.top2_angle_matrix_spec(self.angle2origin_spec(self.steer_angle))
    }

    /// The car with the given steering step.
    pub open spec fn at_step(self, step: int) -> Car {
        Car { steer_angle: step as i32, ..self }
    }

    /// The body before the car is posed: upright, centred at `o`.
    pub open spec fn body_home(o: Point) -> Rect {
        Rect::new_spec(
            o,
            Fixed { raw: CAR_WIDTH },
            Fixed { raw: CAR_HEIGHT },
            Source::Color(body_color()),
        )
    }

    /// Where the front axle crosses the upright body's long axis.
    pub open spec fn front_axle_y(o: Point) -> Fixed {
        half_spec(Fixed { raw: CAR_HEIGHT }).add_spec(o.y).sub_spec(Fixed { raw: FRONT_SUSPENSION })
    }

    /// Where the rear axle crosses the upright body's long axis.
    pub open spec fn rear_axle_y(o: Point) -> Fixed {
        half_spec((Fixed { raw: CAR_HEIGHT }).neg_spec()).add_spec(o.y).add_spec(
            Fixed { raw: REAR_SUSPENSION },
        )
    }

    /// A wheel before the car is posed: half the track to the left or the
    /// right of the body's centre, on the front or the rear axle.
    pub open spec fn wheel_home(o: Point, left: bool, front: bool) -> Rect {
        Rect::new_spec(
            Point {
                x: if left {
                    o.x.sub_spec(half_spec(Fixed { raw: TRACK_WIDTH }))
                } else {
                    o.x.add_spec(half_spec(Fixed { raw: TRACK_WIDTH }))
                },
                y: if front {
                    Car::front_axle_y(o)
                } else {
                    Car::rear_axle_y(o)
                },
            },
            Fixed { raw: WHEEL_WIDTH },
            Fixed { raw: WHEEL_HEIGHT },
            Source::Color(wheel_color()),
        )
    }

    /// Where the middle of the logo's front edge lies before the car is
    /// posed: on the body's long axis, `LOGO_INSET` behind its front edge.
    pub open spec fn logo_anchor_spec(o: Point) -> Point {
        Point {
            x: o.x,
            y: o.y.add_spec(half_spec(Fixed { raw: CAR_HEIGHT })).sub_spec(
                Fixed { raw: LOGO_INSET },
            ),
        }
    }

    /// The logo before the car is posed: moved back by half its height,
    /// so that its front edge comes to lie where its centre was.
    pub open spec fn logo_home(logo: Rect) -> Rect {
        Rect {
            origin: Point {
                x: logo.origin.x,
                y: logo.origin.y.sub_spec(half_spec(logo.height)),
            },
            ..logo
        }
    }

    /// The angle by which a mirror stands off from lying across the body.
    pub open spec fn mirror_tilt() -> Fixed {
        (Fixed { raw: QUARTER_TURN_RAW }).sub_spec(Fixed { raw: MIRROR_ANGLE })
    }

    /// A mirror lying across the body's side, before it is tilted.
    pub open spec fn mirror_across(o: Point, left: bool) -> Rect {
        Rect::new_spec(
            Point {
                x: if left {
                    o.x.sub_spec(half_spec(Fixed { raw: CAR_WIDTH })).sub_spec(
                        half_spec(Fixed { raw: MIRROR_HEIGHT }),
                    )
                } else {
                    o.x.add_spec(half_spec(Fixed { raw: CAR_WIDTH })).add_spec(
                        half_spec(Fixed { raw: MIRROR_HEIGHT }),
                    )
                },
                y: o.y.add_spec(half_spec(Fixed { raw: CAR_HEIGHT })).sub_spec(
                    Fixed { raw: MIRROR_ORIGIN_TO_FRONT },
                ),
            },
            Fixed { raw: MIRROR_WIDTH },
            Fixed { raw: MIRROR_HEIGHT },
            Source::Color(body_color()),
        ).rotate_self_spec(rotation_matrix_spec(Fixed { raw: QUARTER_TURN_RAW }))
    }

    /// A mirror before the car is posed: tilted backwards about the corner
    /// at which it meets the body, the left one counterclockwise about its
    /// right bottom corner, the right one clockwise about its right top
    /// corner.
    pub open spec fn mirror_home(o: Point, left: bool) -> Rect {
        let across = Car::mirror_across(o, left);
        if left {
            across.rotate_spec(
                Rotation::new_spec(Car::mirror_tilt(), across.corner_spec(false, false)),
            )
        } else {
            across.rotate_spec(
                Rotation::new_spec(Car::mirror_tilt().neg_spec(), across.corner_spec(false, true)),
            )
        }
    }

    /// The car with its body's centre at `body_origin`, turned by `angle`
    /// about that centre, with the wheels straight. `logo` is the logo as
    /// it was drawn, centred at the logo's anchor.
    pub open spec fn new_spec(body_origin: Point, angle: Fixed, logo: Rect) -> Car {
        let pose = Rotation::new_spec(angle, body_origin);
        Car {
            lt: Car::wheel_home(body_origin, true, true).rotate_spec(pose),
            rt: Car::wheel_home(body_origin, false, true).rotate_spec(pose),
            lb: Car::wheel_home(body_origin, true, false).rotate_spec(pose),
            rb: Car::wheel_home(body_origin, false, false).rotate_spec(pose),
            body: Car::body_home(body_origin).rotate_spec(pose),
            steer_angle: 0,
            logo: Car::logo_home(logo).rotate_spec(pose),
            left_mirror: Car::mirror_home(body_origin, true).rotate_spec(pose),
            right_mirror: Car::mirror_home(body_origin, false).rotate_spec(pose),
        }
    }

    /// Where a logo is to be drawn for a car whose body is centred at
    /// `body_origin`, before the car is posed.
    pub fn logo_anchor(body_origin: Point) -> (r: Point)
        ensures
            r == Car::logo_anchor_spec(body_origin),
    {
        point2(
            body_origin.x,
            body_origin.y.add(half(Fixed::from_raw(CAR_HEIGHT))).sub(Fixed::from_raw(LOGO_INSET)),
        )
    }

    /// The extents at which the logo's picture is to be drawn for a car:
    /// the logo's height in metres, and its width and height in pixels.
    pub fn logo_extents(picture_width: Fixed, picture_height: Fixed) -> (r: Result<
        (Fixed, u32, u32),
        CarError,
    >)
        ensures
            r == logo_extents_spec(Fixed { raw: LOGO_WIDTH }, picture_width, picture_height),
    {
        logo_extents(Fixed::from_raw(LOGO_WIDTH), picture_width, picture_height)
    }

    /// Builds a car around the picture of its logo, drawn at the extents of
    /// [`Car::logo_extents`].
    ///
    /// The body's centre comes to lie at `body_origin`, and the whole car
    /// is turned by `angle` about it; the wheels are straight. The result
    /// is `InvalidDimension` or `AssetLoadError` where no logo can be made
    /// of the picture, and `ConfigurationError` where the wheelbase of the
    /// car as built exceeds the rated turning radius, which does not happen
    /// within `START_REACH`; see [`Car::is_built`].
    pub fn new(body_origin: Point, angle: Fixed, picture: &Picture) -> (r: Result<Car, CarError>)
        ensures
            Car::is_built(r, body_origin, angle, *picture),
            r is Ok ==> r->Ok_0.wf() && r->Ok_0.config_ok(),
            r == Err::<Car, CarError>(CarError::ConfigurationError) ==> !can_start_at(body_origin),
    {
        let logo: Rect = match new_logo(
            Car::logo_anchor(body_origin),
            Fixed::from_raw(LOGO_WIDTH),
            picture,
        ) {
            Ok(logo) => logo,
            Err(e) => {
                return Err(e);
            },
        };
        let car: Result<Car, CarError> = Car::with_logo(body_origin, angle, logo);
        proof {
            let height = logo.height;
            assert(is_logo(
                logo,
                Car::logo_anchor_spec(body_origin),
                Fixed { raw: LOGO_WIDTH },
                height,
                picture.raster@,
            ) && car == Car::with_logo_spec(body_origin, angle, logo));
        }
        car
    }

    /// The body before the car is posed.
    fn body_at(o: Point) -> (r: Rect)
        ensures
            r == Car::body_home(o),
            r.wf(),
    {
        let body_color: Color = Color { r: 24, g: 174, b: 219 };
        Rect::new(
            o,
            Fixed::from_raw(CAR_WIDTH),
            Fixed::from_raw(CAR_HEIGHT),
            Source::Color(body_color),
        ).unwrap()
    }

    /// A wheel before the car is posed.
    fn wheel_at(o: Point, left: bool, front: bool) -> (r: Rect)
        ensures
            r == Car::wheel_home(o, left, front),
            r.wf(),
    {
        let wheel_color: Color = Color { r: 0, g: 0, b: 0 };
        let car_height: Fixed = Fixed::from_raw(CAR_HEIGHT);
        let track_width: Fixed = Fixed::from_raw(TRACK_WIDTH);
        let x: Fixed = if left {
            o.x.sub(half(track_width))
        } else {
            o.x.add(half(track_width))
        };
        let y: Fixed = if front {
            half(car_height).add(o.y).sub(Fixed::from_raw(FRONT_SUSPENSION))
        } else {
            half(car_height.neg()).add(o.y).add(Fixed::from_raw(REAR_SUSPENSION))
        };
        Rect::new(
            point2(x, y),
            Fixed::from_raw(WHEEL_WIDTH),
            Fixed::from_raw(WHEEL_HEIGHT),
            Source::Color(wheel_color),
        ).unwrap()
    }

    /// The logo before the car is posed.
    fn logo_at(logo: Rect) -> (r: Rect)
        ensures
            r == Car::logo_home(logo),
    {
        let mut logo: Rect = logo;
        logo.origin.y = logo.origin.y.sub(half(logo.height));
        logo
    }

    /// A mirror before the car is posed.
    fn mirror_at(o: Point, left: bool) -> (r: Rect)
        ensures
            r == Car::mirror_home(o, left),
            r.wf(),
    {
        let body_color: Color = Color { r: 24, g: 174, b: 219 };
        let car_width: Fixed = Fixed::from_raw(CAR_WIDTH);
        let car_height: Fixed = Fixed::from_raw(CAR_HEIGHT);
        let mirror_height: Fixed = Fixed::from_raw(MIRROR_HEIGHT);
        let quarter_turn: Fixed = Fixed::from_raw(QUARTER_TURN_RAW);
        let tilt: Fixed = quarter_turn.sub(Fixed::from_raw(MIRROR_ANGLE));
        let x: Fixed = if left {
            o.x.sub(half(car_width)).sub(half(mirror_height))
        } else {
            o.x.add(half(car_width)).add(half(mirror_height))
        };
        let y: Fixed = o.y.add(half(car_height)).sub(Fixed::from_raw(MIRROR_ORIGIN_TO_FRONT));
        let mut mirror: Rect = Rect::new(
            point2(x, y),
            Fixed::from_raw(MIRROR_WIDTH),
            mirror_height,
            Source::Color(body_color),
        ).unwrap();
        mirror.rotate_self(new_rotation_matrix(quarter_turn));
        if left {
            let foot: Point = mirror.rb();
            mirror.rotate(Rotation::new(tilt, foot));
        } else {
            let foot: Point = mirror.rt();
            mirror.rotate(Rotation::new(tilt.neg(), foot));
        }
        mirror
    }

    /// Builds the car around a logo that has been drawn already.
    ///
    /// The body's centre comes to lie at `body_origin`, and the whole car
    /// is turned by `angle` about it; the wheels are straight. The one
    /// failure is `ConfigurationError`, where the wheelbase of the car as
    /// built exceeds the rated turning radius; a car that starts within
    /// `START_REACH` is always built.
    pub fn with_logo(body_origin: Point, angle: Fixed, logo: Rect) -> (r: Result<Car, CarError>)
        ensures
            r == Car::with_logo_spec(body_origin, angle, logo),
            r is Ok && logo.wf() ==> r->Ok_0.wf(),
            can_start_at(body_origin) ==> r is Ok,
    {
        proof {
            if can_start_at(body_origin) {
                lemma_new_car_fits(body_origin, angle, logo);
            }
        }
        let mut body: Rect = Car::body_at(body_origin);
        let mut lt: Rect = Car::wheel_at(body_origin, true, true);
        let mut rt: Rect = Car::wheel_at(body_origin, false, true);
        let mut lb: Rect = Car::wheel_at(body_origin, true, false);
        let mut rb: Rect = Car::wheel_at(body_origin, false, false);
        let mut logo: Rect = Car::logo_at(logo);
        let mut left_mirror: Rect = Car::mirror_at(body_origin, true);
        let mut right_mirror: Rect = Car::mirror_at(body_origin, false);
        let rotation: Rotation = Rotation::new(angle, body_origin);
        body.rotate(rotation);
        lt.rotate(rotation);
        rt.rotate(rotation);
        lb.rotate(rotation);
        rb.rotate(rotation);
        logo.rotate(rotation);
        left_mirror.rotate(rotation);
        right_mirror.rotate(rotation);
        let car: Car = Car {
            lt,
            rt,
            lb,
            rb,
            body,
            steer_angle: 0,
            logo,
            left_mirror,
            right_mirror,
        };
        match car.check_configuration() {
            Ok(()) => Ok(car),
            Err(e) => Err(e),
        }
    }

    /// Checks that the car's measurements fit together: the wheelbase must
    /// not exceed the rated turning radius, or there is no turning radius to
    /// steer by. Otherwise the result is `ConfigurationError`.
    pub fn check_configuration(&self) -> (r: Result<(), CarError>)
        ensures
            self.config_ok() ==> r == Ok::<(), CarError>(()),
            !self.config_ok() ==> r == Err::<(), CarError>(CarError::ConfigurationError),
    {
        let turning_radius: Fixed = Fixed::from_raw(TURNING_RADIUS);
        let radicand: Fixed = turning_radius.mul(turning_radius).sub(self.L().mul(self.L()));
        if radicand.lt(Fixed::zero()) {
            Err(CarError::ConfigurationError)
        } else {
            Ok(())
        }
    }

    /// The wheelbase.
    #[allow(non_snake_case)]
    pub fn L(&self) -> (r: Fixed)
        ensures
            r == self.wheelbase(),
            r@ >= 0,
    {
        distance_of(self.lt.origin, self.lb.origin)
    }

    /// The track.
    #[allow(non_snake_case)]
    pub fn T(&self) -> (r: Fixed)
        ensures
            r == self.track(),
            r@ >= 0,
    {
        distance_of(self.lb.origin, self.rb.origin)
    }

    /// The middle of the rear axle.
    pub fn back_origin(&self) -> (r: Point)
        ensures
            r == self.back_origin_spec(),
    {
        point2(
            half(self.lb.origin.x.add(self.rb.origin.x)),
            half(self.lb.origin.y.add(self.rb.origin.y)),
        )
    }

    /// The middle of the front axle.
    pub fn top_origin(&self) -> (r: Point)
        ensures
            r == self.top_origin_spec(),
    {
        point2(
            half(self.lt.origin.x.add(self.rt.origin.x)),
            half(self.lt.origin.y.add(self.rt.origin.y)),
        )
    }

    /// The steering step.
    pub fn steer_angle(&self) -> (r: i32)
        ensures
            r == self.steer_angle,
    {
        self.steer_angle
    }

    /// The turning radius at a steering step: positive to the left,
    /// negative to the right, none with the wheels straight.
    pub fn angle2r(&self, angle: i32) -> (r: Option<Fixed>)
        ensures
            r == self.angle2r_spec(angle),
            r is None <==> angle == 0,
    {
        if angle == 0 {
            None
        } else {
            let turning_radius: Fixed = Fixed::from_raw(TURNING_RADIUS);
            let radicand: Fixed = turning_radius.mul(turning_radius).sub(self.L().mul(self.L()));
            Some(
                Fixed::from_int(TURNING_COUNT).mul(radicand.sqrt().sub(half(self.T()))).div(
                    Fixed::from_int(angle),
                ),
            )
        }
    }

    /// The turning centre at a steering step; none with the wheels straight.
    pub fn angle2origin(&self, angle: i32) -> (r: Option<Point>)
        ensures
            r == self.angle2origin_spec(angle),
            r is None <==> angle == 0,
    {
        match self.angle2r(angle) {
            Some(r) => {
                let back_origin: Point = self.back_origin();
                let origin_before_trans: Point = point2(back_origin.x.sub(r), back_origin.y);
                Some(
                    origin_before_trans.rotate(
                        Rotation {
                            rotation_matrix: self.body.rotation_matrix,
                            origin: back_origin,
                        },
                    ),
                )
            },
            None => None,
        }
    }

    /// The matrix of the steering angle whose tangent is `L / r`.
    pub fn angle_matrix(&self, r: Fixed) -> (m: Matrix)
        ensures
            m == self.angle_matrix_spec(r),
    {
        let c: Fixed = r.mul(r).add(self.L().mul(self.L())).sqrt();
        Matrix::new(r.div(c), self.L().neg().div(c), self.L().div(c), r.div(c))
    }

    /// The matrix of the wheel that runs on the wider circle.
    pub fn small_angle_matrix(&self, r: Fixed) -> (m: Matrix)
        ensures
            m == self.small_angle_matrix_spec(r),
    {
        self.angle_matrix(r.add(half(self.T())))
    }

    /// The matrix of the wheel that runs on the tighter circle.
    pub fn big_angle_matrix(&self, r: Fixed) -> (m: Matrix)
        ensures
            m == self.big_angle_matrix_spec(r),
    {
        self.angle_matrix(r.sub(half(self.T())))
    }

    /// The steering matrices of the front left and the front right wheel for
    /// a turning centre; see [`Car::top2_angle_matrix_spec`].
    pub fn top2_angle_matrix(&self, o: Option<Point>) -> (r: Result<(Matrix, Matrix), CarError>)
        ensures
            r == self.top2_angle_matrix_spec(o),
            o is None ==> r is Ok,
            self.wheelbase()@ > 0 ==> r is Ok,
            r is Err ==> r == Err::<(Matrix, Matrix), CarError>(CarError::DegenerateMatrix),
    {
        proof {
            if self.wheelbase()@ > 0 {
                lemma_steering_succeeds(*self, o);
            }
        }
        match o {
            Some(o) => {
                let r: Fixed = distance_of(self.back_origin(), o);
                if distance_of(self.lt.origin, o).lt(distance_of(self.rt.origin, o)) {
                    Ok((self.big_angle_matrix(r), self.small_angle_matrix(r)))
                } else {
                    let small: Result<Matrix, CarError> = self.small_angle_matrix(r).inverse();
                    let big: Result<Matrix, CarError> = self.big_angle_matrix(r).inverse();
                    match (small, big) {
                        (Ok(s), Ok(b)) => Ok((s, b)),
                        _ => Err(CarError::DegenerateMatrix),
                    }
                }
            },
            None => Ok((Matrix::eye(), Matrix::eye())),
        }
    }

    /// Turns the front wheels to the angles of the car's steering step.
    /// Nothing changes where the angles cannot be had.
    pub fn steer(&mut self) -> (r: Result<(), CarError>)
        ensures
            match old(self).steer_matrices() {
                Ok((left, right)) => r is Ok && *final(self) == old(self).with_front_wheels(
                    left,
                    right,
                ),
                Err(e) => r == Err::<(), CarError>(e) && *final(self) == *old(self),
            },
            r is Err ==> r == Err::<(), CarError>(CarError::DegenerateMatrix),
            old(self).wheelbase()@ > 0 ==> r is Ok,
            old(self).wf() ==> final(self).wf(),
    {
        let o_new: Option<Point> = self.angle2origin(self.steer_angle);
        match self.top2_angle_matrix(o_new) {
            Ok((lt, rt)) => {
                self.lt.rotation_matrix = lt.mul(self.body.rotation_matrix);
                self.rt.rotation_matrix = rt.mul(self.body.rotation_matrix);
                Ok(())
            },
            Err(e) => Err(e),
        }
    }

    /// Drives the car by `distance`, backwards where it is negative. Every
    /// part is carried along the same rotation about the turning centre, or,
    /// with the wheels straight, moved by the same step along the body's
    /// heading. The centre and the heading are those from before the call.
    pub fn forward(&mut self, distance: Fixed)
        ensures
            *final(self) == old(self).forward_spec(distance),
            final(self).steer_angle == old(self).steer_angle,
            old(self).wf() ==> final(self).wf(),
    {
        let o: Option<Point> = self.angle2origin(self.steer_angle);
        if let Some(o) = o {
            let sign: Fixed = if self.steer_angle > 0 {
                Fixed::from_raw(ONE_RAW)
            } else {
                Fixed::from_raw(MINUS_ONE_RAW)
            };
            let angle: Fixed = distance.div(distance_of(self.top_origin(), o)).mul(sign);
            let rotation: Rotation = Rotation::new(angle, o);
            self.lt.rotate(rotation);
            self.rt.rotate(rotation);
            self.lb.rotate(rotation);
            self.rb.rotate(rotation);
            self.body.rotate(rotation);
            self.logo.rotate(rotation);
            self.left_mirror.rotate(rotation);
            self.right_mirror.rotate(rotation);
        } else {
            let rotation_matrix: Matrix = self.body.rotation_matrix;
            self.lt.forward(distance, rotation_matrix);
            self.rt.forward(distance, rotation_matrix);
            self.lb.forward(distance, rotation_matrix);
            self.rb.forward(distance, rotation_matrix);
            self.body.forward(distance, rotation_matrix);
            self.logo.forward(distance, rotation_matrix);
            self.left_mirror.forward(distance, rotation_matrix);
            self.right_mirror.forward(distance, rotation_matrix);
        }
    }

    /// Steers one step to the left and turns the front wheels accordingly.
    /// At the last step to the left, and where the wheels' angles cannot be
    /// had, nothing changes.
    pub fn left_steer(&mut self) -> (r: Result<(), CarError>)
        ensures
            old(self).steer_angle >= TURNING_COUNT ==> r is Ok && *final(self) == *old(self),
            old(self).steer_angle < TURNING_COUNT ==> match old(self).at_step(
                old(self).steer_angle + 1,
            ).steer_matrices() {
                Ok((left, right)) => r is Ok && *final(self) == old(self).at_step(
                    old(self).steer_angle + 1,
                ).with_front_wheels(left, right),
                Err(e) => r == Err::<(), CarError>(e) && *final(self) == *old(self),
            },
            r is Ok ==> final(self).steer_angle == left_of(old(self).steer_angle as int),
            r is Err ==> r == Err::<(), CarError>(CarError::DegenerateMatrix),
            old(self).wheelbase()@ > 0 ==> r is Ok,
            old(self).wf() ==> final(self).wf(),
    {
        if self.steer_angle < TURNING_COUNT {
            self.steer_angle += 1;
            match self.steer() {
                Ok(()) => Ok(()),
                Err(e) => {
                    self.steer_angle -= 1;
                    Err(e)
                },
            }
        } else {
            Ok(())
        }
    }

    /// Steers one step to the right and turns the front wheels accordingly.
    /// At the last step to the right, and where the wheels' angles cannot be
    /// had, nothing changes.
    pub fn right_steer(&mut self) -> (r: Result<(), CarError>)
        ensures
            old(self).steer_angle <= -TURNING_COUNT ==> r is Ok && *final(self) == *old(self),
            old(self).steer_angle > -TURNING_COUNT ==> match old(self).at_step(
                old(self).steer_angle - 1,
            ).steer_matrices() {
                Ok((left, right)) => r is Ok && *final(self) == old(self).at_step(
                    old(self).steer_angle - 1,
                ).with_front_wheels(left, right),
                Err(e) => r == Err::<(), CarError>(e) && *final(self) == *old(self),
            },
            r is Ok ==> final(self).steer_angle == right_of(old(self).steer_angle as int),
            r is Err ==> r == Err::<(), CarError>(CarError::DegenerateMatrix),
            old(self).wheelbase()@ > 0 ==> r is Ok,
            old(self).wf() ==> final(self).wf(),
    {
        if self.steer_angle > -TURNING_COUNT {
            self.steer_angle -= 1;
            match self.steer() {
                Ok(()) => Ok(()),
                Err(e) => {
                    self.steer_angle += 1;
                    Err(e)
                },
            }
        } else {
            Ok(())
        }
    }
}

} // verus!
