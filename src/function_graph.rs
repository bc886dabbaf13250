use vstd::prelude::*;

use crate::fixed::{between, MAX_WORLD, UNIT};
use crate::objects::{MathEntity, MathObject, Position2D, Style};
use crate::text::digits;

verus! {

/// Number of points sampled along a graph or a curve.
pub const SAMPLE_COUNT: u32 = 100;

/// The `i`-th of `count` evenly spaced samples from `start` to `end`, both
/// ends included, rounded down to a millionth.
pub open spec fn sample_at(start: int, end: int, count: int, i: int) -> int {
    start + (i * (end - start)) / (count - 1)
}

/// The graph of a function of one variable, sampled over a domain.
#[derive(Debug)]
pub struct FunctionGraph {
    pub domain_start: i64,
    pub domain_end: i64,
    pub sample_count: u32,
    pub points: Vec<Position2D>,
}

/// A curve traced by a pair of functions of one parameter.
#[derive(Debug)]
pub struct ParametricCurve {
    pub param_start: i64,
    pub param_end: i64,
    pub sample_count: u32,
    pub points: Vec<Position2D>,
}

impl Default for FunctionGraph {
    /// The domain `[-5, 5]`, not yet sampled.
    fn default() -> (r: FunctionGraph)
        ensures
            r.domain_start == -5 * UNIT && r.domain_end == 5 * UNIT,
            r.sample_count == SAMPLE_COUNT,
            r.points@.len() == 0,
    {
        FunctionGraph {
            domain_start: -5 * UNIT,
            domain_end: 5 * UNIT,
            sample_count: SAMPLE_COUNT,
            points: Vec::new(),
        }
    }
}

impl Default for ParametricCurve {
    /// The parameter range `[0, 1]`, not yet sampled.
    fn default() -> (r: ParametricCurve)
        ensures
            r.param_start == 0 && r.param_end == UNIT,
            r.sample_count == SAMPLE_COUNT,
            r.points@.len() == 0,
    {
        ParametricCurve { param_start: 0, param_end: UNIT, sample_count: SAMPLE_COUNT, points: Vec::new() }
    }
}

/// The `i`-th of `count` evenly spaced samples of `[start, end]`.
pub fn sample(start: i64, end: i64, count: u32, i: u32) -> (r: i64)
    requires
        -MAX_WORLD <= start <= MAX_WORLD,
        -MAX_WORLD <= end <= MAX_WORLD,
        2 <= count,
        i < count,
    ensures
        r == sample_at(start as int, end as int, count as int, i as int),
        -MAX_WORLD <= r <= MAX_WORLD,
{
    let d: i128 = end as i128 - start as i128;
    let n: i128 = count as i128 - 1;
    assert(-0x1_0000_0000 * 0x4000_0000_0000_0000 <= i * d <= 0x1_0000_0000 * 0x4000_0000_0000_0000)
        by (nonlinear_arith)
        requires
            0 <= i < 0x1_0000_0000,
            -0x4000_0000_0000_0000 <= d <= 0x4000_0000_0000_0000,
    ;
    let num: i128 = i as i128 * d;
    let q: i128 = if num >= 0 {
        ((num as u128) / (n as u128)) as i128
    } else {
        let m: u128 = ((-num) as u128 + (n as u128) - 1) / (n as u128);
        assert(-(m as int) == num as int / n as int) by (nonlinear_arith)
            requires
                m as int == (-num + n - 1) / (n as int),
                num < 0,
                n >= 1,
        ;
        -(m as i128)
    };
    proof {
        lemma_sample_within(start as int, end as int, n as int, i as int);
    }
    (start as i128 + q) as i64
}

proof fn lemma_sample_within(start: int, end: int, n: int, i: int)
    requires
        n >= 1,
        0 <= i <= n,
    ensures
        between(start + (i * (end - start)) / n, start, end),
{
    let d = end - start;
    if d >= 0 {
        assert(0 <= i * d <= n * d) by (nonlinear_arith)
            requires
                d >= 0,
                0 <= i <= n,
        ;
        assert(0 <= (i * d) / n <= (n * d) / n) by (nonlinear_arith)
            requires
                0 <= i * d <= n * d,
                n >= 1,
        ;
        assert((n * d) / n == d) by (nonlinear_arith)
            requires
                n >= 1,
        ;
    } else {
        assert(n * d <= i * d <= 0) by (nonlinear_arith)
            requires
                d < 0,
                0 <= i <= n,
        ;
        assert((n * d) / n <= (i * d) / n <= 0) by (nonlinear_arith)
            requires
                n * d <= i * d <= 0,
                n >= 1,
        ;
        assert((n * d) / n == d) by (nonlinear_arith)
            requires
                n >= 1,
        ;
    }
}

/// The graph of `func` over `domain`, sampled at `SAMPLE_COUNT` evenly
/// spaced points from one end to the other; in layer 0 at the origin, with
/// an id `function_<number>`.
pub fn create_function_graph<F: Fn(i64) -> i64>(func: F, domain: (i64, i64), style: Style) -> (r:
    MathEntity<FunctionGraph>)
    requires
        -MAX_WORLD <= domain.0 <= MAX_WORLD,
        -MAX_WORLD <= domain.1 <= MAX_WORLD,
        forall|x: i64| func.requires((x,)),
    ensures
        r.shape.domain_start == domain.0 && r.shape.domain_end == domain.1,
        r.shape.sample_count == SAMPLE_COUNT,
        r.shape.points@.len() == SAMPLE_COUNT,
        forall|i: int|
            0 <= i < SAMPLE_COUNT ==> {
                let p = #[trigger] r.shape.points@[i];
                &&& p.x == sample_at(domain.0 as int, domain.1 as int, SAMPLE_COUNT as int, i)
                &&& func.ensures((p.x,), p.y)
            },
        exists|n: nat| n <= u32::MAX && r.object.id@ == "function_"@ + #[trigger] digits(n),
        r.object.visible && r.object.layer == 0,
        r.position == (Position2D { x: 0, y: 0 }),
        r.style == style,
{
    let mut points: Vec<Position2D> = Vec::new();
    let mut i: u32 = 0;
    while i < SAMPLE_COUNT
        invariant
            i <= SAMPLE_COUNT,
            -MAX_WORLD <= domain.0 <= MAX_WORLD,
            -MAX_WORLD <= domain.1 <= MAX_WORLD,
            forall|x: i64| func.requires((x,)),
            points@.len() == i,
            forall|j: int|
                0 <= j < i ==> {
                    let p = #[trigger] points@[j];
                    &&& p.x == sample_at(domain.0 as int, domain.1 as int, SAMPLE_COUNT as int, j)
                    &&& func.ensures((p.x,), p.y)
                },
        decreases SAMPLE_COUNT - i,
    {
        let x = sample(domain.0, domain.1, SAMPLE_COUNT, i);
        let y = func(x);
        points.push(Position2D { x, y });
        i = i + 1;
    }
    MathEntity {
        object: MathObject { id: crate::objects::fresh_id("function_"), visible: true, layer: 0 },
        shape: FunctionGraph {
            domain_start: domain.0,
            domain_end: domain.1,
            sample_count: SAMPLE_COUNT,
            points,
        },
        position: Position2D { x: 0, y: 0 },
        style,
    }
}

/// The `i`-th point of a curve is `(x_func(t), y_func(t))` for the `i`-th
/// sample `t` of the parameter range.
pub open spec fn curve_point_ok<F: Fn(i64) -> i64, G: Fn(i64) -> i64>(
    p: Position2D,
    x_func: &F,
    y_func: &G,
    param_range: (i64, i64),
    i: int,
) -> bool {
    let t = sample_at(param_range.0 as int, param_range.1 as int, SAMPLE_COUNT as int, i);
    &&& -MAX_WORLD <= t <= MAX_WORLD
    &&& x_func.ensures((t as i64,), p.x)
    &&& y_func.ensures((t as i64,), p.y)
}

/// The curve `(x_func(t), y_func(t))` for `t` at `SAMPLE_COUNT` evenly
/// spaced points of `param_range`; in layer 0 at the origin, with an id
/// `curve_<number>`.
pub fn create_parametric_curve<F: Fn(i64) -> i64, G: Fn(i64) -> i64>(
    x_func: F,
    y_func: G,
    param_range: (i64, i64),
    style: Style,
) -> (r: MathEntity<ParametricCurve>)
    requires
        -MAX_WORLD <= param_range.0 <= MAX_WORLD,
        -MAX_WORLD <= param_range.1 <= MAX_WORLD,
        forall|t: i64| x_func.requires((t,)),
        forall|t: i64| y_func.requires((t,)),
    ensures
        r.shape.param_start == param_range.0 && r.shape.param_end == param_range.1,
        r.shape.sample_count == SAMPLE_COUNT,
        r.shape.points@.len() == SAMPLE_COUNT,
        forall|i: int|
            0 <= i < SAMPLE_COUNT ==> curve_point_ok(#[trigger] r.shape.points@[i], &x_func, &y_func, param_range, i),
        exists|n: nat| n <= u32::MAX && r.object.id@ == "curve_"@ + #[trigger] digits(n),
        r.object.visible && r.object.layer == 0,
        r.position == (Position2D { x: 0, y: 0 }),
        r.style == style,
{
    let mut points: Vec<Position2D> = Vec::new();
    let mut i: u32 = 0;
    while i < SAMPLE_COUNT
        invariant
            i <= SAMPLE_COUNT,
            -MAX_WORLD <= param_range.0 <= MAX_WORLD,
            -MAX_WORLD <= param_range.1 <= MAX_WORLD,
            forall|t: i64| x_func.requires((t,)),
            forall|t: i64| y_func.requires((t,)),
            points@.len() == i,
            forall|j: int| 0 <= j < i ==> curve_point_ok(#[trigger] points@[j], &x_func, &y_func, param_range, j),
        decreases SAMPLE_COUNT - i,
    {
        let t = sample(param_range.0, param_range.1, SAMPLE_COUNT, i);
        let x = x_func(t);
        let y = y_func(t);
        points.push(Position2D { x, y });
        proof {
            assert(curve_point_ok(points@[i as int], &x_func, &y_func, param_range, i as int));
        }
        i = i + 1;
    }
    MathEntity {
        object: MathObject { id: crate::objects::fresh_id("curve_"), visible: true, layer: 0 },
        shape: ParametricCurve {
            param_start: param_range.0,
            param_end: param_range.1,
            sample_count: SAMPLE_COUNT,
            points,
        },
        position: Position2D { x: 0, y: 0 },
        style,
    }
}

impl FunctionGraph {
    /// A graph that has lost its points is sampled again, along `y = x`;
    /// one that has points keeps them.
    pub fn update_function_graph(&mut self)
        requires
            -MAX_WORLD <= old(self).domain_start <= MAX_WORLD,
            -MAX_WORLD <= old(self).domain_end <= MAX_WORLD,
            old(self).sample_count >= 2,
        ensures
            final(self).domain_start == old(self).domain_start,
            final(self).domain_end == old(self).domain_end,
            final(self).sample_count == old(self).sample_count,
            old(self).points@.len() > 0 ==> final(self).points@ == old(self).points@,
            old(self).points@.len() == 0 ==> final(self).points@.len() == old(self).sample_count,
            old(self).points@.len() == 0 ==> forall|i: int|
                0 <= i < old(self).sample_count ==> {
                    let p = #[trigger] final(self).points@[i];
                    &&& p.x == sample_at(
                        old(self).domain_start as int,
                        old(self).domain_end as int,
                        old(self).sample_count as int,
                        i,
                    )
                    &&& p.y == p.x
                },
    {
        if self.points.len() > 0 {
            return;
        }
        let n = self.sample_count;
        let mut i: u32 = 0;
        while i < n
            invariant
                i <= n == self.sample_count,
                n >= 2,
                -MAX_WORLD <= self.domain_start <= MAX_WORLD,
                -MAX_WORLD <= self.domain_end <= MAX_WORLD,
                self.domain_start == old(self).domain_start,
                self.domain_end == old(self).domain_end,
                self.sample_count == old(self).sample_count,
                self.points@.len() == i,
                forall|j: int|
                    0 <= j < i ==> {
                        let p = #[trigger] self.points@[j];
                        &&& p.x == sample_at(
                            self.domain_start as int,
                            self.domain_end as int,
                            n as int,
                            j,
                        )
                        &&& p.y == p.x
                    },
            decreases n - i,
        {
            let x = sample(self.domain_start, self.domain_end, n, i);
            self.points.push(Position2D { x, y: x });
            i = i + 1;
        }
    }
}

} // verus!
