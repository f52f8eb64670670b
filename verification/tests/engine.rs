// Runtime tests: the verified engine drives floating-point kernels that the
// host (this test) provides through the `OperatorKernel` trait.

use geodesy::adapt::{Desc, Factor, Unit};
use geodesy::args::lookup;
use geodesy::op::{Kind, Leaf, OperatorKernel};
use geodesy::Context;

type C = [f64; 4];
type Ctx = Context<C>;

const PI: f64 = std::f64::consts::PI;

fn gis(lon: f64, lat: f64, h: f64, t: f64) -> C {
    [lon.to_radians(), lat.to_radians(), h, t]
}

fn geo(lat: f64, lon: f64, h: f64, t: f64) -> C {
    [lon.to_radians(), lat.to_radians(), h, t]
}

fn to_degrees(o: C) -> C {
    [o[0].to_degrees(), o[1].to_degrees(), o[2], o[3]]
}

fn geo_all(data: &mut Vec<C>) {
    for o in data.iter_mut() {
        *o = [o[1].to_degrees(), o[0].to_degrees(), o[2], o[3]];
    }
}

fn hypot3(a: &C, b: &C) -> f64 {
    let d0 = a[0] - b[0];
    let d1 = a[1] - b[1];
    let d2 = a[2] - b[2];
    (d0 * d0 + d1 * d1 + d2 * d2).sqrt()
}

fn dms_to_dd(d: i32, m: i32, s: f64) -> f64 {
    d as f64 + m as f64 / 60.0 + s / 3600.0
}

/// `(a, f)` of a named ellipsoid; GRS80 is the default.
fn ellps_named(name: &str) -> (f64, f64) {
    match name {
        "WGS84" => (6378137.0, 1.0 / 298.257223563),
        "intl" => (6378388.0, 1.0 / 297.0),
        _ => (6378137.0, 1.0 / 298.257222100882711243),
    }
}

fn prime_vertical(a: f64, es: f64, phi: f64) -> f64 {
    a / (1.0 - es * phi.sin() * phi.sin()).sqrt()
}

fn meridian(a: f64, es: f64, phi: f64) -> f64 {
    a * (1.0 - es) / (1.0 - es * phi.sin() * phi.sin()).powf(1.5)
}

fn cart_fwd(a: f64, es: f64, o: &mut C) {
    let lam = o[0];
    let phi = o[1];
    let h = o[2];
    let n = prime_vertical(a, es, phi);
    let x = (n + h) * phi.cos() * lam.cos();
    let y = (n + h) * phi.cos() * lam.sin();
    let z = (n * (1.0 - es) + h) * phi.sin();
    o[0] = x;
    o[1] = y;
    o[2] = z;
}

fn cart_inv(a: f64, es: f64, o: &mut C) {
    let x = o[0];
    let y = o[1];
    let z = o[2];
    let p = (x * x + y * y).sqrt();
    let lam = y.atan2(x);
    let mut phi = z.atan2(p * (1.0 - es));
    for _ in 0..100 {
        let n = prime_vertical(a, es, phi);
        let h = p / phi.cos() - n;
        let next = z.atan2(p * (1.0 - es * n / (n + h)));
        let done = (next - phi).abs() < 1e-16;
        phi = next;
        if done {
            break;
        }
    }
    let n = prime_vertical(a, es, phi);
    let h = p / phi.cos() - n;
    o[0] = lam;
    o[1] = phi;
    o[2] = h;
}

fn num_arg(leaf: &Leaf, key: &str, default: f64) -> f64 {
    match lookup(&leaf.args, key) {
        Some(v) => v.parse::<f64>().unwrap_or(default),
        None => default,
    }
}

fn str_arg(leaf: &Leaf, key: &str, default: &str) -> String {
    match lookup(&leaf.args, key) {
        Some(v) => v,
        None => default.to_string(),
    }
}

fn unit_value(u: Unit) -> f64 {
    match u {
        Unit::One => 1.0,
        Unit::Deg => PI / 180.0,
        Unit::Gon => PI / 200.0,
    }
}

fn factor_value(f: Factor) -> f64 {
    let sign = if f.neg { -1.0 } else { 1.0 };
    sign * (unit_value(f.num) / unit_value(f.den))
}

fn adapt_apply(d: &Desc, operands: &mut Vec<C>, forward: bool) {
    if d.noop {
        return;
    }
    let post = [d.p0, d.p1, d.p2, d.p3];
    let mult = [
        factor_value(d.f0),
        factor_value(d.f1),
        factor_value(d.f2),
        factor_value(d.f3),
    ];
    for o in operands.iter_mut() {
        if forward {
            *o = [
                o[post[0]] * mult[0],
                o[post[1]] * mult[1],
                o[post[2]] * mult[2],
                o[post[3]] * mult[3],
            ];
        } else {
            let mut c = [0.0f64; 4];
            for i in 0..4 {
                c[post[i]] = o[i] / mult[i];
            }
            *o = c;
        }
    }
}

fn molodensky_params(leaf: &Leaf) -> (f64, f64, f64, f64, f64, f64, f64, f64, bool) {
    let (la, lf) = ellps_named(&str_arg(leaf, "ellps", ""));
    let (left_a, left_f) = match lookup(&leaf.args, "left_ellps") {
        Some(v) => ellps_named(&v),
        None => (la, lf),
    };
    let (right_a, right_f) = match lookup(&leaf.args, "right_ellps") {
        Some(v) => ellps_named(&v),
        None => (left_a, left_f),
    };
    let dx = num_arg(leaf, "dx", 0.0);
    let dy = num_arg(leaf, "dy", 0.0);
    let dz = num_arg(leaf, "dz", 0.0);
    let mut da = num_arg(leaf, "da", 0.0);
    let mut df = num_arg(leaf, "df", 0.0);
    if lookup(&leaf.args, "right_ellps").is_some() {
        da = right_a - left_a;
        df = right_f - left_f;
    }
    let abridged = matches!(lookup(&leaf.args, "abridged"), Some(v) if v == "true");
    let es = left_f * (2.0 - left_f);
    (left_a, left_f, es, dx, dy, dz, da, df, abridged)
}

fn molodensky_shift(
    a: f64,
    f: f64,
    es: f64,
    dx: f64,
    dy: f64,
    dz: f64,
    da: f64,
    df: f64,
    abridged: bool,
    coord: &C,
) -> [f64; 3] {
    let adffda = a * df + f * da;
    let lam = coord[0];
    let phi = coord[1];
    let h = coord[2];
    let (slam, clam) = lam.sin_cos();
    let (sphi, cphi) = phi.sin_cos();
    let big_n = prime_vertical(a, es, phi);
    let big_m = meridian(a, es, phi);
    let fac = dx * clam + dy * slam;

    if abridged {
        let dphi = (-fac * sphi + dz * cphi + adffda * (2.0 * phi).sin()) / big_m;
        let dlam_denom = big_n * cphi;
        if dlam_denom == 0.0 {
            return [f64::NAN, f64::NAN, f64::NAN];
        }
        let dlam = (dy * clam - dx * slam) / dlam_denom;
        let dh = fac * cphi + (dz + adffda * sphi) * sphi - da;
        return [dlam, dphi, dh];
    }

    let mut dphi = (dz + ((big_n * es * sphi * da) / a)) * cphi - fac * sphi
        + (big_m / (1.0 - f) + big_n * (1.0 - f)) * df * sphi * cphi;
    let dphi_denom = big_m + h;
    if dphi_denom == 0.0 {
        return [f64::NAN, f64::NAN, f64::NAN];
    }
    dphi /= dphi_denom;

    let dlam_denom = (big_n + h) * cphi;
    if dlam_denom == 0.0 {
        return [f64::NAN, f64::NAN, f64::NAN];
    }
    let dlam = (dy * clam - dx * slam) / dlam_denom;

    let dh = fac * cphi + dz * sphi - (a / big_n) * da + big_n * (1.0 - f) * df * sphi * sphi;
    [dlam, dphi, dh]
}

struct Host;

impl OperatorKernel<C> for Host {
    fn apply(&self, leaf: &Leaf, operands: &mut Vec<C>, forward: bool) -> usize {
        match leaf.kind {
            Kind::Noop | Kind::Custom | Kind::Tmerc | Kind::Utm => {}
            Kind::Addone => {
                for o in operands.iter_mut() {
                    if forward {
                        o[0] += 1.0;
                    } else {
                        o[0] -= 1.0;
                    }
                }
            }
            Kind::Cart => {
                let (a, f) = ellps_named(&str_arg(leaf, "ellps", ""));
                let es = f * (2.0 - f);
                for o in operands.iter_mut() {
                    if forward {
                        cart_fwd(a, es, o);
                    } else {
                        cart_inv(a, es, o);
                    }
                }
            }
            Kind::Helmert => {
                let x = num_arg(leaf, "x", 0.0);
                let y = num_arg(leaf, "y", 0.0);
                let z = num_arg(leaf, "z", 0.0);
                for o in operands.iter_mut() {
                    if forward {
                        o[0] += x;
                        o[1] += y;
                        o[2] += z;
                    } else {
                        o[0] -= x;
                        o[1] -= y;
                        o[2] -= z;
                    }
                }
            }
            Kind::Molodensky => {
                let (a, f, es, dx, dy, dz, da, df, abridged) = molodensky_params(leaf);
                for o in operands.iter_mut() {
                    let par = molodensky_shift(a, f, es, dx, dy, dz, da, df, abridged, o);
                    if forward {
                        o[0] += par[0];
                        o[1] += par[1];
                        o[2] += par[2];
                    } else {
                        o[0] -= par[0];
                        o[1] -= par[1];
                        o[2] -= par[2];
                    }
                }
            }
            Kind::Adapt(d) => {
                adapt_apply(&d, operands, forward);
            }
        }
        operands.len()
    }
}

/// The distance in meters between two geographic coordinates on the default
/// ellipsoid, heights ignored.
fn default_ellps_dist(a: &C, b: &C) -> f64 {
    let (ea, ef) = ellps_named("GRS80");
    let es = ef * (2.0 - ef);
    let mut ca = [a[0], a[1], 0.0, 0.0];
    let mut cb = [b[0], b[1], 0.0, 0.0];
    cart_fwd(ea, es, &mut ca);
    cart_fwd(ea, es, &mut cb);
    hypot3(&ca, &cb)
}

/// The same distance with heights taken into account.
fn default_ellps_3d_dist(a: &C, b: &C) -> f64 {
    let (ea, ef) = ellps_named("GRS80");
    let es = ef * (2.0 - ef);
    let mut ca = *a;
    let mut cb = *b;
    cart_fwd(ea, es, &mut ca);
    cart_fwd(ea, es, &mut cb);
    hypot3(&ca, &cb)
}

#[test]
fn operand() {
    let ctx: Ctx = Context::new();
    assert_eq!(ctx.stack.len(), 0);
}

#[test]
fn operate() {
    let pipeline = "ed50_etrs89: {
            steps: [
                cart: {ellps: intl},
                helmert: {x: -87, y: -96, z: -120},
                cart: {inv: true, ellps: GRS80}
            ]
        }";

    let mut ctx: Ctx = Context::new();
    let op = ctx.operation(pipeline);
    assert!(op.is_some());
    let op = op.unwrap();
    let geo_point = gis(12., 55., 100., 0.);
    let mut operands = vec![geo_point];

    ctx.fwd(&Host, op, &mut operands);
    let result = to_degrees(operands[0]);
    assert!((result[0] - 11.998815342385206861).abs() < 1e-10);
    assert!((result[1] - 54.999382648950991381).abs() < 1e-10);

    ctx.inv(&Host, op, &mut operands);
    let result = to_degrees(operands[0]);
    assert!((result[0] - 12.).abs() < 1e-12);
    assert!((result[1] - 55.).abs() < 1e-12);
}

#[test]
fn gys() {
    let mut ctx: Ctx = Context::new();

    // The corner case of giving just "inv" as operation name
    let inv = ctx.operation("[inv]");
    assert!(inv.is_none());

    // An inv-operator actually instantiates
    let invcart = ctx.operation("[cart inv]");
    assert!(invcart.is_some());

    // The shorthand syntactical indicators trigger
    assert!(Ctx::is_gys("[cart]"));
    assert!(Ctx::is_gys("|cart|"));
    assert!(Ctx::is_gys("|cart"));
    assert!(Ctx::is_gys("cart|"));
    assert!(!Ctx::is_gys("[cart"));
    assert!(!Ctx::is_gys("cart]"));

    // A pipeline in longhand
    let pipeline = "ed50_etrs89: {
            # with cucumbers
            steps: [
                cart: {ellps: intl},
                helmert: {x: -87, y: -96, z: -120},
                cart: {inv: true, ellps: GRS80}
            ]
        }";

    // Same pipeline in shorthand, with some nasty inline comments
    let gys = "# bla bla\n\n   cart ellps: intl # another comment ending at newline\n | helmert x:-87 y:-96 z:-120 # inline comment ending at step, not at newline | cart inv ellps:GRS80";

    // The shorthand instantiates exactly as the corresponding longhand
    let op_yaml = ctx.operation(pipeline).unwrap();
    let op_gys = ctx.operation(gys).unwrap();

    let copenhagen = geo(55., 12., 0., 0.);
    let stockholm = geo(59., 18., 0., 0.);
    let mut yaml_data = vec![copenhagen, stockholm];
    let mut gys_data = vec![copenhagen, stockholm];

    ctx.fwd(&Host, op_yaml, &mut yaml_data);
    ctx.fwd(&Host, op_gys, &mut gys_data);

    geo_all(&mut yaml_data);
    geo_all(&mut gys_data);

    // The difference is exactly zero, since the operations are identical
    assert!(hypot3(&yaml_data[0], &gys_data[0]) < 1e-30);
    assert!(hypot3(&yaml_data[1], &gys_data[1]) < 1e-30);
}

#[test]
fn pipeline() {
    let mut prv: Ctx = Context::new();
    let op = prv.operation("addone|addone|addone").unwrap();
    let mut data = vec![gis_raw(55., 12.), gis_raw(59., 18.)];

    assert!(prv.fwd(&Host, op, &mut data));
    assert_eq!(data[0][0], 58.);
    assert_eq!(data[1][0], 62.);

    assert!(prv.inv(&Host, op, &mut data));
    assert_eq!(data[0][0], 55.);
    assert_eq!(data[1][0], 59.);

    let op = prv.operation("addone|addone inv|addone").unwrap();
    let mut data = vec![gis_raw(55., 12.), gis_raw(59., 18.)];
    assert_eq!(data[0][0], 55.);
    assert_eq!(data[1][0], 59.);

    assert!(prv.fwd(&Host, op, &mut data));
    assert_eq!(data[0][0], 56.);
    assert_eq!(data[1][0], 60.);

    assert!(prv.inv(&Host, op, &mut data));
    assert_eq!(data[0][0], 55.);
    assert_eq!(data[1][0], 59.);

    // Invoking garbage as a pipeline step fails
    assert!(prv.operation("addone|addone|_garbage").is_none());
}

fn gis_raw(e: f64, n: f64) -> C {
    [e, n, 0.0, 0.0]
}

#[test]
fn adapt() {
    let mut ctx: Ctx = Context::new();

    let gonify = ctx.operation("adapt from:neut_deg   to:enut_gon").unwrap();
    let mut operands = vec![
        [90.0f64, 180., 0., 0.],
        [45.0f64, 90., 0., 0.],
    ];

    assert_eq!(ctx.fwd(&Host, gonify, &mut operands), true);
    assert!((operands[0][0] - 200.0).abs() < 1e-10);
    assert!((operands[0][1] - 100.0).abs() < 1e-10);
    assert!((operands[1][0] - 100.0).abs() < 1e-10);
    assert!((operands[1][1] - 50.0).abs() < 1e-10);

    ctx.inv(&Host, gonify, &mut operands);
    assert!((operands[0][0] - 90.0).abs() < 1e-10);
    assert!((operands[0][1] - 180.0).abs() < 1e-10);
    assert!((operands[1][0] - 45.0).abs() < 1e-10);
    assert!((operands[1][1] - 90.0).abs() < 1e-10);
}

#[test]
fn molodensky() {
    let mut ctx: Ctx = Context::new();
    // ---------------------------------------------------------------------
    // Transformation from WGS84 to ED50, with full Molodensky.
    // ---------------------------------------------------------------------

    let definition = "molodensky left_ellps: WGS84 right_ellps: intl
            dx: 84.87 dy: 96.49 dz: 116.95 abridged: false";
    let op = ctx.operation(definition).unwrap();

    // Test point (53.80939444444444, 2.12955, 73 m)
    let lat = dms_to_dd(53, 48, 33.82);
    let lon = dms_to_dd(2, 7, 46.38);
    let wgs84 = geo(lat, lon, 73., 0.0);

    // Values from a direct 3 parameter Helmert calculation with the same
    // constants.
    let lat = 53.8101570592;
    let lon = 2.1309658097;
    let ed50 = geo(lat, lon, 28.02470, 0.0);

    // In the unabridged case, Molodensky replicates Helmert to within 5 mm
    // in the plane and the elevation.
    let mut operands = vec![wgs84];
    ctx.fwd(&Host, op, &mut operands);
    assert!(default_ellps_dist(&ed50, &operands[0]) < 0.005);
    assert!((ed50[2] - operands[0][2]).abs() < 0.005);

    // The same holds in the reverse unabridged case, where additionally the
    // elevation is even better.
    let mut operands = vec![ed50];
    ctx.inv(&Host, op, &mut operands);
    assert!(default_ellps_3d_dist(&wgs84, &operands[0]) < 0.005);
    assert!((wgs84[2] - operands[0][2]).abs() < 0.001);

    // The abridged case. Same test point. Both plane coordinates and
    // elevations are *much* worse, but still better-than-decimeter.
    let definition = "molodensky left_ellps: WGS84 right_ellps: intl
            dx: 84.87 dy: 96.49 dz: 116.95 abridged: true";
    let op = ctx.operation(definition).unwrap();

    let mut operands = vec![wgs84];
    ctx.fwd(&Host, op, &mut operands);
    assert!(default_ellps_dist(&ed50, &operands[0]) < 0.1);
    // Heights are worse in the abridged case
    assert!((ed50[2] - operands[0][2]).abs() < 0.075);

    let mut operands = vec![ed50];
    ctx.inv(&Host, op, &mut operands);
    assert!(default_ellps_dist(&wgs84, &operands[0]) < 0.1);
    // Heights are worse in the abridged case
    assert!((wgs84[2] - operands[0][2]).abs() < 0.075);
}

#[test]
fn chunked_batches() {
    // A batch larger than one chunk is processed whole, every operand
    // touched exactly once per step.
    let mut ctx: Ctx = Context::new();
    let op = ctx.operation("addone|addone").unwrap();
    let mut data: Vec<C> = Vec::new();
    for i in 0..2501 {
        data.push([i as f64, 0., 0., 0.]);
    }
    assert!(ctx.fwd(&Host, op, &mut data));
    assert_eq!(data.len(), 2501);
    for i in 0..2501 {
        assert_eq!(data[i][0], i as f64 + 2.0);
    }
    assert!(ctx.inv(&Host, op, &mut data));
    for i in 0..2501 {
        assert_eq!(data[i][0], i as f64);
    }
}

#[test]
fn macro_pipelines() {
    // A macro that expands to a whole pipeline behaves exactly like the
    // pipeline written out, and its `inv` flag inverts the whole pipeline.
    let mut ctx: Ctx = Context::new();
    assert!(ctx.register_macro(
        "ed50_etrs89",
        "cart ellps:intl | helmert x:-87 y:-96 z:-120 | cart inv ellps:GRS80"
    ));
    let via_macro = ctx.operation("ed50_etrs89").unwrap();
    let spelled = ctx
        .operation("cart ellps:intl | helmert x:-87 y:-96 z:-120 | cart inv ellps:GRS80")
        .unwrap();
    let inverse = ctx.operation("ed50_etrs89 inv").unwrap();

    let point = gis(12., 55., 100., 0.);
    let mut a = vec![point];
    let mut b = vec![point];
    ctx.fwd(&Host, via_macro, &mut a);
    ctx.fwd(&Host, spelled, &mut b);
    assert!(hypot3(&a[0], &b[0]) < 1e-30);

    // The inverted macro undoes the forward run
    ctx.fwd(&Host, inverse, &mut a);
    let r = to_degrees(a[0]);
    assert!((r[0] - 12.).abs() < 1e-12);
    assert!((r[1] - 55.).abs() < 1e-12);
}

#[test]
fn pipeline_level_inversion() {
    // The longhand form can set `inv` on the pipeline itself: its forward
    // run is then the reversed, inverted run of its steps.
    let mut ctx: Ctx = Context::new();
    let op = ctx
        .operation("p: {steps: [addone: {}, addone: {}], inv: true}")
        .unwrap();
    let mut data = vec![[10.0f64, 0., 0., 0.]];
    assert!(ctx.fwd(&Host, op, &mut data));
    assert_eq!(data[0][0], 8.0);
    assert!(ctx.inv(&Host, op, &mut data));
    assert_eq!(data[0][0], 10.0);
}

#[test]
fn empty_batch() {
    // An empty operand batch is a successful run of zero chunks.
    let mut ctx: Ctx = Context::new();
    let op = ctx.operation("addone").unwrap();
    let mut data: Vec<C> = Vec::new();
    assert!(ctx.fwd(&Host, op, &mut data));
    assert_eq!(data.len(), 0);
}
