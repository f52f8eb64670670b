// Tests of the text engine: classification, rewriting, descriptors,
// registries and error reporting.  No kernels are involved.

use geodesy::adapt::{combine_descriptors, Factor, Unit};
use geodesy::adapt::descriptor as parse_descriptor;
use geodesy::Context;

type Ctx = Context<[f64; 4]>;

const PI: f64 = std::f64::consts::PI;

fn unit_value(u: Unit) -> f64 {
    match u {
        Unit::One => 1.0,
        Unit::Deg => PI / 180.0,
        Unit::Gon => PI / 200.0,
    }
}

fn factor_value(f: Factor) -> f64 {
    let sign = if f.neg { -1.0 } else { 1.0 };
    sign * (unit_value(f.num) / unit_value(f.den))
}

fn posts(d: &geodesy::adapt::Desc) -> [usize; 4] {
    [d.p0, d.p1, d.p2, d.p3]
}

fn mults(d: &geodesy::adapt::Desc) -> [f64; 4] {
    [
        factor_value(d.f0),
        factor_value(d.f1),
        factor_value(d.f2),
        factor_value(d.f3),
    ]
}

#[test]
fn descriptor() {
    // Axis swap n<->e
    assert_eq!([1usize, 0, 2, 3], posts(&parse_descriptor("neut").unwrap()));

    // Axis inversion for n+u. Check for all valid angular units
    assert_eq!([1usize, 0, 2, 3], posts(&parse_descriptor("sedt_rad").unwrap()));
    assert_eq!([1usize, 0, 2, 3], posts(&parse_descriptor("sedt_gon").unwrap()));
    assert_eq!([1usize, 0, 2, 3], posts(&parse_descriptor("sedt_deg").unwrap()));
    assert_eq!([-1., 1., -1., 1.], mults(&parse_descriptor("sedt_any").unwrap()));

    // noop
    assert_eq!(false, parse_descriptor("sedt_any").unwrap().noop);
    assert_eq!(true, parse_descriptor("enut_any").unwrap().noop);
    assert_eq!(true, parse_descriptor("enut_rad").unwrap().noop);
    assert_eq!(true, parse_descriptor("enut").unwrap().noop);
    assert_eq!(true, parse_descriptor("pass").unwrap().noop);

    // Invalid angular unit "pap"
    assert!(parse_descriptor("sedt_pap").is_none());

    // Invalid: Overlapping axes, "ns"
    assert!(parse_descriptor("nsut").is_none());

    // Now a combination, where we swap both axis order and orientation
    let from = parse_descriptor("neut_deg").unwrap();
    let to = parse_descriptor("wndt_gon").unwrap();
    let give = combine_descriptors(&from, &to);
    let m = mults(&give);
    assert_eq!([1usize, 0, 2, 3], posts(&give));
    assert!(m[0] + 400. / 360. < 1e-10); // mult[0] is negative for westish
    assert!(m[1] - 400. / 360. < 1e-10); // mult[1] is positive for northish
    assert!(m[2] + 1.0 < 1e-10); // mult[2] is negative for downish
    assert!(m[3] - 1.0 < 1e-10); // mult[3] is positive for timeish
    assert!(give.noop == false);
}

#[test]
fn gys_classification() {
    assert!(Ctx::is_gys("[cart]"));
    assert!(Ctx::is_gys("|cart"));
    assert!(!Ctx::is_gys("cart]"));
    assert!(!Ctx::is_gys("foo: {bar: 1}"));
    // contains a whitespace-wrapped pipe
    assert!(Ctx::is_gys("a: 1 | b: 2"));
    // first token without trailing colon
    assert!(Ctx::is_gys("cart ellps: intl"));
    // the empty string has no first token to end with a colon
    assert!(Ctx::is_gys(""));
}

#[test]
fn shorthand_rewriting() {
    // A single step with every argument form: spaced pair, compact pair,
    // bare flag.
    assert_eq!(
        Ctx::gys_to_yaml("cart ellps: intl x:1 inv"),
        "cart: {ellps: intl, x: 1, inv: true}"
    );
    // No arguments at all
    assert_eq!(Ctx::gys_to_yaml("noop"), "noop: {}");
    // A pipeline gets the wrapper and one step per line
    assert_eq!(
        Ctx::gys_to_yaml("a x:1|b"),
        "pipeline_from_gys: {\n  steps: [\n    a: {x: 1},\n    b: {}\n  ]\n}"
    );
    // Comment lines and inline comments disappear
    assert_eq!(
        Ctx::gys_to_yaml("# heading\nnoop # tail"),
        "noop: {}"
    );
    // Longhand text passes through unchanged, apart from comment lines
    assert_eq!(
        Ctx::gys_to_yaml("cart: {ellps: intl}"),
        "cart: {ellps: intl}"
    );
    // A trailing key with no value is an error
    assert_eq!(
        Ctx::gys_to_yaml("cart x:"),
        "Missing value for key 'x:'"
    );
    // An empty step is an error
    assert_eq!(Ctx::gys_to_yaml("cart||noop"), "Error: Empty step!");
}

#[test]
fn macro_registration() {
    let mut ctx: Ctx = Context::new();

    // A macro whose definition starts with its own name is refused
    assert!(!ctx.register_macro("foo", "foo: {x: 1}"));
    assert!(ctx.locate_macro("foo").is_none());

    // An honest macro registers and resolves
    assert!(ctx.register_macro("geohelmert", "helmert x:-87 y:-96 z:-120"));
    assert_eq!(
        ctx.locate_macro("geohelmert").unwrap(),
        "helmert x:-87 y:-96 z:-120"
    );

    // Re-registration under the same name is refused and changes nothing
    assert!(!ctx.register_macro("geohelmert", "noop"));
    assert_eq!(
        ctx.locate_macro("geohelmert").unwrap(),
        "helmert x:-87 y:-96 z:-120"
    );

    // The macro compiles, with the invoking step's arguments winning
    let op = ctx.operation("geohelmert x:10");
    assert!(op.is_some());
}

#[test]
fn handles_stay_stable() {
    let mut ctx: Ctx = Context::new();
    let h1 = ctx.operation("noop").unwrap();
    let h2 = ctx.operation("addone").unwrap();
    let h3 = ctx.operation("noop|addone").unwrap();
    assert_eq!(h1, 0);
    assert_eq!(h2, 1);
    assert_eq!(h3, 2);
    // Failed compilations do not consume handles
    assert!(ctx.operation("no_such_operator").is_none());
    let h4 = ctx.operation("addone|addone").unwrap();
    assert_eq!(h4, 3);
}

#[test]
fn errors_are_reported() {
    let mut ctx: Ctx = Context::new();

    // Unknown operator
    assert!(ctx.operation("gibberish_operator x:1").is_none());
    let report = ctx.report();
    assert!(report.contains("gibberish_operator"));
    assert!(report.contains("Unknown operator"));

    // Bad numeric parameter
    assert!(ctx.operation("helmert x:east").is_none());
    let report = ctx.report();
    assert!(report.contains("helmert"));
    assert!(report.contains("Bad value for 'x'"));

    // Malformed longhand
    assert!(ctx.operation("foo: {bar:").is_none());
    assert!(ctx.report().contains("Malformed definition"));

    // Bad axis descriptor
    assert!(ctx.operation("adapt from:nnut").is_none());
    assert!(ctx.report().contains("Bad value for 'from'"));

    // Numbers in the usual lexical forms are accepted
    assert!(ctx.operation("helmert x:-87 y:9.6e1 z:.5").is_some());
    // A NaN literal is not a number
    assert!(ctx.operation("helmert x:NaN").is_none());

    // The zone of a utm step is checked the same way
    assert!(ctx.operation("utm zone:32").is_some());
    assert!(ctx.operation("utm zone:west").is_none());

    // An invalid handle records the fixed failure text
    let mut operands = vec![[0.0f64; 4]];
    struct Idle;
    impl geodesy::op::OperatorKernel<[f64; 4]> for Idle {
        fn apply(
            &self,
            _leaf: &geodesy::op::Leaf,
            operands: &mut Vec<[f64; 4]>,
            _forward: bool,
        ) -> usize {
            operands.len()
        }
    }
    assert!(!ctx.operate(&Idle, 999, &mut operands, true));
    assert!(ctx
        .report()
        .contains("Attempt to access an invalid operator from context"));
}

#[test]
fn user_operators_resolve() {
    let mut ctx: Ctx = Context::new();
    assert!(ctx.operation("fancy_datum_shift").is_none());
    ctx.register_operator("fancy_datum_shift");
    assert!(ctx.locate_operator("fancy_datum_shift"));
    assert!(ctx.operation("fancy_datum_shift").is_some());
}

#[test]
fn asset_names() {
    assert_eq!(
        Ctx::asset_filename("ellipsoids", "intl", ".yml"),
        "assets/ellipsoids/intl.yml"
    );
}

#[test]
fn argument_accessors() {
    let pairs = vec![
        ("ellps".to_string(), "intl".to_string()),
        ("inv".to_string(), "true".to_string()),
        ("x".to_string(), "-87".to_string()),
    ];
    let mut args = geodesy::args::OperatorArgs::new(pairs);
    // flags are present-and-true; hits land in the consumed ledger
    assert!(args.flag("inv"));
    assert!(!args.flag("abridged"));
    assert_eq!(args.string("ellps", "GRS80"), "intl");
    assert_eq!(args.string("missing", "GRS80"), "GRS80");
    assert!(args.value("x").is_some());
    assert!(args.value("q").is_none());
    // two hits were recorded: the flag and the string
    assert_eq!(args.used.len(), 2);
}
