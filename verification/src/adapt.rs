use vstd::prelude::*;

verus! {

// ---------------------------------------------------------------------------
// The axis/unit adapter.
//
// A four-axis descriptor such as `neut_deg` names, per position, which
// internal axis the position carries (eastish, northish, upish, timeish, or
// their negated counterparts) and, for the two angular positions, an angular
// unit.  A compiled adapter is a permutation of the four positions together
// with a scale factor per position.  The factors are kept symbolically — a
// sign and a ratio of two named units — so the construction is exact; hosts
// turn a `Factor` into a number only when applying the kernel.
// ---------------------------------------------------------------------------

/// An angular unit: the internal unit (radians, factor one), degrees, or
/// gradians.
#[derive(Clone, Copy, PartialEq, Eq, Structural, Debug)]
pub enum Unit {
    One,
    Deg,
    Gon,
}

/// A scale factor: `(-1 if neg else 1) * value(num) / value(den)`, where the
/// value of `One` is 1, of `Deg` is pi/180, of `Gon` is pi/200.
#[derive(Clone, Copy, PartialEq, Eq, Structural, Debug)]
pub struct Factor {
    pub neg: bool,
    pub num: Unit,
    pub den: Unit,
}

/// A factor whose numeric value is exactly one.
pub open spec fn factor_is_one(f: Factor) -> bool {
    !f.neg && f.num == f.den
}

/// A compiled coordinate-order descriptor: position `i` of the output takes
/// input position `post i` scaled by `factor i`; `noop` records that the
/// whole transform is the identity.
#[derive(Clone, Copy, PartialEq, Eq, Structural, Debug)]
pub struct Desc {
    pub p0: usize,
    pub p1: usize,
    pub p2: usize,
    pub p3: usize,
    pub f0: Factor,
    pub f1: Factor,
    pub f2: Factor,
    pub f3: Factor,
    pub noop: bool,
}

/// Position `i` of the permutation.
pub open spec fn post_spec(d: Desc, i: int) -> int {
    if i == 0 {
        d.p0 as int
    } else if i == 1 {
        d.p1 as int
    } else if i == 2 {
        d.p2 as int
    } else {
        d.p3 as int
    }
}

/// Factor `i`.
pub open spec fn fac_spec(d: Desc, i: int) -> Factor {
    if i == 0 {
        d.f0
    } else if i == 1 {
        d.f1
    } else if i == 2 {
        d.f2
    } else {
        d.f3
    }
}

/// The positions form a permutation of 0..4 and the noop flag is accurate.
pub open spec fn desc_wf(d: Desc) -> bool {
    &&& d.p0 < 4
    &&& d.p1 < 4
    &&& d.p2 < 4
    &&& d.p3 < 4
    &&& d.p0 != d.p1
    &&& d.p0 != d.p2
    &&& d.p0 != d.p3
    &&& d.p1 != d.p2
    &&& d.p1 != d.p3
    &&& d.p2 != d.p3
    &&& d.noop == (factor_is_one(d.f0) && factor_is_one(d.f1) && factor_is_one(d.f2)
        && factor_is_one(d.f3) && d.p0 == 0 && d.p1 == 1 && d.p2 == 2 && d.p3 == 3)
}

/// A descriptor as parsed from text: every factor is a plain unit, not yet a
/// ratio.
pub open spec fn desc_raw(d: Desc) -> bool {
    d.f0.den == Unit::One && d.f1.den == Unit::One && d.f2.den == Unit::One && d.f3.den
        == Unit::One
}

/// The identity descriptor.
pub open spec fn desc_identity() -> Desc {
    Desc {
        p0: 0,
        p1: 1,
        p2: 2,
        p3: 3,
        f0: Factor { neg: false, num: Unit::One, den: Unit::One },
        f1: Factor { neg: false, num: Unit::One, den: Unit::One },
        f2: Factor { neg: false, num: Unit::One, den: Unit::One },
        f3: Factor { neg: false, num: Unit::One, den: Unit::One },
        noop: true,
    }
}

/// The internal axis named by an axis letter, or -1 for anything else.
pub open spec fn letter_axis(c: char) -> int {
    if c == 'e' || c == 'w' {
        0
    } else if c == 'n' || c == 's' {
        1
    } else if c == 'u' || c == 'd' {
        2
    } else if c == 't' || c == 'r' {
        3
    } else {
        -1
    }
}

/// Whether the axis letter names the negated direction.
pub open spec fn letter_neg(c: char) -> bool {
    c == 'w' || c == 's' || c == 'd' || c == 'r'
}

/// The angular unit named by an eight-letter descriptor's suffix.
pub open spec fn suffix_unit(s: Seq<char>) -> Option<Unit> {
    if s == "_deg"@ {
        Some(Unit::Deg)
    } else if s == "_gon"@ {
        Some(Unit::Gon)
    } else if s == "_rad"@ || s == "_any"@ {
        Some(Unit::One)
    } else {
        None
    }
}

/// The descriptor compiled from its text: `pass` is the identity; otherwise
/// four axis letters forming a permutation, optionally followed by an
/// angular-unit suffix that scales the two angular positions.
pub open spec fn descriptor_spec(s: Seq<char>) -> Option<Desc> {
    if s == "pass"@ {
        Some(desc_identity())
    } else if s.len() != 4 && s.len() != 8 {
        None
    } else {
        let unit_opt = if s.len() == 8 {
            suffix_unit(s.subrange(4, 8))
        } else {
            Some(Unit::One)
        };
        match unit_opt {
            None => None,
            Some(unit) => {
                let a0 = letter_axis(s[0]);
                let a1 = letter_axis(s[1]);
                let a2 = letter_axis(s[2]);
                let a3 = letter_axis(s[3]);
                if a0 < 0 || a1 < 0 || a2 < 0 || a3 < 0 {
                    None
                } else if a0 == a1 || a0 == a2 || a0 == a3 || a1 == a2 || a1 == a3 || a2 == a3 {
                    None
                } else {
                    let f0 = Factor { neg: letter_neg(s[0]), num: unit, den: Unit::One };
                    let f1 = Factor { neg: letter_neg(s[1]), num: unit, den: Unit::One };
                    let f2 = Factor { neg: letter_neg(s[2]), num: Unit::One, den: Unit::One };
                    let f3 = Factor { neg: letter_neg(s[3]), num: Unit::One, den: Unit::One };
                    Some(
                        Desc {
                            p0: a0 as usize,
                            p1: a1 as usize,
                            p2: a2 as usize,
                            p3: a3 as usize,
                            f0,
                            f1,
                            f2,
                            f3,
                            noop: factor_is_one(f0) && factor_is_one(f1) && factor_is_one(f2)
                                && factor_is_one(f3) && a0 == 0 && a1 == 1 && a2 == 2 && a3 == 3,
                        },
                    )
                }
            },
        }
    }
}

fn letter_axis_exec(c: char) -> (r: i32)
    ensures
        r as int == letter_axis(c),
{
    if c == 'e' || c == 'w' {
        0
    } else if c == 'n' || c == 's' {
        1
    } else if c == 'u' || c == 'd' {
        2
    } else if c == 't' || c == 'r' {
        3
    } else {
        -1
    }
}

fn letter_neg_exec(c: char) -> (r: bool)
    ensures
        r == letter_neg(c),
{
    c == 'w' || c == 's' || c == 'd' || c == 'r'
}

/// Parses an axis/unit descriptor; see `descriptor_spec` for the rule.
pub fn descriptor(desc: &str) -> (r: Option<Desc>)
    ensures
        r == descriptor_spec(desc@),
        r is Some ==> desc_wf(r->0) && desc_raw(r->0),
{
    let v = crate::chars::to_chars(desc);
    descriptor_chars(&v)
}

/// `descriptor`, over a character vector.
pub fn descriptor_chars(v: &Vec<char>) -> (r: Option<Desc>)
    ensures
        r == descriptor_spec(v@),
        r is Some ==> desc_wf(r->0) && desc_raw(r->0),
{
    if crate::chars::chars_eq_str(v, "pass") {
        let one = Factor { neg: false, num: Unit::One, den: Unit::One };
        return Some(
            Desc { p0: 0, p1: 1, p2: 2, p3: 3, f0: one, f1: one, f2: one, f3: one, noop: true },
        );
    }
    if v.len() != 4 && v.len() != 8 {
        return None;
    }
    let unit: Unit;
    if v.len() == 8 {
        let suf = crate::chars::subvec(v, 4, 8);
        if crate::chars::chars_eq_str(&suf, "_deg") {
            unit = Unit::Deg;
        } else if crate::chars::chars_eq_str(&suf, "_gon") {
            unit = Unit::Gon;
        } else if crate::chars::chars_eq_str(&suf, "_rad") || crate::chars::chars_eq_str(
            &suf,
            "_any",
        ) {
            unit = Unit::One;
        } else {
            return None;
        }
    } else {
        unit = Unit::One;
    }
    let a0 = letter_axis_exec(v[0]);
    let a1 = letter_axis_exec(v[1]);
    let a2 = letter_axis_exec(v[2]);
    let a3 = letter_axis_exec(v[3]);
    if a0 < 0 || a1 < 0 || a2 < 0 || a3 < 0 {
        return None;
    }
    if a0 == a1 || a0 == a2 || a0 == a3 || a1 == a2 || a1 == a3 || a2 == a3 {
        return None;
    }
    let f0 = Factor { neg: letter_neg_exec(v[0]), num: unit, den: Unit::One };
    let f1 = Factor { neg: letter_neg_exec(v[1]), num: unit, den: Unit::One };
    let f2 = Factor { neg: letter_neg_exec(v[2]), num: Unit::One, den: Unit::One };
    let f3 = Factor { neg: letter_neg_exec(v[3]), num: Unit::One, den: Unit::One };
    let noop = !f0.neg && !f1.neg && matches!(unit, Unit::One) && a0 == 0 && a1 == 1 && a2 == 2
        && a3 == 3 && !f2.neg && !f3.neg;
    Some(
        Desc {
            p0: a0 as usize,
            p1: a1 as usize,
            p2: a2 as usize,
            p3: a3 as usize,
            f0,
            f1,
            f2,
            f3,
            noop,
        },
    )
}

/// The combined transform for a `from`/`to` pair: position `i` divides the
/// `from` factor by the `to` factor, and takes the `from` position whose
/// destination is `to`'s position `i`.
pub open spec fn combine_spec(from: Desc, to: Desc) -> Desc {
    let f0 = Factor { neg: from.f0.neg != to.f0.neg, num: from.f0.num, den: to.f0.num };
    let f1 = Factor { neg: from.f1.neg != to.f1.neg, num: from.f1.num, den: to.f1.num };
    let f2 = Factor { neg: from.f2.neg != to.f2.neg, num: from.f2.num, den: to.f2.num };
    let f3 = Factor { neg: from.f3.neg != to.f3.neg, num: from.f3.num, den: to.f3.num };
    let p0 = pos_of_spec(from, post_spec(to, 0));
    let p1 = pos_of_spec(from, post_spec(to, 1));
    let p2 = pos_of_spec(from, post_spec(to, 2));
    let p3 = pos_of_spec(from, post_spec(to, 3));
    Desc {
        p0: p0 as usize,
        p1: p1 as usize,
        p2: p2 as usize,
        p3: p3 as usize,
        f0,
        f1,
        f2,
        f3,
        noop: factor_is_one(f0) && factor_is_one(f1) && factor_is_one(f2) && factor_is_one(f3) && p0
            == 0 && p1 == 1 && p2 == 2 && p3 == 3,
    }
}

/// The position of `d`'s permutation holding `axis`, or -1 when absent.
pub open spec fn pos_of_spec(d: Desc, axis: int) -> int {
    if d.p0 as int == axis {
        0
    } else if d.p1 as int == axis {
        1
    } else if d.p2 as int == axis {
        2
    } else if d.p3 as int == axis {
        3
    } else {
        -1
    }
}

fn pos_of(d: &Desc, axis: usize) -> (r: usize)
    requires
        desc_wf(*d),
        axis < 4,
    ensures
        r as int == pos_of_spec(*d, axis as int),
        r < 4,
{
    if d.p0 == axis {
        0
    } else if d.p1 == axis {
        1
    } else if d.p2 == axis {
        2
    } else {
        3
    }
}

/// Combines two parsed descriptors; see `combine_spec`.
pub fn combine_descriptors(from: &Desc, to: &Desc) -> (r: Desc)
    requires
        desc_wf(*from),
        desc_wf(*to),
    ensures
        r == combine_spec(*from, *to),
        desc_wf(r),
{
    let f0 = Factor { neg: from.f0.neg != to.f0.neg, num: from.f0.num, den: to.f0.num };
    let f1 = Factor { neg: from.f1.neg != to.f1.neg, num: from.f1.num, den: to.f1.num };
    let f2 = Factor { neg: from.f2.neg != to.f2.neg, num: from.f2.num, den: to.f2.num };
    let f3 = Factor { neg: from.f3.neg != to.f3.neg, num: from.f3.num, den: to.f3.num };
    let p0 = pos_of(from, to.p0);
    let p1 = pos_of(from, to.p1);
    let p2 = pos_of(from, to.p2);
    let p3 = pos_of(from, to.p3);
    let one0 = !f0.neg && f0.num == f0.den;
    let one1 = !f1.neg && f1.num == f1.den;
    let one2 = !f2.neg && f2.num == f2.den;
    let one3 = !f3.neg && f3.num == f3.den;
    Desc {
        p0,
        p1,
        p2,
        p3,
        f0,
        f1,
        f2,
        f3,
        noop: one0 && one1 && one2 && one3 && p0 == 0 && p1 == 1 && p2 == 2 && p3 == 3,
    }
}

// ---------------------------------------------------------------------------
// The symbolic round trip
// ---------------------------------------------------------------------------

/// A component tracked through an adapter application: the input position it
/// came from, and the factors it was multiplied and divided by on the way.
pub struct SymVal {
    pub src: int,
    pub mults: Seq<Factor>,
    pub divs: Seq<Factor>,
}

/// The forward application: output position `i` takes input `post i`
/// multiplied by `factor i`.
pub open spec fn sym_fwd(d: Desc, x: Seq<SymVal>) -> Seq<SymVal> {
    Seq::new(
        4,
        |i: int|
            SymVal {
                src: x[post_spec(d, i)].src,
                mults: x[post_spec(d, i)].mults.push(fac_spec(d, i)),
                divs: x[post_spec(d, i)].divs,
            },
    )
}

/// The inverse application: output position `post i` takes input `i` divided
/// by `factor i` — the inverse permutation with the identical factors.
pub open spec fn sym_inv(d: Desc, x: Seq<SymVal>) -> Seq<SymVal> {
    Seq::new(
        4,
        |j: int|
            SymVal {
                src: x[pos_of_spec(d, j)].src,
                mults: x[pos_of_spec(d, j)].mults,
                divs: x[pos_of_spec(d, j)].divs.push(fac_spec(d, pos_of_spec(d, j))),
            },
    )
}

/// The fresh four-component input: position `j` holds its own label with no
/// factors applied.
pub open spec fn sym_input() -> Seq<SymVal> {
    Seq::new(4, |j: int| SymVal { src: j, mults: Seq::empty(), divs: Seq::empty() })
}

/// A descriptor parsed from text is well-formed and raw, so the laws below
/// apply to it.
pub proof fn lemma_descriptor_wf(s: Seq<char>)
    ensures
        descriptor_spec(s) is Some ==> desc_wf(descriptor_spec(s)->0) && desc_raw(
            descriptor_spec(s)->0,
        ),
{
}

/// Combining two well-formed descriptors gives a well-formed descriptor:
/// every adapter plan the compiler builds satisfies `desc_wf`.
pub proof fn lemma_combine_wf(from: Desc, to: Desc)
    requires
        desc_wf(from),
        desc_wf(to),
    ensures
        desc_wf(combine_spec(from, to)),
{
}

/// Component `j` of the round trip came back to its own position, and the
/// single factor it was divided by is the very factor it was multiplied by.
pub open spec fn round_trip_ok(d: Desc, j: int) -> bool {
    let out = sym_inv(d, sym_fwd(d, sym_input()));
    out[j].src == j && out[j].mults.len() == 1 && out[j].mults == out[j].divs
}

/// The adapter round trip is the identity: applying a well-formed combined
/// descriptor forward and then inverse returns every component to its own
/// position with identical multiplied and divided factors.
pub proof fn lemma_adapt_involution(d: Desc)
    requires
        desc_wf(d),
    ensures
        forall|j: int| 0 <= j < 4 ==> #[trigger] round_trip_ok(d, j),
{
    assert forall|j: int| 0 <= j < 4 implies #[trigger] round_trip_ok(d, j) by {
        let out = sym_inv(d, sym_fwd(d, sym_input()));
        let i = pos_of_spec(d, j);
        assert(0 <= i < 4);
        assert(post_spec(d, i) == j);
        assert(out[j].mults =~= seq![fac_spec(d, i)]);
        assert(out[j].divs =~= seq![fac_spec(d, i)]);
    }
}

} // verus!
