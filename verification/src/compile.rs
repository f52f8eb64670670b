use vstd::prelude::*;

verus! {

use crate::adapt::{combine_spec, combine_descriptors, descriptor_chars, descriptor_spec};
use crate::args::{flag_spec, is_number, is_number_spec, lookup, lookup_spec, string_spec};
use crate::chars::{chars_eq_str, string_from_chars, subvec, to_chars};
use crate::gys::gys_to_yaml_spec;
use crate::op::{
    args_view, lemma_args_view_index, leaf_view, op_view, step_view, steps_view, Kind, Leaf,
    OpNode, OpV, Step, StepV, LeafV,
};
use crate::parse::{
    entries_view, lex, lex_spec, parse_doc, p_doc_spec, val_view, Doc, Val, ValV,
};

// ---------------------------------------------------------------------------
// Compilation.
//
// A definition is normalized — rewritten to longhand, lexed, parsed — into a
// canonical step list, and each step is resolved in order against the macro
// registry, the user-operator registry, and the builtin table.  A macro
// expands to its own normalized definition, with the invoking step's
// arguments merged over the expansion's outermost arguments (the invoking
// step wins); a fuel bound cuts circular expansions off as a parse error.
// ---------------------------------------------------------------------------

/// A compilation error.
pub enum Error {
    /// The definition is malformed.
    Parse,
    /// No macro, user operator or builtin has the name.
    NotFound(String),
    /// A recognized numeric option does not hold a number, or an axis
    /// descriptor is malformed.
    BadParameter(String, String),
    /// An operation handle does not name a stored operation.
    InvalidHandle,
}

/// The view of an error.
pub enum ErrV {
    Parse,
    NotFound(Seq<char>),
    BadParameter(Seq<char>, Seq<char>),
    InvalidHandle,
}

pub open spec fn err_view(e: &Error) -> ErrV {
    match e {
        Error::Parse => ErrV::Parse,
        Error::NotFound(n) => ErrV::NotFound(n@),
        Error::BadParameter(n, k) => ErrV::BadParameter(n@, k@),
        Error::InvalidHandle => ErrV::InvalidHandle,
    }
}

// ---------------------------------------------------------------------------
// Normalization into a canonical form
// ---------------------------------------------------------------------------

/// The canonical form of a definition: one step, or a pipeline's step list
/// with the pipeline's own arguments.
pub enum Norm {
    Single(Step),
    Pipeline(Vec<Step>, Vec<(String, String)>),
}

/// The view of a canonical form.
pub enum NormV {
    Single(StepV),
    Pipeline(Seq<StepV>, Seq<(Seq<char>, Seq<char>)>),
}

pub open spec fn norm_view(n: &Norm) -> NormV {
    match n {
        Norm::Single(st) => NormV::Single(step_view(st)),
        Norm::Pipeline(sts, pargs) => NormV::Pipeline(steps_view(sts@), args_view(pargs@)),
    }
}

/// Separates a parsed document's entries into scalar arguments and the step
/// list under `steps`; a scalar under `steps`, or two step lists, is
/// malformed.
pub open spec fn split_entries_spec(es: Seq<(Seq<char>, ValV)>) -> Option<
    (Seq<(Seq<char>, Seq<char>)>, Option<Seq<StepV>>),
>
    decreases es.len(),
{
    if es.len() == 0 {
        Some((Seq::empty(), None))
    } else {
        match split_entries_spec(es.drop_first()) {
            None => None,
            Some((args, opt)) => {
                let k = es[0].0;
                match es[0].1 {
                    ValV::Scalar(x) => if k == "steps"@ {
                        None
                    } else {
                        Some((seq![(k, x)] + args, opt))
                    },
                    ValV::Steps(ss) => if k == "steps"@ && opt is None {
                        Some((args, Some(ss)))
                    } else {
                        None
                    },
                }
            },
        }
    }
}

/// The canonical form of a definition: longhand text, token list, document,
/// and the document's entries separated.
pub open spec fn normalize_spec(s: Seq<char>) -> Option<NormV> {
    let ts = lex_spec(gys_to_yaml_spec(s));
    match p_doc_spec(ts) {
        None => None,
        Some(doc) => match split_entries_spec(doc.entries) {
            None => None,
            Some((args, opt)) => match opt {
                None => Some(NormV::Single(StepV { name: doc.name, args })),
                Some(sts) => Some(NormV::Pipeline(sts, args)),
            },
        },
    }
}

fn split_entries(es: Vec<(String, Val)>) -> (r: Option<
    (Vec<(String, String)>, Option<Vec<Step>>),
>)
    ensures
        match r {
            Some(p) => split_entries_spec(entries_view(es@)) == Some(
                (
                    args_view(p.0@),
                    match p.1 {
                        Some(ss) => Some(steps_view(ss@)),
                        None => None::<Seq<StepV>>,
                    },
                ),
            ),
            None => split_entries_spec(entries_view(es@)) is None,
        },
    decreases es@.len(),
{
    let mut es = es;
    if es.len() == 0 {
        let empty: Vec<(String, String)> = Vec::new();
        proof {
            assert(entries_view(es@) =~= Seq::<(Seq<char>, ValV)>::empty());
            assert(args_view(empty@) =~= Seq::<(Seq<char>, Seq<char>)>::empty());
        }
        return Some((empty, None));
    }
    let ghost es0 = es@;
    let (k, v) = es.remove(0);
    proof {
        assert(es@ =~= es0.drop_first());
        assert(entries_view(es0) =~= seq![(es0[0].0@, val_view(&es0[0].1))] + entries_view(
            es0.drop_first(),
        ));
        assert(entries_view(es0)[0] == (es0[0].0@, val_view(&es0[0].1)));
        assert(entries_view(es0).drop_first() =~= entries_view(es0.drop_first()));
    }
    match split_entries(es) {
        None => None,
        Some((args, opt)) => {
            let kc = to_chars(k.as_str());
            let is_steps = chars_eq_str(&kc, "steps");
            match v {
                Val::Scalar(x) => {
                    if is_steps {
                        None
                    } else {
                        let ghost argsv = args@;
                        let ghost xv = x@;
                        let mut out = args;
                        out.insert(0, (k, x));
                        proof {
                            assert(out@.drop_first() =~= argsv);
                            assert(args_view(out@) =~= seq![(es0[0].0@, xv)] + args_view(argsv));
                        }
                        Some((out, opt))
                    }
                },
                Val::Steps(ss) => {
                    if is_steps && matches!(opt, None) {
                        Some((args, Some(ss)))
                    } else {
                        None
                    }
                },
            }
        },
    }
}

/// Normalizes a definition text to its canonical form, as `normalize_spec`
/// states it.
pub fn normalize(v: &Vec<char>) -> (r: Option<Norm>)
    ensures
        match r {
            Some(n) => normalize_spec(v@) == Some(norm_view(&n)),
            None => normalize_spec(v@) is None,
        },
{
    let y = crate::gys::gys_to_yaml_chars(v);
    let ts = lex(&y);
    match parse_doc(&ts) {
        None => None,
        Some(doc) => {
            let Doc { name, entries } = doc;
            match split_entries(entries) {
                None => None,
                Some((args, opt)) => match opt {
                    None => Some(Norm::Single(Step { name, args })),
                    Some(ss) => Some(Norm::Pipeline(ss, args)),
                },
            }
        },
    }
}

// ---------------------------------------------------------------------------
// Registries and merging
// ---------------------------------------------------------------------------

/// The view of a name list.
pub open spec fn names_view(ns: Seq<String>) -> Seq<Seq<char>>
    decreases ns.len(),
{
    if ns.len() == 0 {
        Seq::empty()
    } else {
        seq![ns[0]@] + names_view(ns.drop_first())
    }
}

/// Whether the name list holds `k`.
pub open spec fn has_name(ns: Seq<Seq<char>>, k: Seq<char>) -> bool
    decreases ns.len(),
{
    if ns.len() == 0 {
        false
    } else {
        ns[0] == k || has_name(ns.drop_first(), k)
    }
}

fn has_name_from(ns: &Vec<String>, i: usize, key: &str) -> (r: bool)
    requires
        i <= ns@.len(),
    ensures
        r == has_name(names_view(ns@).subrange(i as int, ns@.len() as int), key@),
    decreases ns@.len() - i,
{
    proof {
        lemma_names_view_index(ns@);
    }
    if i == ns.len() {
        proof {
            assert(names_view(ns@).subrange(i as int, ns@.len() as int) =~= Seq::<
                Seq<char>,
            >::empty());
        }
        return false;
    }
    proof {
        assert(names_view(ns@).subrange(i as int, ns@.len() as int).drop_first() =~= names_view(
            ns@,
        ).subrange(i + 1, ns@.len() as int));
    }
    let nv = to_chars(ns[i].as_str());
    if chars_eq_str(&nv, key) {
        true
    } else {
        has_name_from(ns, i + 1, key)
    }
}

/// Whether `ns` registers `key`, as `has_name` states it.
pub fn has_name_exec(ns: &Vec<String>, key: &str) -> (r: bool)
    ensures
        r == has_name(names_view(ns@), key@),
{
    let r = has_name_from(ns, 0, key);
    proof {
        lemma_names_view_index(ns@);
        assert(names_view(ns@).subrange(0, ns@.len() as int) =~= names_view(ns@));
    }
    r
}

pub proof fn lemma_names_view_index(ns: Seq<String>)
    ensures
        names_view(ns).len() == ns.len(),
        forall|j: int| 0 <= j < ns.len() ==> names_view(ns)[j] == ns[j]@,
    decreases ns.len(),
{
    if ns.len() > 0 {
        lemma_names_view_index(ns.drop_first());
        assert forall|j: int| 0 <= j < ns.len() implies names_view(ns)[j] == ns[j]@ by {
            if j > 0 {
                assert(ns.drop_first()[j - 1] == ns[j]);
            }
        }
    }
}

/// The base arguments, each overridden by the overlay where the overlay has
/// the same key.
pub open spec fn override_base(
    base: Seq<(Seq<char>, Seq<char>)>,
    over: Seq<(Seq<char>, Seq<char>)>,
) -> Seq<(Seq<char>, Seq<char>)>
    decreases base.len(),
{
    if base.len() == 0 {
        base
    } else {
        let v = match lookup_spec(over, base[0].0) {
            Some(w) => w,
            None => base[0].1,
        };
        seq![(base[0].0, v)] + override_base(base.drop_first(), over)
    }
}

/// The overlay entries whose keys the base does not hold, in order.
pub open spec fn extras(
    over: Seq<(Seq<char>, Seq<char>)>,
    base: Seq<(Seq<char>, Seq<char>)>,
) -> Seq<(Seq<char>, Seq<char>)>
    decreases over.len(),
{
    if over.len() == 0 {
        over
    } else if lookup_spec(base, over[0].0) is Some {
        extras(over.drop_first(), base)
    } else {
        seq![over[0]] + extras(over.drop_first(), base)
    }
}

/// The shallow merge of an invoking step's arguments over a macro's
/// outermost arguments: the invoking step wins on a shared key, keys keep
/// the base's order, and the invoking step's own keys follow.
pub open spec fn merge_spec(
    base: Seq<(Seq<char>, Seq<char>)>,
    over: Seq<(Seq<char>, Seq<char>)>,
) -> Seq<(Seq<char>, Seq<char>)> {
    override_base(base, over) + extras(over, base)
}

fn override_base_from(
    base: &Vec<(String, String)>,
    over: &Vec<(String, String)>,
    i: usize,
) -> (r: Vec<(String, String)>)
    requires
        i <= base@.len(),
    ensures
        args_view(r@) == override_base(
            args_view(base@).subrange(i as int, base@.len() as int),
            args_view(over@),
        ),
    decreases base@.len() - i,
{
    proof {
        lemma_args_view_index(base@);
    }
    if i == base.len() {
        let r: Vec<(String, String)> = Vec::new();
        proof {
            assert(args_view(r@) =~= Seq::<(Seq<char>, Seq<char>)>::empty());
            assert(args_view(base@).subrange(i as int, base@.len() as int) =~= Seq::<
                (Seq<char>, Seq<char>),
            >::empty());
        }
        return r;
    }
    proof {
        assert(args_view(base@).subrange(i as int, base@.len() as int).drop_first() =~= args_view(
            base@,
        ).subrange(i + 1, base@.len() as int));
    }
    let rest = override_base_from(base, over, i + 1);
    let key = copy_string(&base[i].0);
    let val = match lookup(over, base[i].0.as_str()) {
        Some(w) => w,
        None => copy_string(&base[i].1),
    };
    let ghost restv = rest@;
    let mut out = rest;
    out.insert(0, (key, val));
    proof {
        assert(out@.drop_first() =~= restv);
        assert(args_view(out@) =~= seq![(base@[i as int].0@, args_view(out@)[0].1)] + args_view(
            restv,
        ));
    }
    out
}

fn extras_from(over: &Vec<(String, String)>, base: &Vec<(String, String)>, i: usize) -> (r: Vec<
    (String, String),
>)
    requires
        i <= over@.len(),
    ensures
        args_view(r@) == extras(
            args_view(over@).subrange(i as int, over@.len() as int),
            args_view(base@),
        ),
    decreases over@.len() - i,
{
    proof {
        lemma_args_view_index(over@);
    }
    if i == over.len() {
        let r: Vec<(String, String)> = Vec::new();
        proof {
            assert(args_view(r@) =~= Seq::<(Seq<char>, Seq<char>)>::empty());
            assert(args_view(over@).subrange(i as int, over@.len() as int) =~= Seq::<
                (Seq<char>, Seq<char>),
            >::empty());
        }
        return r;
    }
    proof {
        assert(args_view(over@).subrange(i as int, over@.len() as int).drop_first() =~= args_view(
            over@,
        ).subrange(i + 1, over@.len() as int));
    }
    let rest = extras_from(over, base, i + 1);
    match lookup(base, over[i].0.as_str()) {
        Some(_) => rest,
        None => {
            let key = copy_string(&over[i].0);
            let val = copy_string(&over[i].1);
            let ghost restv = rest@;
            let mut out = rest;
            out.insert(0, (key, val));
            proof {
                assert(out@.drop_first() =~= restv);
                assert(args_view(out@) =~= seq![(over@[i as int].0@, over@[i as int].1@)]
                    + args_view(restv));
            }
            out
        },
    }
}

/// Merges an invoking step's arguments over a base, as `merge_spec` states
/// it.
pub fn merge(base: &Vec<(String, String)>, over: &Vec<(String, String)>) -> (r: Vec<
    (String, String),
>)
    ensures
        args_view(r@) == merge_spec(args_view(base@), args_view(over@)),
{
    let mut a = override_base_from(base, over, 0);
    let ghost av = a@;
    let mut b = extras_from(over, base, 0);
    let ghost bv = b@;
    a.append(&mut b);
    proof {
        lemma_args_view_index(base@);
        lemma_args_view_index(over@);
        assert(args_view(base@).subrange(0, base@.len() as int) =~= args_view(base@));
        assert(args_view(over@).subrange(0, over@.len() as int) =~= args_view(over@));
        lemma_args_view_concat(av, bv);
    }
    a
}

proof fn lemma_args_view_concat(a: Seq<(String, String)>, b: Seq<(String, String)>)
    ensures
        args_view(a + b) == args_view(a) + args_view(b),
{
    lemma_args_view_index(a);
    lemma_args_view_index(b);
    lemma_args_view_index(a + b);
    assert(args_view(a + b) =~= args_view(a) + args_view(b));
}

/// A fresh string with the same characters.
pub fn copy_string(s: &String) -> (r: String)
    ensures
        r@ == s@,
{
    let v = to_chars(s.as_str());
    let w = subvec(&v, 0, v.len());
    proof {
        assert(w@ =~= s@);
    }
    string_from_chars(w)
}

/// A fresh argument list with the same pairs.
pub fn copy_pairs(a: &Vec<(String, String)>) -> (r: Vec<(String, String)>)
    ensures
        args_view(r@) == args_view(a@),
{
    let mut r: Vec<(String, String)> = Vec::new();
    let mut i: usize = 0;
    proof {
        lemma_args_view_index(a@);
    }
    while i < a.len()
        invariant
            i <= a@.len(),
            args_view(r@) == args_view(a@).subrange(0, i as int),
            args_view(a@).len() == a@.len(),
            forall|j: int| 0 <= j < a@.len() ==> args_view(a@)[j] == (a@[j].0@, a@[j].1@),
        decreases a@.len() - i,
    {
        let k = copy_string(&a[i].0);
        let v = copy_string(&a[i].1);
        let ghost rv = r@;
        r.push((k, v));
        proof {
            lemma_args_view_index(r@);
            lemma_args_view_index(rv);
            assert(args_view(r@) =~= args_view(a@).subrange(0, i + 1));
        }
        i = i + 1;
    }
    proof {
        assert(args_view(a@).subrange(0, a@.len() as int) =~= args_view(a@));
    }
    r
}

// ---------------------------------------------------------------------------
// Leaf construction
// ---------------------------------------------------------------------------

/// The builtin operator table.
pub open spec fn builtin_kind(n: Seq<char>) -> Option<Kind> {
    if n == "cart"@ {
        Some(Kind::Cart)
    } else if n == "helmert"@ {
        Some(Kind::Helmert)
    } else if n == "tmerc"@ {
        Some(Kind::Tmerc)
    } else if n == "utm"@ {
        Some(Kind::Utm)
    } else if n == "noop"@ {
        Some(Kind::Noop)
    } else if n == "addone"@ {
        Some(Kind::Addone)
    } else if n == "molodensky"@ {
        Some(Kind::Molodensky)
    } else {
        None
    }
}

/// A recognized numeric option either is absent or holds a number.
pub open spec fn num_ok(a: Seq<(Seq<char>, Seq<char>)>, k: Seq<char>) -> bool {
    match lookup_spec(a, k) {
        Some(v) => is_number_spec(v),
        None => true,
    }
}

/// The first recognized numeric option of the kind whose value is not a
/// number.
pub open spec fn first_bad_key(kind: Kind, a: Seq<(Seq<char>, Seq<char>)>) -> Option<Seq<char>> {
    match kind {
        Kind::Helmert => if !num_ok(a, "x"@) {
            Some("x"@)
        } else if !num_ok(a, "y"@) {
            Some("y"@)
        } else if !num_ok(a, "z"@) {
            Some("z"@)
        } else {
            None
        },
        Kind::Molodensky => if !num_ok(a, "dx"@) {
            Some("dx"@)
        } else if !num_ok(a, "dy"@) {
            Some("dy"@)
        } else if !num_ok(a, "dz"@) {
            Some("dz"@)
        } else if !num_ok(a, "da"@) {
            Some("da"@)
        } else if !num_ok(a, "df"@) {
            Some("df"@)
        } else {
            None
        },
        Kind::Tmerc => if !num_ok(a, "lon_0"@) {
            Some("lon_0"@)
        } else if !num_ok(a, "lat_0"@) {
            Some("lat_0"@)
        } else if !num_ok(a, "x_0"@) {
            Some("x_0"@)
        } else if !num_ok(a, "y_0"@) {
            Some("y_0"@)
        } else if !num_ok(a, "k_0"@) {
            Some("k_0"@)
        } else {
            None
        },
        Kind::Utm => if !num_ok(a, "zone"@) {
            Some("zone"@)
        } else {
            None
        },
        _ => None,
    }
}

fn num_ok_exec(a: &Vec<(String, String)>, key: &str) -> (r: bool)
    ensures
        r == num_ok(args_view(a@), key@),
{
    match lookup(a, key) {
        Some(v) => is_number(&to_chars(v.as_str())),
        None => true,
    }
}

fn get_flag(a: &Vec<(String, String)>, key: &str) -> (r: bool)
    ensures
        r == flag_spec(args_view(a@), key@),
{
    match lookup(a, key) {
        Some(v) => chars_eq_str(&to_chars(v.as_str()), "true"),
        None => false,
    }
}

fn get_string(a: &Vec<(String, String)>, key: &str, default: &str) -> (r: String)
    ensures
        r@ == string_spec(args_view(a@), key@, default@),
{
    match lookup(a, key) {
        Some(v) => v,
        None => default.to_owned(),
    }
}

/// The compiled leaf for one step whose name resolves to a builtin: the
/// universal `inv` flag is read, the adapter's descriptors are compiled, and
/// the recognized numeric options are validated.
pub open spec fn compile_leaf_spec(st: StepV) -> Result<LeafV, ErrV> {
    let inv = flag_spec(st.args, "inv"@);
    if st.name == "adapt"@ {
        let from0 = string_spec(st.args, "from"@, "enut"@);
        let to0 = string_spec(st.args, "to"@, "enut"@);
        let f = if inv {
            to0
        } else {
            from0
        };
        let t = if inv {
            from0
        } else {
            to0
        };
        match descriptor_spec(f) {
            None => Err(ErrV::BadParameter("adapt"@, "from"@)),
            Some(fd) => match descriptor_spec(t) {
                None => Err(ErrV::BadParameter("adapt"@, "to"@)),
                Some(td) => Ok(
                    LeafV {
                        kind: Kind::Adapt(combine_spec(fd, td)),
                        name: st.name,
                        args: st.args,
                        inverted: inv,
                    },
                ),
            },
        }
    } else {
        match builtin_kind(st.name) {
            None => Err(ErrV::NotFound(st.name)),
            Some(kind) => match first_bad_key(kind, st.args) {
                Some(k) => Err(ErrV::BadParameter(st.name, k)),
                None => Ok(LeafV { kind, name: st.name, args: st.args, inverted: inv }),
            },
        }
    }
}

fn compile_leaf(st: &Step) -> (r: Result<Leaf, Error>)
    ensures
        match r {
            Ok(l) => compile_leaf_spec(step_view(st)) == Ok::<LeafV, ErrV>(leaf_view(&l)),
            Err(e) => compile_leaf_spec(step_view(st)) == Err::<LeafV, ErrV>(err_view(&e)),
        },
{
    let inv = get_flag(&st.args, "inv");
    let namec = to_chars(st.name.as_str());
    if chars_eq_str(&namec, "adapt") {
        let from0 = get_string(&st.args, "from", "enut");
        let to0 = get_string(&st.args, "to", "enut");
        let (f, t) = if inv {
            (to0, from0)
        } else {
            (from0, to0)
        };
        match descriptor_chars(&to_chars(f.as_str())) {
            None => Err(Error::BadParameter("adapt".to_owned(), "from".to_owned())),
            Some(fd) => match descriptor_chars(&to_chars(t.as_str())) {
                None => Err(Error::BadParameter("adapt".to_owned(), "to".to_owned())),
                Some(td) => {
                    let plan = combine_descriptors(&fd, &td);
                    Ok(
                        Leaf {
                            kind: Kind::Adapt(plan),
                            name: copy_string(&st.name),
                            args: copy_pairs(&st.args),
                            inverted: inv,
                        },
                    )
                },
            },
        }
    } else {
        let kind: Kind;
        if chars_eq_str(&namec, "cart") {
            kind = Kind::Cart;
        } else if chars_eq_str(&namec, "helmert") {
            kind = Kind::Helmert;
        } else if chars_eq_str(&namec, "tmerc") {
            kind = Kind::Tmerc;
        } else if chars_eq_str(&namec, "utm") {
            kind = Kind::Utm;
        } else if chars_eq_str(&namec, "noop") {
            kind = Kind::Noop;
        } else if chars_eq_str(&namec, "addone") {
            kind = Kind::Addone;
        } else if chars_eq_str(&namec, "molodensky") {
            kind = Kind::Molodensky;
        } else {
            return Err(Error::NotFound(copy_string(&st.name)));
        }
        let bad: Option<&str> = match kind {
            Kind::Helmert => {
                if !num_ok_exec(&st.args, "x") {
                    Some("x")
                } else if !num_ok_exec(&st.args, "y") {
                    Some("y")
                } else if !num_ok_exec(&st.args, "z") {
                    Some("z")
                } else {
                    None
                }
            },
            Kind::Molodensky => {
                if !num_ok_exec(&st.args, "dx") {
                    Some("dx")
                } else if !num_ok_exec(&st.args, "dy") {
                    Some("dy")
                } else if !num_ok_exec(&st.args, "dz") {
                    Some("dz")
                } else if !num_ok_exec(&st.args, "da") {
                    Some("da")
                } else if !num_ok_exec(&st.args, "df") {
                    Some("df")
                } else {
                    None
                }
            },
            Kind::Tmerc => {
                if !num_ok_exec(&st.args, "lon_0") {
                    Some("lon_0")
                } else if !num_ok_exec(&st.args, "lat_0") {
                    Some("lat_0")
                } else if !num_ok_exec(&st.args, "x_0") {
                    Some("x_0")
                } else if !num_ok_exec(&st.args, "y_0") {
                    Some("y_0")
                } else if !num_ok_exec(&st.args, "k_0") {
                    Some("k_0")
                } else {
                    None
                }
            },
            Kind::Utm => {
                if !num_ok_exec(&st.args, "zone") {
                    Some("zone")
                } else {
                    None
                }
            },
            _ => None,
        };
        match bad {
            Some(k) => Err(Error::BadParameter(copy_string(&st.name), k.to_owned())),
            None => Ok(
                Leaf {
                    kind,
                    name: copy_string(&st.name),
                    args: copy_pairs(&st.args),
                    inverted: inv,
                },
            ),
        }
    }
}

// ---------------------------------------------------------------------------
// Step resolution
// ---------------------------------------------------------------------------

/// The compiled operator for one step: a macro expands recursively with the
/// invoking arguments merged over the expansion's outermost arguments, a
/// user-registered name compiles to its own leaf, and anything else must be
/// a builtin.  `fuel` bounds macro nesting; exhausting it is a parse error.
pub open spec fn compile_step_spec(
    st: StepV,
    macros: Seq<(Seq<char>, Seq<char>)>,
    userops: Seq<Seq<char>>,
    fuel: nat,
) -> Result<OpV, ErrV>
    decreases fuel, 0int, 0int,
{
    match lookup_spec(macros, st.name) {
        Some(def) => if fuel == 0 {
            Err(ErrV::Parse)
        } else {
            match normalize_spec(def) {
                None => Err(ErrV::Parse),
                Some(NormV::Single(mst)) => compile_step_spec(
                    StepV { name: mst.name, args: merge_spec(mst.args, st.args) },
                    macros,
                    userops,
                    (fuel - 1) as nat,
                ),
                Some(NormV::Pipeline(sts, pargs)) => compile_pipe_spec(
                    sts,
                    merge_spec(pargs, st.args),
                    macros,
                    userops,
                    (fuel - 1) as nat,
                ),
            }
        },
        None => if has_name(userops, st.name) {
            Ok(
                OpV::Leaf(
                    LeafV {
                        kind: Kind::Custom,
                        name: st.name,
                        args: st.args,
                        inverted: flag_spec(st.args, "inv"@),
                    },
                ),
            )
        } else {
            match compile_leaf_spec(st) {
                Ok(l) => Ok(OpV::Leaf(l)),
                Err(e) => Err(e),
            }
        },
    }
}

/// The compiled pipeline for a step list and the pipeline's own arguments.
pub open spec fn compile_pipe_spec(
    sts: Seq<StepV>,
    pargs: Seq<(Seq<char>, Seq<char>)>,
    macros: Seq<(Seq<char>, Seq<char>)>,
    userops: Seq<Seq<char>>,
    fuel: nat,
) -> Result<OpV, ErrV>
    decreases fuel, 2int, 0int,
{
    match compile_list_spec(sts, macros, userops, fuel) {
        Err(e) => Err(e),
        Ok(children) => Ok(OpV::Pipe(children, flag_spec(pargs, "inv"@))),
    }
}

pub open spec fn compile_list_spec(
    sts: Seq<StepV>,
    macros: Seq<(Seq<char>, Seq<char>)>,
    userops: Seq<Seq<char>>,
    fuel: nat,
) -> Result<Seq<OpV>, ErrV>
    decreases fuel, 1int, sts.len(),
{
    if sts.len() == 0 {
        Ok(Seq::empty())
    } else {
        match compile_step_spec(sts[0], macros, userops, fuel) {
            Err(e) => Err(e),
            Ok(child) => match compile_list_spec(sts.drop_first(), macros, userops, fuel) {
                Err(e) => Err(e),
                Ok(rest) => Ok(seq![child] + rest),
            },
        }
    }
}

/// The compiled operator for a whole definition.
pub open spec fn compile_def_spec(
    s: Seq<char>,
    macros: Seq<(Seq<char>, Seq<char>)>,
    userops: Seq<Seq<char>>,
    fuel: nat,
) -> Result<OpV, ErrV> {
    match normalize_spec(s) {
        None => Err(ErrV::Parse),
        Some(NormV::Single(st)) => compile_step_spec(st, macros, userops, fuel),
        Some(NormV::Pipeline(sts, pargs)) => compile_pipe_spec(sts, pargs, macros, userops, fuel),
    }
}

pub fn compile_step(
    st: &Step,
    macros: &Vec<(String, String)>,
    userops: &Vec<String>,
    fuel: usize,
) -> (r: Result<OpNode, Error>)
    ensures
        match r {
            Ok(op) => compile_step_spec(
                step_view(st),
                args_view(macros@),
                names_view(userops@),
                fuel as nat,
            ) == Ok::<OpV, ErrV>(op_view(&op)),
            Err(e) => compile_step_spec(
                step_view(st),
                args_view(macros@),
                names_view(userops@),
                fuel as nat,
            ) == Err::<OpV, ErrV>(err_view(&e)),
        },
    decreases fuel, 0int, 0int,
{
    match lookup(macros, st.name.as_str()) {
        Some(def) => {
            if fuel == 0 {
                return Err(Error::Parse);
            }
            let defc = to_chars(def.as_str());
            match normalize(&defc) {
                None => Err(Error::Parse),
                Some(Norm::Single(mst)) => {
                    let merged = Step {
                        name: copy_string(&mst.name),
                        args: merge(&mst.args, &st.args),
                    };
                    compile_step(&merged, macros, userops, fuel - 1)
                },
                Some(Norm::Pipeline(sts, pargs)) => {
                    let merged = merge(&pargs, &st.args);
                    compile_pipe(&sts, &merged, macros, userops, fuel - 1)
                },
            }
        },
        None => {
            if has_name_exec(userops, st.name.as_str()) {
                let inv = get_flag(&st.args, "inv");
                Ok(
                    OpNode::Leaf(
                        Leaf {
                            kind: Kind::Custom,
                            name: copy_string(&st.name),
                            args: copy_pairs(&st.args),
                            inverted: inv,
                        },
                    ),
                )
            } else {
                match compile_leaf(st) {
                    Ok(l) => Ok(OpNode::Leaf(l)),
                    Err(e) => Err(e),
                }
            }
        },
    }
}

pub fn compile_pipe(
    sts: &Vec<Step>,
    pargs: &Vec<(String, String)>,
    macros: &Vec<(String, String)>,
    userops: &Vec<String>,
    fuel: usize,
) -> (r: Result<OpNode, Error>)
    ensures
        match r {
            Ok(op) => compile_pipe_spec(
                steps_view(sts@),
                args_view(pargs@),
                args_view(macros@),
                names_view(userops@),
                fuel as nat,
            ) == Ok::<OpV, ErrV>(op_view(&op)),
            Err(e) => compile_pipe_spec(
                steps_view(sts@),
                args_view(pargs@),
                args_view(macros@),
                names_view(userops@),
                fuel as nat,
            ) == Err::<OpV, ErrV>(err_view(&e)),
        },
    decreases fuel, 2int, 0int,
{
    proof {
        crate::op::lemma_steps_view_index(sts@);
        assert(steps_view(sts@).subrange(0, sts@.len() as int) =~= steps_view(sts@));
    }
    match compile_list(sts, 0, macros, userops, fuel) {
        Err(e) => Err(e),
        Ok(children) => {
            let inv = get_flag(pargs, "inv");
            Ok(OpNode::Pipe(children, inv))
        },
    }
}

fn compile_list(
    sts: &Vec<Step>,
    i: usize,
    macros: &Vec<(String, String)>,
    userops: &Vec<String>,
    fuel: usize,
) -> (r: Result<Vec<OpNode>, Error>)
    requires
        i <= sts@.len(),
    ensures
        match r {
            Ok(children) => compile_list_spec(
                steps_view(sts@).subrange(i as int, sts@.len() as int),
                args_view(macros@),
                names_view(userops@),
                fuel as nat,
            ) == Ok::<Seq<OpV>, ErrV>(crate::op::ops_view(children@)),
            Err(e) => compile_list_spec(
                steps_view(sts@).subrange(i as int, sts@.len() as int),
                args_view(macros@),
                names_view(userops@),
                fuel as nat,
            ) == Err::<Seq<OpV>, ErrV>(err_view(&e)),
        },
    decreases fuel, 1int, sts@.len() - i,
{
    proof {
        crate::op::lemma_steps_view_index(sts@);
    }
    if i == sts.len() {
        let r: Vec<OpNode> = Vec::new();
        proof {
            assert(steps_view(sts@).subrange(i as int, sts@.len() as int) =~= Seq::<
                StepV,
            >::empty());
            assert(crate::op::ops_view(r@) =~= Seq::<OpV>::empty());
        }
        return Ok(r);
    }
    proof {
        assert(steps_view(sts@).subrange(i as int, sts@.len() as int).drop_first() =~= steps_view(
            sts@,
        ).subrange(i + 1, sts@.len() as int));
    }
    match compile_step(&sts[i], macros, userops, fuel) {
        Err(e) => Err(e),
        Ok(child) => match compile_list(sts, i + 1, macros, userops, fuel) {
            Err(e) => Err(e),
            Ok(rest) => {
                let ghost childv = op_view(&child);
                let ghost restv = rest@;
                let mut out = rest;
                out.insert(0, child);
                proof {
                    assert(out@.drop_first() =~= restv);
                    assert(crate::op::ops_view(out@) =~= seq![childv] + crate::op::ops_view(
                        restv,
                    ));
                }
                Ok(out)
            },
        },
    }
}

/// Compiles a whole definition, as `compile_def_spec` states it.
pub fn compile_def(
    v: &Vec<char>,
    macros: &Vec<(String, String)>,
    userops: &Vec<String>,
    fuel: usize,
) -> (r: Result<OpNode, Error>)
    ensures
        match r {
            Ok(op) => compile_def_spec(
                v@,
                args_view(macros@),
                names_view(userops@),
                fuel as nat,
            ) == Ok::<OpV, ErrV>(op_view(&op)),
            Err(e) => compile_def_spec(
                v@,
                args_view(macros@),
                names_view(userops@),
                fuel as nat,
            ) == Err::<OpV, ErrV>(err_view(&e)),
        },
{
    match normalize(v) {
        None => Err(Error::Parse),
        Some(Norm::Single(st)) => compile_step(&st, macros, userops, fuel),
        Some(Norm::Pipeline(sts, pargs)) => compile_pipe(&sts, &pargs, macros, userops, fuel),
    }
}

} // verus!
