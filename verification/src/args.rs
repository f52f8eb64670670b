use vstd::prelude::*;

verus! {

use crate::chars::{subvec, to_chars, chars_eq_str};
use crate::op::args_view;

// ---------------------------------------------------------------------------
// Step arguments.
//
// The arguments of one step are an ordered key/value list.  Typed accessors
// record which keys were consumed; the ledger serves diagnostics only.
// Numeric values are validated against the standard floating-point lexical
// grammar — the engine checks the text, hosts convert it.
// ---------------------------------------------------------------------------

/// The first value under `k`, if any.
pub open spec fn lookup_spec(a: Seq<(Seq<char>, Seq<char>)>, k: Seq<char>) -> Option<Seq<char>>
    decreases a.len(),
{
    if a.len() == 0 {
        None
    } else if a[0].0 == k {
        Some(a[0].1)
    } else {
        lookup_spec(a.drop_first(), k)
    }
}

/// A key is a set flag iff its value is the word `true`.
pub open spec fn flag_spec(a: Seq<(Seq<char>, Seq<char>)>, k: Seq<char>) -> bool {
    lookup_spec(a, k) == Some("true"@)
}

/// The value under `k`, or `default` when absent.
pub open spec fn string_spec(
    a: Seq<(Seq<char>, Seq<char>)>,
    k: Seq<char>,
    default: Seq<char>,
) -> Seq<char> {
    match lookup_spec(a, k) {
        Some(v) => v,
        None => default,
    }
}

fn lookup_from(pairs: &Vec<(String, String)>, i: usize, key: &str) -> (r: Option<String>)
    requires
        i <= pairs@.len(),
    ensures
        match r {
            Some(v) => lookup_spec(
                args_view(pairs@).subrange(i as int, pairs@.len() as int),
                key@,
            ) == Some(v@),
            None => lookup_spec(args_view(pairs@).subrange(i as int, pairs@.len() as int), key@)
                is None,
        },
    decreases pairs@.len() - i,
{
    proof {
        crate::op::lemma_args_view_index(pairs@);
    }
    if i == pairs.len() {
        proof {
            assert(args_view(pairs@).subrange(i as int, pairs@.len() as int)
                =~= Seq::<(Seq<char>, Seq<char>)>::empty());
        }
        return None;
    }
    proof {
        assert(args_view(pairs@).subrange(i as int, pairs@.len() as int).drop_first() =~= args_view(
            pairs@,
        ).subrange(i + 1, pairs@.len() as int));
    }
    let kv = to_chars(pairs[i].0.as_str());
    if chars_eq_str(&kv, key) {
        let vv = to_chars(pairs[i].1.as_str());
        let w = subvec(&vv, 0, vv.len());
        proof {
            assert(w@ =~= pairs@[i as int].1@);
        }
        Some(crate::chars::string_from_chars(w))
    } else {
        lookup_from(pairs, i + 1, key)
    }
}

/// The first value under `key` in `pairs`, as `lookup_spec` states it.
pub fn lookup(pairs: &Vec<(String, String)>, key: &str) -> (r: Option<String>)
    ensures
        match r {
            Some(v) => lookup_spec(args_view(pairs@), key@) == Some(v@),
            None => lookup_spec(args_view(pairs@), key@) is None,
        },
{
    let r = lookup_from(pairs, 0, key);
    proof {
        crate::op::lemma_args_view_index(pairs@);
        assert(args_view(pairs@).subrange(0, pairs@.len() as int) =~= args_view(pairs@));
    }
    r
}

/// The arguments of one step, with the consumed-keys ledger.
pub struct OperatorArgs {
    pub pairs: Vec<(String, String)>,
    pub used: Vec<(String, String)>,
}

impl OperatorArgs {
    /// A fresh argument bag with an empty ledger.
    pub fn new(pairs: Vec<(String, String)>) -> (r: OperatorArgs)
        ensures
            r.pairs == pairs,
            r.used@.len() == 0,
    {
        OperatorArgs { pairs, used: Vec::new() }
    }

    /// Whether `key` is present, without consuming it.
    pub fn value(&self, key: &str) -> (r: Option<String>)
        ensures
            match r {
                Some(v) => lookup_spec(args_view(self.pairs@), key@) == Some(v@),
                None => lookup_spec(args_view(self.pairs@), key@) is None,
            },
    {
        lookup(&self.pairs, key)
    }

    /// True iff `key` is set as a flag; a hit records the key and its value
    /// in the ledger.
    pub fn flag(&mut self, key: &str) -> (r: bool)
        ensures
            r == flag_spec(args_view(old(self).pairs@), key@),
            final(self).pairs == old(self).pairs,
            match lookup_spec(args_view(old(self).pairs@), key@) {
                Some(v) => args_view(final(self).used@) == args_view(old(self).used@).push(
                    (key@, v),
                ),
                None => final(self).used == old(self).used,
            },
    {
        match lookup(&self.pairs, key) {
            Some(v) => {
                let hit = crate::chars::chars_eq_str(&to_chars(v.as_str()), "true");
                let ghost pre = self.used@;
                let ghost vv = v@;
                self.used.push((key.to_owned(), v));
                proof {
                    crate::op::lemma_args_view_index(self.used@);
                    crate::op::lemma_args_view_index(pre);
                    assert(args_view(self.used@) =~= args_view(pre).push((key@, vv)));
                }
                hit
            },
            None => false,
        }
    }

    /// The value under `key`, or `default`; a hit records the key and its
    /// value in the ledger.
    pub fn string(&mut self, key: &str, default: &str) -> (r: String)
        ensures
            r@ == string_spec(args_view(old(self).pairs@), key@, default@),
            final(self).pairs == old(self).pairs,
            match lookup_spec(args_view(old(self).pairs@), key@) {
                Some(v) => args_view(final(self).used@) == args_view(old(self).used@).push(
                    (key@, v),
                ),
                None => final(self).used == old(self).used,
            },
    {
        match lookup(&self.pairs, key) {
            Some(v) => {
                let copy = to_chars(v.as_str());
                let ghost pre = self.used@;
                let ghost vv = v@;
                self.used.push((key.to_owned(), v));
                proof {
                    crate::op::lemma_args_view_index(self.used@);
                    crate::op::lemma_args_view_index(pre);
                    assert(args_view(self.used@) =~= args_view(pre).push((key@, vv)));
                }
                crate::chars::string_from_chars(copy)
            },
            None => default.to_owned(),
        }
    }
}

// ---------------------------------------------------------------------------
// Numeric syntax
// ---------------------------------------------------------------------------

pub open spec fn is_digit(c: char) -> bool {
    '0' <= c && c <= '9'
}

/// The length of the leading digit run.
pub open spec fn digits_prefix(s: Seq<char>) -> int
    decreases s.len(),
{
    if s.len() > 0 && is_digit(s[0]) {
        1 + digits_prefix(s.drop_first())
    } else {
        0
    }
}

pub proof fn lemma_digits_prefix_le(s: Seq<char>)
    ensures
        0 <= digits_prefix(s) <= s.len(),
    decreases s.len(),
{
    if s.len() > 0 && is_digit(s[0]) {
        lemma_digits_prefix_le(s.drop_first());
    }
}

/// `s` without a single leading sign.
pub open spec fn after_sign(s: Seq<char>) -> Seq<char> {
    if s.len() > 0 && (s[0] == '+' || s[0] == '-') {
        s.drop_first()
    } else {
        s
    }
}

/// A well-formed exponent part, or nothing.
pub open spec fn exp_ok(r: Seq<char>) -> bool {
    r.len() == 0 || ((r[0] == 'e' || r[0] == 'E') && {
        let r2 = after_sign(r.drop_first());
        digits_prefix(r2) > 0 && digits_prefix(r2) == r2.len()
    })
}

/// The standard floating-point lexical grammar: an optional sign, digits
/// with an optional fraction (or a fraction alone), and an optional
/// exponent.  Words such as `NaN` or `inf` do not match.
pub open spec fn is_number_spec(s: Seq<char>) -> bool {
    let t = after_sign(s);
    let d = digits_prefix(t);
    let u = t.skip(d);
    if d > 0 {
        if u.len() > 0 && u[0] == '.' {
            let d2 = digits_prefix(u.drop_first());
            exp_ok(u.skip(1 + d2))
        } else {
            exp_ok(u)
        }
    } else {
        if u.len() > 0 && u[0] == '.' {
            let d2 = digits_prefix(u.drop_first());
            d2 > 0 && exp_ok(u.skip(1 + d2))
        } else {
            false
        }
    }
}

fn digits_prefix_exec(v: &Vec<char>) -> (r: usize)
    ensures
        r as int == digits_prefix(v@),
        r <= v@.len(),
{
    proof {
        lemma_digits_prefix_le(v@);
        assert(v@.skip(0) =~= v@);
    }
    let mut k: usize = 0;
    while k < v.len() && '0' <= v[k] && v[k] <= '9'
        invariant
            k <= v@.len(),
            digits_prefix(v@) == k + digits_prefix(v@.skip(k as int)),
            digits_prefix(v@) <= v@.len(),
        decreases v@.len() - k,
    {
        proof {
            assert(v@.skip(k as int).drop_first() =~= v@.skip(k + 1));
        }
        k = k + 1;
    }
    proof {
        if k < v.len() {
            assert(digits_prefix(v@.skip(k as int)) == 0);
        } else {
            assert(v@.skip(k as int) =~= Seq::<char>::empty());
        }
    }
    k
}

fn after_sign_exec(v: &Vec<char>) -> (r: Vec<char>)
    ensures
        r@ == after_sign(v@),
{
    if v.len() > 0 && (v[0] == '+' || v[0] == '-') {
        let t = subvec(v, 1, v.len());
        proof {
            assert(t@ =~= v@.drop_first());
        }
        t
    } else {
        let t = subvec(v, 0, v.len());
        proof {
            assert(t@ =~= v@);
        }
        t
    }
}

fn exp_ok_exec(v: &Vec<char>) -> (r: bool)
    ensures
        r == exp_ok(v@),
{
    if v.len() == 0 {
        return true;
    }
    if !(v[0] == 'e' || v[0] == 'E') {
        return false;
    }
    let t = subvec(v, 1, v.len());
    proof {
        assert(t@ =~= v@.drop_first());
    }
    let r2 = after_sign_exec(&t);
    let d = digits_prefix_exec(&r2);
    d > 0 && d == r2.len()
}

/// Whether the text is a well-formed number; see `is_number_spec`.
pub fn is_number(v: &Vec<char>) -> (r: bool)
    ensures
        r == is_number_spec(v@),
{
    let t = after_sign_exec(v);
    let d = digits_prefix_exec(&t);
    let u = subvec(&t, d, t.len());
    proof {
        assert(u@ =~= t@.skip(digits_prefix(t@)));
    }
    if d > 0 {
        if u.len() > 0 && u[0] == '.' {
            let frac = subvec(&u, 1, u.len());
            proof {
                assert(frac@ =~= u@.drop_first());
            }
            let d2 = digits_prefix_exec(&frac);
            let rest = subvec(&u, 1 + d2, u.len());
            proof {
                assert(rest@ =~= u@.skip(1 + digits_prefix(u@.drop_first())));
            }
            exp_ok_exec(&rest)
        } else {
            exp_ok_exec(&u)
        }
    } else {
        if u.len() > 0 && u[0] == '.' {
            let frac = subvec(&u, 1, u.len());
            proof {
                assert(frac@ =~= u@.drop_first());
            }
            let d2 = digits_prefix_exec(&frac);
            let rest = subvec(&u, 1 + d2, u.len());
            proof {
                assert(rest@ =~= u@.skip(1 + digits_prefix(u@.drop_first())));
            }
            d2 > 0 && exp_ok_exec(&rest)
        } else {
            false
        }
    }
}

} // verus!
