use vstd::prelude::*;

verus! {

use crate::is_space_char;
use vstd::std_specs::iter::IteratorSpec;

// ---------------------------------------------------------------------------
// Character-sequence utilities.
//
// Definition strings are handled as vectors of characters.  Every executable
// helper here mirrors a spec function over `Seq<char>`, so that the grammar
// functions built on top of them can state their results exactly.
// ---------------------------------------------------------------------------

/// Whether `c` is one of the whitespace characters the grammar recognizes.
pub fn is_space(c: char) -> (r: bool)
    ensures
        r == is_space_char(c),
{
    c == ' ' || c == '\t' || c == '\n' || c == '\r' || c == '\u{b}' || c == '\u{c}'
}

/// The characters of `s`, in order.
pub fn to_chars(s: &str) -> (r: Vec<char>)
    ensures
        r@ == s@,
{
    broadcast use vstd::string::next_postcondition, vstd::string::axiom_spec_iter;

    let mut it = s.chars();
    let mut r: Vec<char> = Vec::new();
    loop
        invariant
            it.obeys_prophetic_iter_laws(),
            it.decrease() is Some,
            r@ + it.remaining() == s@,
        decreases it.decrease()->0,
    {
        match it.next() {
            Some(c) => {
                r.push(c);
            },
            None => {
                proof {
                    assert(r@ =~= s@);
                }
                return r;
            },
        }
    }
}

/// Relies on `String::from_iter`: the returned string holds exactly the
/// characters of `v`, in order.
#[verifier::external_body]
pub fn string_from_chars(v: Vec<char>) -> (r: String)
    ensures
        r@ == v@,
{
    <String as FromIterator<char>>::from_iter(v)
}

/// The characters of `v` from index `i` (inclusive) to `j` (exclusive).
pub fn subvec(v: &Vec<char>, i: usize, j: usize) -> (r: Vec<char>)
    requires
        i <= j <= v@.len(),
    ensures
        r@ == v@.subrange(i as int, j as int),
{
    let mut r: Vec<char> = Vec::new();
    let mut k = i;
    while k < j
        invariant
            i <= k <= j <= v@.len(),
            r@ == v@.subrange(i as int, k as int),
        decreases j - k,
    {
        r.push(v[k]);
        k = k + 1;
        proof {
            assert(r@ =~= v@.subrange(i as int, k as int));
        }
    }
    r
}

/// Appends the characters of `src` to `dst`.
pub fn push_all(dst: &mut Vec<char>, src: &Vec<char>)
    ensures
        final(dst)@ == old(dst)@ + src@,
{
    let mut k: usize = 0;
    while k < src.len()
        invariant
            k <= src@.len(),
            dst@ == old(dst)@ + src@.subrange(0, k as int),
        decreases src@.len() - k,
    {
        dst.push(src[k]);
        k = k + 1;
        proof {
            assert(dst@ =~= old(dst)@ + src@.subrange(0, k as int));
        }
    }
    proof {
        assert(dst@ =~= old(dst)@ + src@);
    }
}

/// Appends the characters of the string literal `src` to `dst`.
pub fn push_str_chars(dst: &mut Vec<char>, src: &str)
    ensures
        final(dst)@ == old(dst)@ + src@,
{
    let v = to_chars(src);
    push_all(dst, &v);
}

/// Whether the character vector `v` holds exactly the characters of `s`.
pub fn chars_eq_str(v: &Vec<char>, s: &str) -> (r: bool)
    ensures
        r == (v@ == s@),
{
    let w = to_chars(s);
    if v.len() != w.len() {
        return false;
    }
    let mut k: usize = 0;
    while k < v.len()
        invariant
            k <= v@.len(),
            v@.len() == w@.len(),
            w@ == s@,
            forall|j: int| 0 <= j < k ==> v@[j] == w@[j],
        decreases v@.len() - k,
    {
        if v[k] != w[k] {
            return false;
        }
        k = k + 1;
    }
    proof {
        assert(v@ =~= s@);
    }
    true
}

// ---------------------------------------------------------------------------
// Trimming
// ---------------------------------------------------------------------------

/// `s` with its leading whitespace removed.
pub open spec fn trim_start_spec(s: Seq<char>) -> Seq<char>
    decreases s.len(),
{
    if s.len() > 0 && is_space_char(s[0]) {
        trim_start_spec(s.drop_first())
    } else {
        s
    }
}

/// `s` with its trailing whitespace removed.
pub open spec fn trim_end_spec(s: Seq<char>) -> Seq<char>
    decreases s.len(),
{
    if s.len() > 0 && is_space_char(s.last()) {
        trim_end_spec(s.drop_last())
    } else {
        s
    }
}

/// `s` with whitespace removed at both ends.
pub open spec fn trim_spec(s: Seq<char>) -> Seq<char> {
    trim_end_spec(trim_start_spec(s))
}

pub fn trim_start(v: &Vec<char>) -> (r: Vec<char>)
    ensures
        r@ == trim_start_spec(v@),
    decreases v@.len(),
{
    if v.len() > 0 && is_space(v[0]) {
        let t = subvec(v, 1, v.len());
        proof {
            assert(t@ =~= v@.drop_first());
        }
        trim_start(&t)
    } else {
        let r = subvec(v, 0, v.len());
        proof {
            assert(r@ =~= v@);
        }
        r
    }
}

pub fn trim_end(v: &Vec<char>) -> (r: Vec<char>)
    ensures
        r@ == trim_end_spec(v@),
    decreases v@.len(),
{
    if v.len() > 0 && is_space(v[v.len() - 1]) {
        let t = subvec(v, 0, v.len() - 1);
        proof {
            assert(t@ =~= v@.drop_last());
        }
        trim_end(&t)
    } else {
        let r = subvec(v, 0, v.len());
        proof {
            assert(r@ =~= v@);
        }
        r
    }
}

pub fn trim(v: &Vec<char>) -> (r: Vec<char>)
    ensures
        r@ == trim_spec(v@),
{
    let t = trim_start(v);
    trim_end(&t)
}

// ---------------------------------------------------------------------------
// Trimming a specific character (both ends, repeatedly)
// ---------------------------------------------------------------------------

pub open spec fn trim_char_start_spec(s: Seq<char>, c: char) -> Seq<char>
    decreases s.len(),
{
    if s.len() > 0 && s[0] == c {
        trim_char_start_spec(s.drop_first(), c)
    } else {
        s
    }
}

pub open spec fn trim_char_end_spec(s: Seq<char>, c: char) -> Seq<char>
    decreases s.len(),
{
    if s.len() > 0 && s.last() == c {
        trim_char_end_spec(s.drop_last(), c)
    } else {
        s
    }
}

/// `s` with every leading and trailing occurrence of `c` removed.
pub open spec fn trim_char_spec(s: Seq<char>, c: char) -> Seq<char> {
    trim_char_end_spec(trim_char_start_spec(s, c), c)
}

pub fn trim_char_start(v: &Vec<char>, c: char) -> (r: Vec<char>)
    ensures
        r@ == trim_char_start_spec(v@, c),
    decreases v@.len(),
{
    if v.len() > 0 && v[0] == c {
        let t = subvec(v, 1, v.len());
        proof {
            assert(t@ =~= v@.drop_first());
        }
        trim_char_start(&t, c)
    } else {
        let r = subvec(v, 0, v.len());
        proof {
            assert(r@ =~= v@);
        }
        r
    }
}

pub fn trim_char_end(v: &Vec<char>, c: char) -> (r: Vec<char>)
    ensures
        r@ == trim_char_end_spec(v@, c),
    decreases v@.len(),
{
    if v.len() > 0 && v[v.len() - 1] == c {
        let t = subvec(v, 0, v.len() - 1);
        proof {
            assert(t@ =~= v@.drop_last());
        }
        trim_char_end(&t, c)
    } else {
        let r = subvec(v, 0, v.len());
        proof {
            assert(r@ =~= v@);
        }
        r
    }
}

pub fn trim_char(v: &Vec<char>, c: char) -> (r: Vec<char>)
    ensures
        r@ == trim_char_spec(v@, c),
{
    let t = trim_char_start(v, c);
    trim_char_end(&t, c)
}

// ---------------------------------------------------------------------------
// Finding and splitting
// ---------------------------------------------------------------------------

/// Index of the first occurrence of `c` in `s`, or `s.len()` if absent.
pub open spec fn find_char_spec(s: Seq<char>, c: char) -> int
    decreases s.len(),
{
    if s.len() == 0 {
        0
    } else if s[0] == c {
        0
    } else {
        1 + find_char_spec(s.drop_first(), c)
    }
}

pub proof fn lemma_find_char(s: Seq<char>, c: char)
    ensures
        0 <= find_char_spec(s, c) <= s.len(),
        find_char_spec(s, c) < s.len() ==> s[find_char_spec(s, c)] == c,
        forall|j: int| 0 <= j < find_char_spec(s, c) ==> s[j] != c,
    decreases s.len(),
{
    if s.len() == 0 {
    } else if s[0] == c {
    } else {
        lemma_find_char(s.drop_first(), c);
        assert forall|j: int| 0 <= j < find_char_spec(s, c) implies s[j] != c by {
            if j > 0 {
                assert(s[j] == s.drop_first()[j - 1]);
            }
        }
    }
}

pub fn find_char(v: &Vec<char>, c: char) -> (r: usize)
    ensures
        r == find_char_spec(v@, c),
        r <= v@.len(),
    decreases v@.len(),
{
    proof {
        lemma_find_char(v@, c);
    }
    if v.len() == 0 {
        0
    } else if v[0] == c {
        0
    } else {
        let t = subvec(v, 1, v.len());
        proof {
            assert(t@ =~= v@.drop_first());
        }
        let r = find_char(&t, c);
        1 + r
    }
}

/// The view of a sequence of character vectors.
pub open spec fn vv_view(v: Seq<Vec<char>>) -> Seq<Seq<char>> {
    v.map_values(|x: Vec<char>| x@)
}

/// The parts of `s` delimited by `c`; empty parts are kept.
pub open spec fn split_spec(s: Seq<char>, c: char) -> Seq<Seq<char>>
    decreases s.len(),
    via split_spec_dec
{
    let i = find_char_spec(s, c);
    if i == s.len() {
        seq![s]
    } else {
        seq![s.subrange(0, i)] + split_spec(s.subrange(i + 1, s.len() as int), c)
    }
}

#[via_fn]
proof fn split_spec_dec(s: Seq<char>, c: char) {
    lemma_find_char(s, c);
}

pub fn split_char(v: &Vec<char>, c: char) -> (r: Vec<Vec<char>>)
    ensures
        vv_view(r@) == split_spec(v@, c),
    decreases v@.len(),
{
    proof {
        lemma_find_char(v@, c);
    }
    let i = find_char(v, c);
    if i == v.len() {
        let whole = subvec(v, 0, v.len());
        proof {
            assert(whole@ =~= v@);
        }
        let mut r: Vec<Vec<char>> = Vec::new();
        r.push(whole);
        proof {
            assert(vv_view(r@) =~= split_spec(v@, c));
        }
        r
    } else {
        let head = subvec(v, 0, i);
        let tail = subvec(v, i + 1, v.len());
        let mut r = split_char(&tail, c);
        r.insert(0, head);
        proof {
            assert(vv_view(r@) =~= split_spec(v@, c));
        }
        r
    }
}

// ---------------------------------------------------------------------------
// Whitespace tokens
// ---------------------------------------------------------------------------

/// `s` with every recognized whitespace character replaced by a space.
pub open spec fn spaces_one_spec(s: Seq<char>) -> Seq<char> {
    s.map_values(|c: char| if is_space_char(c) { ' ' } else { c })
}

pub fn spaces_one(v: &Vec<char>) -> (r: Vec<char>)
    ensures
        r@ == spaces_one_spec(v@),
{
    let mut r: Vec<char> = Vec::new();
    let mut k: usize = 0;
    while k < v.len()
        invariant
            k <= v@.len(),
            r@ == spaces_one_spec(v@.subrange(0, k as int)),
        decreases v@.len() - k,
    {
        if is_space(v[k]) {
            r.push(' ');
        } else {
            r.push(v[k]);
        }
        k = k + 1;
        proof {
            assert(r@ =~= spaces_one_spec(v@.subrange(0, k as int)));
        }
    }
    proof {
        assert(v@.subrange(0, v@.len() as int) =~= v@);
    }
    r
}

/// `parts` without its empty members.
pub open spec fn drop_empty_spec(parts: Seq<Seq<char>>) -> Seq<Seq<char>>
    decreases parts.len(),
{
    if parts.len() == 0 {
        parts
    } else if parts[0].len() == 0 {
        drop_empty_spec(parts.drop_first())
    } else {
        seq![parts[0]] + drop_empty_spec(parts.drop_first())
    }
}

fn drop_empty_from(parts: &Vec<Vec<char>>, i: usize) -> (r: Vec<Vec<char>>)
    requires
        i <= parts@.len(),
    ensures
        vv_view(r@) == drop_empty_spec(vv_view(parts@).subrange(i as int, parts@.len() as int)),
    decreases parts@.len() - i,
{
    if i == parts.len() {
        let r: Vec<Vec<char>> = Vec::new();
        proof {
            assert(vv_view(r@) =~= drop_empty_spec(
                vv_view(parts@).subrange(i as int, parts@.len() as int),
            ));
        }
        r
    } else {
        let rest = drop_empty_from(parts, i + 1);
        proof {
            assert(vv_view(parts@).subrange(i as int, parts@.len() as int).drop_first() =~= vv_view(
                parts@,
            ).subrange(i + 1, parts@.len() as int));
        }
        if parts[i].len() == 0 {
            rest
        } else {
            let head = subvec(&parts[i], 0, parts[i].len());
            proof {
                assert(head@ =~= parts@[i as int]@);
            }
            let mut r = rest;
            r.insert(0, head);
            proof {
                assert(vv_view(r@) =~= drop_empty_spec(
                    vv_view(parts@).subrange(i as int, parts@.len() as int),
                ));
            }
            r
        }
    }
}

/// The whitespace-separated tokens of `s`, in order; no token is empty.
pub open spec fn tokens_spec(s: Seq<char>) -> Seq<Seq<char>> {
    drop_empty_spec(split_spec(spaces_one_spec(s), ' '))
}

pub fn tokens(v: &Vec<char>) -> (r: Vec<Vec<char>>)
    ensures
        vv_view(r@) == tokens_spec(v@),
{
    let w = spaces_one(v);
    let parts = split_char(&w, ' ');
    let r = drop_empty_from(&parts, 0);
    proof {
        assert(vv_view(parts@).subrange(0, parts@.len() as int) =~= vv_view(parts@));
    }
    r
}

// ---------------------------------------------------------------------------
// Joining
// ---------------------------------------------------------------------------

/// `parts` joined with the single character `sep` between members.
pub open spec fn join_spec(parts: Seq<Seq<char>>, sep: char) -> Seq<char>
    decreases parts.len(),
{
    if parts.len() == 0 {
        Seq::empty()
    } else if parts.len() == 1 {
        parts[0]
    } else {
        parts[0] + seq![sep] + join_spec(parts.drop_first(), sep)
    }
}

fn join_from(parts: &Vec<Vec<char>>, i: usize, sep: char) -> (r: Vec<char>)
    requires
        i <= parts@.len(),
    ensures
        r@ == join_spec(vv_view(parts@).subrange(i as int, parts@.len() as int), sep),
    decreases parts@.len() - i,
{
    if i == parts.len() {
        let r: Vec<char> = Vec::new();
        r
    } else if i + 1 == parts.len() {
        let r = subvec(&parts[i], 0, parts[i].len());
        proof {
            assert(r@ =~= parts@[i as int]@);
        }
        r
    } else {
        let mut r = subvec(&parts[i], 0, parts[i].len());
        proof {
            assert(r@ =~= parts@[i as int]@);
        }
        r.push(sep);
        let rest = join_from(parts, i + 1, sep);
        push_all(&mut r, &rest);
        proof {
            assert(vv_view(parts@).subrange(i as int, parts@.len() as int).drop_first() =~= vv_view(
                parts@,
            ).subrange(i + 1, parts@.len() as int));
        }
        r
    }
}

pub fn join_char(parts: &Vec<Vec<char>>, sep: char) -> (r: Vec<char>)
    ensures
        r@ == join_spec(vv_view(parts@), sep),
{
    let r = join_from(parts, 0, sep);
    proof {
        assert(vv_view(parts@).subrange(0, parts@.len() as int) =~= vv_view(parts@));
    }
    r
}

// ---------------------------------------------------------------------------
// Searching for the piped-step marker
// ---------------------------------------------------------------------------

/// Whether `s` contains a pipe wrapped in spaces.
pub open spec fn has_piped_spec(s: Seq<char>) -> bool
    decreases s.len(),
{
    if s.len() < 3 {
        false
    } else {
        (s[0] == ' ' && s[1] == '|' && s[2] == ' ') || has_piped_spec(s.drop_first())
    }
}

pub fn has_piped(v: &Vec<char>) -> (r: bool)
    ensures
        r == has_piped_spec(v@),
    decreases v@.len(),
{
    if v.len() < 3 {
        false
    } else if v[0] == ' ' && v[1] == '|' && v[2] == ' ' {
        true
    } else {
        let t = subvec(v, 1, v.len());
        proof {
            assert(t@ =~= v@.drop_first());
        }
        has_piped(&t)
    }
}

} // verus!
