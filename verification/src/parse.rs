use vstd::prelude::*;

verus! {

use crate::chars::{push_all, subvec, tokens, tokens_spec, vv_view};
use crate::op::{args_view, step_view, steps_view, Step, StepV};

// ---------------------------------------------------------------------------
// The longhand surface.
//
// The canonical longhand form is a single flow mapping,
// `name: { key: value, ... }`, whose `steps` key — when present — holds the
// step list of a pipeline, each step itself a `name: { key: value, ... }`
// mapping with scalar values.  Hash comments run to end of line.  The lexer
// first drops comments, then isolates the six punctuation marks, then reuses
// the whitespace tokenizer; the parser is recursive descent over the tokens.
// ---------------------------------------------------------------------------

/// A lexical token of the longhand form.
pub enum TokV {
    Colon,
    Comma,
    LBrace,
    RBrace,
    LBrack,
    RBrack,
    Word(Seq<char>),
}

/// The executable form of a token.
pub enum ETok {
    Colon,
    Comma,
    LBrace,
    RBrace,
    LBrack,
    RBrack,
    Word(Vec<char>),
}

pub open spec fn etok_view(t: &ETok) -> TokV {
    match t {
        ETok::Colon => TokV::Colon,
        ETok::Comma => TokV::Comma,
        ETok::LBrace => TokV::LBrace,
        ETok::RBrace => TokV::RBrace,
        ETok::LBrack => TokV::LBrack,
        ETok::RBrack => TokV::RBrack,
        ETok::Word(w) => TokV::Word(w@),
    }
}

pub open spec fn etoks_view(ts: Seq<ETok>) -> Seq<TokV>
    decreases ts.len(),
{
    if ts.len() == 0 {
        Seq::empty()
    } else {
        seq![etok_view(&ts[0])] + etoks_view(ts.drop_first())
    }
}

/// The punctuation characters of the longhand form.
pub open spec fn is_punct(c: char) -> bool {
    c == ':' || c == ',' || c == '{' || c == '}' || c == '[' || c == ']'
}

/// `s` with every hash comment (to end of line) removed; `in_comment` is
/// true when the text begins inside a comment.
pub open spec fn decomment_spec(s: Seq<char>, in_comment: bool) -> Seq<char>
    decreases s.len(), (if in_comment { 1int } else { 0int }),
{
    if s.len() == 0 {
        s
    } else if in_comment {
        if s[0] == '\n' {
            decomment_spec(s, false)
        } else {
            decomment_spec(s.drop_first(), true)
        }
    } else if s[0] == '#' {
        decomment_spec(s.drop_first(), true)
    } else {
        seq![s[0]] + decomment_spec(s.drop_first(), false)
    }
}

/// `s` with every punctuation character wrapped in spaces, so that the
/// whitespace tokenizer isolates it.
pub open spec fn pad_punct_spec(s: Seq<char>) -> Seq<char>
    decreases s.len(),
{
    if s.len() == 0 {
        s
    } else if is_punct(s[0]) {
        seq![' ', s[0], ' '] + pad_punct_spec(s.drop_first())
    } else {
        seq![s[0]] + pad_punct_spec(s.drop_first())
    }
}

/// The token a padded word stands for.
pub open spec fn tok_of(w: Seq<char>) -> TokV {
    if w.len() == 1 && w[0] == ':' {
        TokV::Colon
    } else if w.len() == 1 && w[0] == ',' {
        TokV::Comma
    } else if w.len() == 1 && w[0] == '{' {
        TokV::LBrace
    } else if w.len() == 1 && w[0] == '}' {
        TokV::RBrace
    } else if w.len() == 1 && w[0] == '[' {
        TokV::LBrack
    } else if w.len() == 1 && w[0] == ']' {
        TokV::RBrack
    } else {
        TokV::Word(w)
    }
}

pub open spec fn toks_of(ws: Seq<Seq<char>>) -> Seq<TokV>
    decreases ws.len(),
{
    if ws.len() == 0 {
        Seq::empty()
    } else {
        seq![tok_of(ws[0])] + toks_of(ws.drop_first())
    }
}

pub proof fn lemma_toks_of_index(ws: Seq<Seq<char>>)
    ensures
        toks_of(ws).len() == ws.len(),
        forall|j: int| 0 <= j < ws.len() ==> toks_of(ws)[j] == tok_of(ws[j]),
    decreases ws.len(),
{
    if ws.len() > 0 {
        lemma_toks_of_index(ws.drop_first());
        assert forall|j: int| 0 <= j < ws.len() implies toks_of(ws)[j] == tok_of(ws[j]) by {
            if j > 0 {
                assert(ws.drop_first()[j - 1] == ws[j]);
            }
        }
    }
}

/// The token sequence of a longhand text.
pub open spec fn lex_spec(s: Seq<char>) -> Seq<TokV> {
    toks_of(tokens_spec(pad_punct_spec(decomment_spec(s, false))))
}

fn decomment(v: &Vec<char>, in_comment: bool) -> (r: Vec<char>)
    ensures
        r@ == decomment_spec(v@, in_comment),
    decreases v@.len(), (if in_comment { 1int } else { 0int }),
{
    if v.len() == 0 {
        Vec::new()
    } else if in_comment {
        if v[0] == '\n' {
            decomment(v, false)
        } else {
            let t = subvec(v, 1, v.len());
            proof {
                assert(t@ =~= v@.drop_first());
            }
            decomment(&t, true)
        }
    } else if v[0] == '#' {
        let t = subvec(v, 1, v.len());
        proof {
            assert(t@ =~= v@.drop_first());
        }
        decomment(&t, true)
    } else {
        let t = subvec(v, 1, v.len());
        proof {
            assert(t@ =~= v@.drop_first());
        }
        let mut r: Vec<char> = Vec::new();
        r.push(v[0]);
        let rest = decomment(&t, false);
        push_all(&mut r, &rest);
        proof {
            assert(r@ =~= decomment_spec(v@, in_comment));
        }
        r
    }
}

fn pad_punct(v: &Vec<char>) -> (r: Vec<char>)
    ensures
        r@ == pad_punct_spec(v@),
    decreases v@.len(),
{
    if v.len() == 0 {
        Vec::new()
    } else {
        let c = v[0];
        let t = subvec(v, 1, v.len());
        proof {
            assert(t@ =~= v@.drop_first());
        }
        let mut r: Vec<char> = Vec::new();
        if c == ':' || c == ',' || c == '{' || c == '}' || c == '[' || c == ']' {
            r.push(' ');
            r.push(c);
            r.push(' ');
        } else {
            r.push(c);
        }
        let rest = pad_punct(&t);
        push_all(&mut r, &rest);
        proof {
            assert(r@ =~= pad_punct_spec(v@));
        }
        r
    }
}

fn tok_of_exec(w: Vec<char>) -> (r: ETok)
    ensures
        etok_view(&r) == tok_of(w@),
{
    if w.len() == 1 && w[0] == ':' {
        ETok::Colon
    } else if w.len() == 1 && w[0] == ',' {
        ETok::Comma
    } else if w.len() == 1 && w[0] == '{' {
        ETok::LBrace
    } else if w.len() == 1 && w[0] == '}' {
        ETok::RBrace
    } else if w.len() == 1 && w[0] == '[' {
        ETok::LBrack
    } else if w.len() == 1 && w[0] == ']' {
        ETok::RBrack
    } else {
        ETok::Word(w)
    }
}

fn toks_from(ws: &Vec<Vec<char>>, i: usize) -> (r: Vec<ETok>)
    requires
        i <= ws@.len(),
    ensures
        etoks_view(r@) == toks_of(vv_view(ws@).subrange(i as int, ws@.len() as int)),
    decreases ws@.len() - i,
{
    if i == ws.len() {
        let r: Vec<ETok> = Vec::new();
        proof {
            assert(etoks_view(r@) =~= toks_of(vv_view(ws@).subrange(i as int, ws@.len() as int)));
        }
        r
    } else {
        let rest = toks_from(ws, i + 1);
        proof {
            assert(vv_view(ws@).subrange(i as int, ws@.len() as int).drop_first() =~= vv_view(
                ws@,
            ).subrange(i + 1, ws@.len() as int));
        }
        let w = subvec(&ws[i], 0, ws[i].len());
        proof {
            assert(w@ =~= ws@[i as int]@);
        }
        let t = tok_of_exec(w);
        let mut r = rest;
        r.insert(0, t);
        proof {
            lemma_etoks_view_index(r@);
            lemma_etoks_view_index(rest@);
            lemma_toks_of_index(vv_view(ws@).subrange(i as int, ws@.len() as int));
            lemma_toks_of_index(vv_view(ws@).subrange(i + 1, ws@.len() as int));
            assert(etoks_view(r@) =~= toks_of(vv_view(ws@).subrange(i as int, ws@.len() as int)));
        }
        r
    }
}

/// The token sequence of a longhand text, as `lex_spec` states it.
pub fn lex(v: &Vec<char>) -> (r: Vec<ETok>)
    ensures
        etoks_view(r@) == lex_spec(v@),
{
    let d = decomment(v, false);
    let p = pad_punct(&d);
    let ws = tokens(&p);
    let r = toks_from(&ws, 0);
    proof {
        assert(vv_view(ws@).subrange(0, ws@.len() as int) =~= vv_view(ws@));
    }
    r
}

// ---------------------------------------------------------------------------
// Parsing
// ---------------------------------------------------------------------------

/// The value of one mapping entry: a scalar, or the step list under `steps`.
pub enum ValV {
    Scalar(Seq<char>),
    Steps(Seq<StepV>),
}

/// The executable form of a value.
pub enum Val {
    Scalar(String),
    Steps(Vec<Step>),
}

pub open spec fn val_view(v: &Val) -> ValV {
    match v {
        Val::Scalar(s) => ValV::Scalar(s@),
        Val::Steps(ss) => ValV::Steps(steps_view(ss@)),
    }
}

pub open spec fn entries_view(es: Seq<(String, Val)>) -> Seq<(Seq<char>, ValV)>
    decreases es.len(),
{
    if es.len() == 0 {
        Seq::empty()
    } else {
        seq![(es[0].0@, val_view(&es[0].1))] + entries_view(es.drop_first())
    }
}

/// A parsed longhand document: the top-level name and its entries.
pub struct DocV {
    pub name: Seq<char>,
    pub entries: Seq<(Seq<char>, ValV)>,
}

/// A flat `key : value (, key : value)*` list, consumed through its closing
/// brace; a trailing comma is allowed.
pub open spec fn p_pairs_spec(ts: Seq<TokV>, i: int) -> Option<(Seq<(Seq<char>, Seq<char>)>, int)>
    decreases ts.len() - i,
{
    if i < 0 || i >= ts.len() {
        None
    } else if ts[i] is RBrace {
        Some((Seq::empty(), i + 1))
    } else if i + 3 < ts.len() && ts[i] is Word && ts[i + 1] is Colon && ts[i + 2] is Word {
        let k = ts[i]->Word_0;
        let v = ts[i + 2]->Word_0;
        if ts[i + 3] is Comma {
            match p_pairs_spec(ts, i + 4) {
                Some((rest, j)) => Some((seq![(k, v)] + rest, j)),
                None => None,
            }
        } else if ts[i + 3] is RBrace {
            Some((seq![(k, v)], i + 4))
        } else {
            None
        }
    } else {
        None
    }
}

/// One step of a step list: `name : { pairs }`.
pub open spec fn p_step_spec(ts: Seq<TokV>, i: int) -> Option<(StepV, int)> {
    if 0 <= i && i + 2 < ts.len() && ts[i] is Word && ts[i + 1] is Colon && ts[i + 2] is LBrace {
        match p_pairs_spec(ts, i + 3) {
            Some((args, j)) => Some((StepV { name: ts[i]->Word_0, args }, j)),
            None => None,
        }
    } else {
        None
    }
}

/// A step list, consumed through its closing bracket; a trailing comma is
/// allowed.
pub open spec fn p_steps_spec(ts: Seq<TokV>, i: int, fuel: nat) -> Option<(Seq<StepV>, int)>
    decreases fuel,
{
    if fuel == 0 {
        None
    } else if i < 0 || i >= ts.len() {
        None
    } else if ts[i] is RBrack {
        Some((Seq::empty(), i + 1))
    } else {
        match p_step_spec(ts, i) {
            None => None,
            Some((st, j)) => if 0 <= j < ts.len() && ts[j] is Comma {
                match p_steps_spec(ts, j + 1, (fuel - 1) as nat) {
                    Some((rest, j2)) => Some((seq![st] + rest, j2)),
                    None => None,
                }
            } else if 0 <= j < ts.len() && ts[j] is RBrack {
                Some((seq![st], j + 1))
            } else {
                None
            },
        }
    }
}

/// The entries of the top-level mapping, consumed through its closing brace;
/// the value under `steps` may be a bracketed step list.
pub open spec fn p_entries_spec(ts: Seq<TokV>, i: int, fuel: nat) -> Option<
    (Seq<(Seq<char>, ValV)>, int),
>
    decreases fuel,
{
    if fuel == 0 {
        None
    } else if i < 0 || i >= ts.len() {
        None
    } else if ts[i] is RBrace {
        Some((Seq::empty(), i + 1))
    } else if i + 2 < ts.len() && ts[i] is Word && ts[i + 1] is Colon {
        let key = ts[i]->Word_0;
        let val_after: Option<(ValV, int)> = if ts[i + 2] is Word {
            Some((ValV::Scalar(ts[i + 2]->Word_0), i + 3))
        } else if ts[i + 2] is LBrack {
            match p_steps_spec(ts, i + 3, (fuel - 1) as nat) {
                Some((sts, j)) => Some((ValV::Steps(sts), j)),
                None => None,
            }
        } else {
            None
        };
        match val_after {
            None => None,
            Some((val, after)) => if 0 <= after < ts.len() && ts[after] is Comma {
                match p_entries_spec(ts, after + 1, (fuel - 1) as nat) {
                    Some((rest, j2)) => Some((seq![(key, val)] + rest, j2)),
                    None => None,
                }
            } else if 0 <= after < ts.len() && ts[after] is RBrace {
                Some((seq![(key, val)], after + 1))
            } else {
                None
            },
        }
    } else {
        None
    }
}

/// A whole longhand document: `name : { entries }`, with nothing after it.
pub open spec fn p_doc_spec(ts: Seq<TokV>) -> Option<DocV> {
    if ts.len() >= 3 && ts[0] is Word && ts[1] is Colon && ts[2] is LBrace {
        match p_entries_spec(ts, 3, ts.len() as nat) {
            Some((es, j)) => if j == ts.len() {
                Some(DocV { name: ts[0]->Word_0, entries: es })
            } else {
                None
            },
            None => None,
        }
    } else {
        None
    }
}

fn vec_to_string(v: &Vec<char>) -> (r: String)
    ensures
        r@ == v@,
{
    let w = subvec(v, 0, v.len());
    proof {
        assert(w@ =~= v@);
    }
    crate::chars::string_from_chars(w)
}

fn e_pairs(ts: &Vec<ETok>, i: usize) -> (r: Option<(Vec<(String, String)>, usize)>)
    ensures
        match r {
            Some(p) => p_pairs_spec(etoks_view(ts@), i as int) == Some(
                (args_view(p.0@), p.1 as int),
            ) && p.1 <= ts@.len(),
            None => p_pairs_spec(etoks_view(ts@), i as int) is None,
        },
    decreases ts@.len() - i,
{
    proof {
        lemma_etoks_view_index(ts@);
    }
    if i >= ts.len() {
        return None;
    }
    if matches!(&ts[i], ETok::RBrace) {
        let empty: Vec<(String, String)> = Vec::new();
        proof {
            assert(args_view(empty@) =~= Seq::<(Seq<char>, Seq<char>)>::empty());
        }
        return Some((empty, i + 1));
    }
    if ts.len() - i < 4 {
        return None;
    }
    {
        let kw: &Vec<char>;
        let vw: &Vec<char>;
        match (&ts[i], &ts[i + 1], &ts[i + 2]) {
            (ETok::Word(k), ETok::Colon, ETok::Word(v)) => {
                kw = k;
                vw = v;
            },
            _ => {
                return None;
            },
        }
        let key = vec_to_string(kw);
        let val = vec_to_string(vw);
        if matches!(&ts[i + 3], ETok::Comma) {
            match e_pairs(ts, i + 4) {
                Some((rest, j)) => {
                    let ghost restv = rest@;
                    let mut out = rest;
                    out.insert(0, (key, val));
                    proof {
                        assert(out@.drop_first() =~= restv);
                        assert(args_view(out@) =~= seq![
                            (
                                etoks_view(ts@)[i as int]->Word_0,
                                etoks_view(ts@)[i + 2]->Word_0,
                            ),
                        ] + args_view(restv));
                    }
                    Some((out, j))
                },
                None => None,
            }
        } else if matches!(&ts[i + 3], ETok::RBrace) {
            let mut out: Vec<(String, String)> = Vec::new();
            out.push((key, val));
            proof {
                assert(out@.drop_first() =~= Seq::<(String, String)>::empty());
                assert(args_view(Seq::<(String, String)>::empty())
                    =~= Seq::<(Seq<char>, Seq<char>)>::empty());
                assert(args_view(out@) =~= seq![
                    (etoks_view(ts@)[i as int]->Word_0, etoks_view(ts@)[i + 2]->Word_0),
                ]);
            }
            Some((out, i + 4))
        } else {
            None
        }
    }
}

/// Every index of the view matches the viewed element.
proof fn lemma_etoks_view_index(ts: Seq<ETok>)
    ensures
        etoks_view(ts).len() == ts.len(),
        forall|j: int| 0 <= j < ts.len() ==> etoks_view(ts)[j] == etok_view(&ts[j]),
    decreases ts.len(),
{
    if ts.len() > 0 {
        lemma_etoks_view_index(ts.drop_first());
        assert forall|j: int| 0 <= j < ts.len() implies etoks_view(ts)[j] == etok_view(&ts[j]) by {
            if j > 0 {
                assert(ts.drop_first()[j - 1] == ts[j]);
            }
        }
    }
}

fn e_step(ts: &Vec<ETok>, i: usize) -> (r: Option<(Step, usize)>)
    ensures
        match r {
            Some(p) => p_step_spec(etoks_view(ts@), i as int) == Some(
                (step_view(&p.0), p.1 as int),
            ) && p.1 <= ts@.len(),
            None => p_step_spec(etoks_view(ts@), i as int) is None,
        },
{
    proof {
        lemma_etoks_view_index(ts@);
    }
    if ts.len() < 3 || i >= ts.len() || ts.len() - i < 3 {
        return None;
    }
    let nw: &Vec<char>;
    match (&ts[i], &ts[i + 1], &ts[i + 2]) {
        (ETok::Word(n), ETok::Colon, ETok::LBrace) => {
            nw = n;
        },
        _ => {
            return None;
        },
    }
    let name = vec_to_string(nw);
    match e_pairs(ts, i + 3) {
        Some((args, j)) => Some((Step { name, args }, j)),
        None => None,
    }
}

fn e_steps(ts: &Vec<ETok>, i: usize, fuel: usize) -> (r: Option<(Vec<Step>, usize)>)
    ensures
        match r {
            Some(p) => p_steps_spec(etoks_view(ts@), i as int, fuel as nat) == Some(
                (steps_view(p.0@), p.1 as int),
            ) && p.1 <= ts@.len(),
            None => p_steps_spec(etoks_view(ts@), i as int, fuel as nat) is None,
        },
    decreases fuel,
{
    proof {
        lemma_etoks_view_index(ts@);
    }
    if fuel == 0 {
        return None;
    }
    if i >= ts.len() {
        return None;
    }
    if matches!(&ts[i], ETok::RBrack) {
        let empty: Vec<Step> = Vec::new();
        proof {
            assert(steps_view(empty@) =~= Seq::<StepV>::empty());
        }
        return Some((empty, i + 1));
    }
    match e_step(ts, i) {
        None => None,
        Some((st, j)) => {
            if j < ts.len() && matches!(&ts[j], ETok::Comma) {
                match e_steps(ts, j + 1, fuel - 1) {
                    Some((rest, j2)) => {
                        let ghost restv = rest@;
                        let mut out = rest;
                        let ghost stv = step_view(&st);
                        out.insert(0, st);
                        proof {
                            assert(out@.drop_first() =~= restv);
                            assert(steps_view(out@) =~= seq![stv] + steps_view(restv));
                        }
                        Some((out, j2))
                    },
                    None => None,
                }
            } else if j < ts.len() && matches!(&ts[j], ETok::RBrack) {
                let ghost stv = step_view(&st);
                let mut out: Vec<Step> = Vec::new();
                out.push(st);
                proof {
                    assert(out@.drop_first() =~= Seq::<Step>::empty());
                    assert(steps_view(Seq::<Step>::empty()) =~= Seq::<StepV>::empty());
                    assert(steps_view(out@) =~= seq![stv]);
                }
                Some((out, j + 1))
            } else {
                None
            }
        },
    }
}

fn e_entries(ts: &Vec<ETok>, i: usize, fuel: usize) -> (r: Option<(Vec<(String, Val)>, usize)>)
    ensures
        match r {
            Some(p) => p_entries_spec(etoks_view(ts@), i as int, fuel as nat) == Some(
                (entries_view(p.0@), p.1 as int),
            ) && p.1 <= ts@.len(),
            None => p_entries_spec(etoks_view(ts@), i as int, fuel as nat) is None,
        },
    decreases fuel,
{
    proof {
        lemma_etoks_view_index(ts@);
    }
    if fuel == 0 {
        return None;
    }
    if i >= ts.len() {
        return None;
    }
    if matches!(&ts[i], ETok::RBrace) {
        let empty: Vec<(String, Val)> = Vec::new();
        proof {
            assert(entries_view(empty@) =~= Seq::<(Seq<char>, ValV)>::empty());
        }
        return Some((empty, i + 1));
    }
    if ts.len() - i < 3 {
        return None;
    }
    let kw: &Vec<char>;
    match (&ts[i], &ts[i + 1]) {
        (ETok::Word(k), ETok::Colon) => {
            kw = k;
        },
        _ => {
            return None;
        },
    }
    let key = vec_to_string(kw);
    let val: Val;
    let after: usize;
    if matches!(&ts[i + 2], ETok::Word(_)) {
        let vw: &Vec<char>;
        match &ts[i + 2] {
            ETok::Word(v) => {
                vw = v;
            },
            _ => {
                return None;
            },
        }
        val = Val::Scalar(vec_to_string(vw));
        after = i + 3;
    } else if matches!(&ts[i + 2], ETok::LBrack) {
        match e_steps(ts, i + 3, fuel - 1) {
            Some((sts, j)) => {
                val = Val::Steps(sts);
                after = j;
            },
            None => {
                return None;
            },
        }
    } else {
        return None;
    }
    let ghost valv = val_view(&val);
    if after < ts.len() && matches!(&ts[after], ETok::Comma) {
        match e_entries(ts, after + 1, fuel - 1) {
            Some((rest, j2)) => {
                let ghost restv = rest@;
                let mut out = rest;
                out.insert(0, (key, val));
                proof {
                    assert(out@.drop_first() =~= restv);
                    assert(entries_view(out@) =~= seq![(etoks_view(ts@)[i as int]->Word_0, valv)]
                        + entries_view(restv));
                }
                Some((out, j2))
            },
            None => None,
        }
    } else if after < ts.len() && matches!(&ts[after], ETok::RBrace) {
        let mut out: Vec<(String, Val)> = Vec::new();
        out.push((key, val));
        proof {
            assert(out@.drop_first() =~= Seq::<(String, Val)>::empty());
            assert(entries_view(Seq::<(String, Val)>::empty())
                =~= Seq::<(Seq<char>, ValV)>::empty());
            assert(entries_view(out@) =~= seq![(etoks_view(ts@)[i as int]->Word_0, valv)]);
        }
        Some((out, after + 1))
    } else {
        None
    }
}

/// The executable form of a parsed document.
pub struct Doc {
    pub name: String,
    pub entries: Vec<(String, Val)>,
}

pub open spec fn doc_view(d: &Doc) -> DocV {
    DocV { name: d.name@, entries: entries_view(d.entries@) }
}

/// Parses a longhand document, as `p_doc_spec` states it.
pub fn parse_doc(ts: &Vec<ETok>) -> (r: Option<Doc>)
    ensures
        match r {
            Some(d) => p_doc_spec(etoks_view(ts@)) == Some(doc_view(&d)),
            None => p_doc_spec(etoks_view(ts@)) is None,
        },
{
    proof {
        lemma_etoks_view_index(ts@);
    }
    if ts.len() < 3 {
        return None;
    }
    let nw: &Vec<char>;
    match (&ts[0], &ts[1], &ts[2]) {
        (ETok::Word(n), ETok::Colon, ETok::LBrace) => {
            nw = n;
        },
        _ => {
            return None;
        },
    }
    let name = vec_to_string(nw);
    match e_entries(ts, 3, ts.len()) {
        Some((es, j)) => {
            if j == ts.len() {
                Some(Doc { name, entries: es })
            } else {
                None
            }
        },
        None => None,
    }
}

} // verus!
