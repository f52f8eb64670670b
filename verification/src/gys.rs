use vstd::prelude::*;

verus! {

use crate::chars::{
    find_char, find_char_spec, has_piped, has_piped_spec, join_char, join_spec, push_all,
    push_str_chars, split_char, split_spec, subvec, to_chars, tokens, tokens_spec, trim,
    trim_char, trim_char_spec, trim_spec, vv_view,
};

// ---------------------------------------------------------------------------
// The shorthand grammar ("GYS") and its rewriting into the longhand form.
//
// A definition arrives either in the compact pipe-delimited shorthand or in
// the longhand `name: { key: value, ... }` form.  `is_gys` classifies the
// input; `gys_to_yaml` rewrites shorthand into longhand.  Both are specified
// exactly, character for character.
// ---------------------------------------------------------------------------

/// One step name/argument token ends with a colon.
pub open spec fn ends_with_colon(t: Seq<char>) -> bool {
    t.len() > 0 && t[t.len() - 1] == ':'
}

/// The first whitespace-separated token of `s`, or empty if there is none.
pub open spec fn first_token_spec(s: Seq<char>) -> Seq<char> {
    if tokens_spec(s).len() > 0 {
        tokens_spec(s)[0]
    } else {
        Seq::empty()
    }
}

/// The classification rule for the shorthand grammar: a definition is
/// shorthand iff it contains a space-wrapped pipe, starts or ends with a
/// pipe, is wrapped in matching square brackets, or its first token does not
/// end with a colon.
pub open spec fn is_gys_spec(s: Seq<char>) -> bool {
    if has_piped_spec(s) {
        true
    } else if s.len() > 0 && s[0] == '|' {
        true
    } else if s.len() > 0 && s[s.len() - 1] == '|' {
        true
    } else if s.len() > 0 && s[0] == '[' {
        s[s.len() - 1] == ']'
    } else if s.len() > 0 && s[s.len() - 1] == ']' {
        s[0] == '['
    } else {
        !ends_with_colon(first_token_spec(s))
    }
}

/// Classifies a definition string; see `is_gys_spec` for the exact rule.
pub fn is_gys_chars(v: &Vec<char>) -> (r: bool)
    ensures
        r == is_gys_spec(v@),
{
    if has_piped(v) {
        true
    } else if v.len() > 0 && v[0] == '|' {
        true
    } else if v.len() > 0 && v[v.len() - 1] == '|' {
        true
    } else if v.len() > 0 && v[0] == '[' {
        v[v.len() - 1] == ']'
    } else if v.len() > 0 && v[v.len() - 1] == ']' {
        v[0] == '['
    } else {
        let toks = tokens(v);
        if toks.len() == 0 {
            true
        } else {
            let t = &toks[0];
            proof {
                assert(t@ == first_token_spec(v@));
            }
            !(t.len() > 0 && t[t.len() - 1] == ':')
        }
    }
}

// ---------------------------------------------------------------------------
// Removing comment lines
// ---------------------------------------------------------------------------

/// A line carrying a trailing carriage return loses it.
pub open spec fn strip_cr(l: Seq<char>) -> Seq<char> {
    if l.len() > 0 && l[l.len() - 1] == '\r' {
        l.drop_last()
    } else {
        l
    }
}

/// Every line of `ls` with a trailing carriage return removed.
pub open spec fn strip_cr_all(ls: Seq<Seq<char>>) -> Seq<Seq<char>>
    decreases ls.len(),
{
    if ls.len() == 0 {
        ls
    } else {
        seq![strip_cr(ls[0])] + strip_cr_all(ls.drop_first())
    }
}

/// The lines of `s`: split at newlines, a final empty part dropped, and a
/// trailing carriage return removed from each line.
pub open spec fn lines_spec(s: Seq<char>) -> Seq<Seq<char>> {
    let parts = split_spec(s, '\n');
    let kept = if parts.len() > 0 && parts[parts.len() - 1].len() == 0 {
        parts.drop_last()
    } else {
        parts
    };
    strip_cr_all(kept)
}

/// A comment line: its first non-blank character is a hash.
pub open spec fn is_comment_line(l: Seq<char>) -> bool {
    trim_spec(l).len() > 0 && trim_spec(l)[0] == '#'
}

/// `ls` without its comment lines.
pub open spec fn keep_lines_spec(ls: Seq<Seq<char>>) -> Seq<Seq<char>>
    decreases ls.len(),
{
    if ls.len() == 0 {
        ls
    } else if is_comment_line(ls[0]) {
        keep_lines_spec(ls.drop_first())
    } else {
        seq![ls[0]] + keep_lines_spec(ls.drop_first())
    }
}

/// A definition with comment lines removed, the rest rejoined with newlines,
/// and blank space trimmed at both ends.
pub open spec fn cleaned_spec(s: Seq<char>) -> Seq<char> {
    trim_spec(join_spec(keep_lines_spec(lines_spec(s)), '\n'))
}

fn lines(v: &Vec<char>) -> (r: Vec<Vec<char>>)
    ensures
        vv_view(r@) == lines_spec(v@),
{
    let mut parts = split_char(v, '\n');
    let ghost before = parts@;
    if parts.len() > 0 && parts[parts.len() - 1].len() == 0 {
        let _ = parts.pop();
        proof {
            assert(vv_view(parts@) =~= vv_view(before).drop_last());
        }
    }
    let r = strip_cr_from(&parts, 0);
    proof {
        assert(vv_view(parts@).subrange(0, parts@.len() as int) =~= vv_view(parts@));
        assert(vv_view(r@) =~= lines_spec(v@));
    }
    r
}

fn strip_cr_from(ls: &Vec<Vec<char>>, i: usize) -> (r: Vec<Vec<char>>)
    requires
        i <= ls@.len(),
    ensures
        vv_view(r@) == strip_cr_all(vv_view(ls@).subrange(i as int, ls@.len() as int)),
    decreases ls@.len() - i,
{
    if i == ls.len() {
        let r: Vec<Vec<char>> = Vec::new();
        proof {
            assert(vv_view(r@) =~= strip_cr_all(vv_view(ls@).subrange(i as int, ls@.len() as int)));
        }
        r
    } else {
        let rest = strip_cr_from(ls, i + 1);
        proof {
            assert(vv_view(ls@).subrange(i as int, ls@.len() as int).drop_first() =~= vv_view(
                ls@,
            ).subrange(i + 1, ls@.len() as int));
        }
        let line = &ls[i];
        let stripped = if line.len() > 0 && line[line.len() - 1] == '\r' {
            subvec(line, 0, line.len() - 1)
        } else {
            subvec(line, 0, line.len())
        };
        proof {
            assert(stripped@ =~= strip_cr(vv_view(ls@)[i as int]));
        }
        let mut r = rest;
        r.insert(0, stripped);
        proof {
            assert(vv_view(r@) =~= strip_cr_all(vv_view(ls@).subrange(i as int, ls@.len() as int)));
        }
        r
    }
}

fn is_comment_line_exec(l: &Vec<char>) -> (r: bool)
    ensures
        r == is_comment_line(l@),
{
    let t = trim(l);
    t.len() > 0 && t[0] == '#'
}

fn keep_lines_from(ls: &Vec<Vec<char>>, i: usize) -> (r: Vec<Vec<char>>)
    requires
        i <= ls@.len(),
    ensures
        vv_view(r@) == keep_lines_spec(vv_view(ls@).subrange(i as int, ls@.len() as int)),
    decreases ls@.len() - i,
{
    if i == ls.len() {
        let r: Vec<Vec<char>> = Vec::new();
        proof {
            assert(vv_view(r@) =~= keep_lines_spec(
                vv_view(ls@).subrange(i as int, ls@.len() as int),
            ));
        }
        r
    } else {
        let rest = keep_lines_from(ls, i + 1);
        proof {
            assert(vv_view(ls@).subrange(i as int, ls@.len() as int).drop_first() =~= vv_view(
                ls@,
            ).subrange(i + 1, ls@.len() as int));
        }
        if is_comment_line_exec(&ls[i]) {
            rest
        } else {
            let head = subvec(&ls[i], 0, ls[i].len());
            proof {
                assert(head@ =~= ls@[i as int]@);
            }
            let mut r = rest;
            r.insert(0, head);
            proof {
                assert(vv_view(r@) =~= keep_lines_spec(
                    vv_view(ls@).subrange(i as int, ls@.len() as int),
                ));
            }
            r
        }
    }
}

/// The comment-stripped, trimmed form of a definition.
pub fn cleaned(v: &Vec<char>) -> (r: Vec<char>)
    ensures
        r@ == cleaned_spec(v@),
{
    let ls = lines(v);
    let kept = keep_lines_from(&ls, 0);
    proof {
        assert(vv_view(ls@).subrange(0, ls@.len() as int) =~= vv_view(ls@));
    }
    let joined = join_char(&kept, '\n');
    trim(&joined)
}

// ---------------------------------------------------------------------------
// Rewriting one shorthand step into longhand
// ---------------------------------------------------------------------------

/// `s` up to (excluding) its first hash, or all of `s`.
pub open spec fn upto_hash(s: Seq<char>) -> Seq<char> {
    s.subrange(0, find_char_spec(s, '#'))
}

/// `s` with every colon followed by a space.
pub open spec fn replace_colon_spec(s: Seq<char>) -> Seq<char>
    decreases s.len(),
{
    if s.len() == 0 {
        s
    } else if s[0] == ':' {
        seq![':', ' '] + replace_colon_spec(s.drop_first())
    } else {
        seq![s[0]] + replace_colon_spec(s.drop_first())
    }
}

fn replace_colon(v: &Vec<char>) -> (r: Vec<char>)
    ensures
        r@ == replace_colon_spec(v@),
    decreases v@.len(),
{
    if v.len() == 0 {
        let r: Vec<char> = Vec::new();
        proof {
            assert(r@ =~= replace_colon_spec(v@));
        }
        r
    } else {
        let t = subvec(v, 1, v.len());
        proof {
            assert(t@ =~= v@.drop_first());
        }
        let mut r: Vec<char> = Vec::new();
        if v[0] == ':' {
            r.push(':');
            r.push(' ');
        } else {
            r.push(v[0]);
        }
        let rest = replace_colon(&t);
        push_all(&mut r, &rest);
        proof {
            assert(r@ =~= replace_colon_spec(v@));
        }
        r
    }
}

/// The longhand rendering of the argument tokens of one step, from token `i`
/// on.  A token `key:` takes the following token as its value; a token
/// holding a colon is already a pair; a bare token becomes a flag set to
/// `true`.  A trailing `key:` with no value is an error.
pub open spec fn render_args_spec(els: Seq<Seq<char>>, i: int) -> Result<Seq<char>, Seq<char>>
    decreases els.len() - i,
{
    if i < 0 || i >= els.len() {
        Ok(Seq::empty())
    } else {
        let e = els[i];
        if ends_with_colon(e) {
            if i == els.len() - 1 {
                Err("Missing value for key '"@ + e + "'"@)
            } else {
                let sep: Seq<char> = if i + 2 < els.len() {
                    ", "@
                } else {
                    Seq::empty()
                };
                match render_args_spec(els, i + 2) {
                    Ok(rest) => Ok(e + " "@ + els[i + 1] + sep + rest),
                    Err(er) => Err(er),
                }
            }
        } else if find_char_spec(e, ':') < e.len() {
            let sep: Seq<char> = if i + 1 < els.len() {
                ", "@
            } else {
                Seq::empty()
            };
            match render_args_spec(els, i + 1) {
                Ok(rest) => Ok(replace_colon_spec(e) + sep + rest),
                Err(er) => Err(er),
            }
        } else {
            let sep: Seq<char> = if i + 1 < els.len() {
                ", "@
            } else {
                Seq::empty()
            };
            match render_args_spec(els, i + 1) {
                Ok(rest) => Ok(e + ": true"@ + sep + rest),
                Err(er) => Err(er),
            }
        }
    }
}

/// The longhand rendering of one shorthand step: inline comment stripped,
/// tokens split, the step name followed by its rewritten arguments.  An empty
/// step is an error.
pub open spec fn render_step_spec(step: Seq<char>) -> Result<Seq<char>, Seq<char>> {
    let els = tokens_spec(trim_spec(upto_hash(step)));
    if els.len() == 0 {
        Err("Error: Empty step!"@)
    } else if els.len() == 1 {
        Ok(els[0] + ": {}"@)
    } else {
        match render_args_spec(els, 1) {
            Ok(a) => Ok(els[0] + ": {"@ + a + "}"@),
            Err(e) => Err(e),
        }
    }
}

/// The renderings of the steps from `i` on, joined with the step separator.
pub open spec fn render_list_spec(steps: Seq<Seq<char>>, i: int) -> Result<Seq<char>, Seq<char>>
    decreases steps.len() - i,
{
    if i < 0 || i >= steps.len() {
        Ok(Seq::empty())
    } else {
        match render_step_spec(steps[i]) {
            Err(e) => Err(e),
            Ok(r) => match render_list_spec(steps, i + 1) {
                Err(e) => Err(e),
                Ok(rest) => Ok(
                    (if i == 0 {
                        Seq::<char>::empty()
                    } else {
                        ",\n    "@
                    }) + r + rest,
                ),
            },
        }
    }
}

/// The exact longhand text produced for a definition: the comment-stripped
/// input unchanged when it is already longhand; otherwise the rewritten step
/// list, wrapped in a `pipeline_from_gys` block when there is more than one
/// step.  A malformed step yields the error sentence itself.
pub open spec fn gys_to_yaml_spec(s: Seq<char>) -> Seq<char> {
    let g = cleaned_spec(s);
    if !is_gys_spec(g) {
        g
    } else {
        let g3 = trim_char_spec(trim_char_spec(trim_char_spec(g, '|'), '['), ']');
        let steps = split_spec(g3, '|');
        match render_list_spec(steps, 0) {
            Err(e) => e,
            Ok(body) => if steps.len() > 1 {
                "pipeline_from_gys: {\n  steps: [\n    "@ + body + "\n  ]\n}"@
            } else {
                body
            },
        }
    }
}

fn render_args(els: &Vec<Vec<char>>, i: usize) -> (r: Result<Vec<char>, Vec<char>>)
    requires
        i <= els@.len(),
    ensures
        match r {
            Ok(v) => render_args_spec(vv_view(els@), i as int) == Ok::<Seq<char>, Seq<char>>(v@),
            Err(e) => render_args_spec(vv_view(els@), i as int) == Err::<Seq<char>, Seq<char>>(e@),
        },
    decreases els@.len() - i,
{
    if i == els.len() {
        Ok(Vec::new())
    } else {
        let e = &els[i];
        if e.len() > 0 && e[e.len() - 1] == ':' {
            if i == els.len() - 1 {
                let mut msg = to_chars("Missing value for key '");
                push_all(&mut msg, e);
                push_str_chars(&mut msg, "'");
                Err(msg)
            } else {
                match render_args(els, i + 2) {
                    Ok(rest) => {
                        let ghost ev = vv_view(els@);
                        let ghost sep: Seq<char> = if i + 2 < els@.len() {
                            ", "@
                        } else {
                            Seq::empty()
                        };
                        let mut out = subvec(e, 0, e.len());
                        proof {
                            assert(out@ =~= ev[i as int]);
                        }
                        push_str_chars(&mut out, " ");
                        push_all(&mut out, &els[i + 1]);
                        if i + 2 < els.len() {
                            push_str_chars(&mut out, ", ");
                        }
                        push_all(&mut out, &rest);
                        proof {
                            assert(out@ =~= ev[i as int] + " "@ + ev[i + 1] + sep + rest@);
                        }
                        Ok(out)
                    },
                    Err(er) => Err(er),
                }
            }
        } else if find_char(e, ':') < e.len() {
            match render_args(els, i + 1) {
                Ok(rest) => {
                    let ghost ev = vv_view(els@);
                    let ghost sep: Seq<char> = if i + 1 < els@.len() {
                        ", "@
                    } else {
                        Seq::empty()
                    };
                    let mut out = replace_colon(e);
                    if i + 1 < els.len() {
                        push_str_chars(&mut out, ", ");
                    }
                    push_all(&mut out, &rest);
                    proof {
                        assert(out@ =~= replace_colon_spec(ev[i as int]) + sep + rest@);
                    }
                    Ok(out)
                },
                Err(er) => Err(er),
            }
        } else {
            match render_args(els, i + 1) {
                Ok(rest) => {
                    let ghost ev = vv_view(els@);
                    let ghost sep: Seq<char> = if i + 1 < els@.len() {
                        ", "@
                    } else {
                        Seq::empty()
                    };
                    let mut out = subvec(e, 0, e.len());
                    proof {
                        assert(out@ =~= ev[i as int]);
                    }
                    push_str_chars(&mut out, ": true");
                    if i + 1 < els.len() {
                        push_str_chars(&mut out, ", ");
                    }
                    push_all(&mut out, &rest);
                    proof {
                        assert(out@ =~= ev[i as int] + ": true"@ + sep + rest@);
                    }
                    Ok(out)
                },
                Err(er) => Err(er),
            }
        }
    }
}

fn render_step(step: &Vec<char>) -> (r: Result<Vec<char>, Vec<char>>)
    ensures
        match r {
            Ok(v) => render_step_spec(step@) == Ok::<Seq<char>, Seq<char>>(v@),
            Err(e) => render_step_spec(step@) == Err::<Seq<char>, Seq<char>>(e@),
        },
{
    let h = find_char(step, '#');
    let cut = subvec(step, 0, h);
    let t = trim(&cut);
    let els = tokens(&t);
    if els.len() == 0 {
        Err(to_chars("Error: Empty step!"))
    } else if els.len() == 1 {
        let mut out = subvec(&els[0], 0, els[0].len());
        proof {
            assert(out@ =~= vv_view(els@)[0]);
        }
        push_str_chars(&mut out, ": {}");
        Ok(out)
    } else {
        match render_args(&els, 1) {
            Ok(a) => {
                let mut out = subvec(&els[0], 0, els[0].len());
                proof {
                    assert(out@ =~= vv_view(els@)[0]);
                }
                push_str_chars(&mut out, ": {");
                push_all(&mut out, &a);
                push_str_chars(&mut out, "}");
                proof {
                    assert(out@ =~= vv_view(els@)[0] + ": {"@ + a@ + "}"@);
                }
                Ok(out)
            },
            Err(e) => Err(e),
        }
    }
}

fn render_list(steps: &Vec<Vec<char>>, i: usize) -> (r: Result<Vec<char>, Vec<char>>)
    requires
        i <= steps@.len(),
    ensures
        match r {
            Ok(v) => render_list_spec(vv_view(steps@), i as int) == Ok::<Seq<char>, Seq<char>>(v@),
            Err(e) => render_list_spec(vv_view(steps@), i as int) == Err::<Seq<char>, Seq<char>>(
                e@,
            ),
        },
    decreases steps@.len() - i,
{
    if i == steps.len() {
        Ok(Vec::new())
    } else {
        match render_step(&steps[i]) {
            Err(e) => Err(e),
            Ok(r0) => match render_list(steps, i + 1) {
                Err(e) => Err(e),
                Ok(rest) => {
                    let mut out: Vec<char> = Vec::new();
                    if i > 0 {
                        push_str_chars(&mut out, ",\n    ");
                    }
                    push_all(&mut out, &r0);
                    push_all(&mut out, &rest);
                    Ok(out)
                },
            },
        }
    }
}

/// The longhand text for a definition, as `gys_to_yaml_spec` states it.
pub fn gys_to_yaml_chars(v: &Vec<char>) -> (r: Vec<char>)
    ensures
        r@ == gys_to_yaml_spec(v@),
{
    let g = cleaned(v);
    if !is_gys_chars(&g) {
        g
    } else {
        let g1 = trim_char(&g, '|');
        let g2 = trim_char(&g1, '[');
        let g3 = trim_char(&g2, ']');
        let steps = split_char(&g3, '|');
        match render_list(&steps, 0) {
            Err(e) => e,
            Ok(body) => {
                if steps.len() > 1 {
                    let mut out = to_chars("pipeline_from_gys: {\n  steps: [\n    ");
                    push_all(&mut out, &body);
                    push_str_chars(&mut out, "\n  ]\n}");
                    out
                } else {
                    body
                }
            },
        }
    }
}

} // verus!
