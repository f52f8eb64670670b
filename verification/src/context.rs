use vstd::prelude::*;

verus! {

use crate::args::lookup_spec;
use crate::chars::{push_str_chars, string_from_chars, to_chars, trim_start, trim_start_spec};
use crate::compile::{
    compile_def, compile_def_spec, err_view, names_view, Error, ErrV,
};
use crate::gys::{gys_to_yaml_chars, gys_to_yaml_spec, is_gys_chars, is_gys_spec};
use crate::op::{args_view, run_node, OperatorKernel, OpNode};

// ---------------------------------------------------------------------------
// The central administration of the transformation functionality.
//
// A `Context` owns the compiled-operation table, the user-operator and macro
// registries, and the last-failure record.  Execution over an operand batch
// is split into fixed-size chunks handed round-robin to a small pool of
// subordinate contexts ("minions"), each of which has its scratch stack
// cleared after its chunk.  The element type of a coordinate tuple is the
// parameter `T`; the numeric kernels themselves come from the host through
// the `OperatorKernel` trait.
// ---------------------------------------------------------------------------

/// Size of the minion pool: how many chunks are in flight per round.
pub const CHUNKS: usize = 3;

/// Maximum size of each chunk.
pub const CHUNK_SIZE: usize = 1000;

/// The macro-expansion depth at which compilation gives up.
pub const MACRO_FUEL: usize = 32;

pub struct Context<T> {
    pub stack: Vec<Vec<T>>,
    pub minions: Vec<Context<T>>,
    pub user_defined_operators: Vec<String>,
    pub user_defined_macros: Vec<(String, String)>,
    pub operations: Vec<OpNode>,
    pub last_failing_operation_definition: String,
    pub last_failing_operation: String,
    pub cause: String,
}

/// The macro registry, as key/value text.
pub open spec fn macros_view<T>(c: &Context<T>) -> Seq<(Seq<char>, Seq<char>)> {
    args_view(c.user_defined_macros@)
}

/// The user-operator registry, as names.
pub open spec fn userops_view<T>(c: &Context<T>) -> Seq<Seq<char>> {
    names_view(c.user_defined_operators@)
}

/// A definition whose text begins (after blank space) with its own name and
/// a colon; registering it as a macro would nest forever.
pub open spec fn self_referential(name: Seq<char>, definition: Seq<char>) -> bool {
    let t = trim_start_spec(definition);
    let p = name + ":"@;
    t.len() >= p.len() && t.subrange(0, p.len() as int) == p
}

/// The text recorded as the failing operation for an error.
pub open spec fn which_of(e: ErrV) -> Seq<char> {
    match e {
        ErrV::Parse => "parse"@,
        ErrV::NotFound(n) => n,
        ErrV::BadParameter(n, _) => n,
        ErrV::InvalidHandle => "Invalid"@,
    }
}

/// The text recorded as the cause for an error.
pub open spec fn why_of(e: ErrV) -> Seq<char> {
    match e {
        ErrV::Parse => "Malformed definition"@,
        ErrV::NotFound(_) => "Unknown operator"@,
        ErrV::BadParameter(_, k) => "Bad value for '"@ + k + "'"@,
        ErrV::InvalidHandle => "Attempt to access an invalid operator from context"@,
    }
}

fn error_strings(e: &Error) -> (r: (String, String))
    ensures
        r.0@ == which_of(err_view(e)),
        r.1@ == why_of(err_view(e)),
{
    match e {
        Error::Parse => ("parse".to_owned(), "Malformed definition".to_owned()),
        Error::NotFound(n) => (crate::compile::copy_string(n), "Unknown operator".to_owned()),
        Error::BadParameter(n, k) => {
            let mut why = to_chars("Bad value for '");
            push_str_chars(&mut why, k.as_str());
            push_str_chars(&mut why, "'");
            (crate::compile::copy_string(n), string_from_chars(why))
        },
        Error::InvalidHandle => (
            "Invalid".to_owned(),
            "Attempt to access an invalid operator from context".to_owned(),
        ),
    }
}

/// The number of chunks a batch of the given size is cut into.
pub open spec fn chunk_count(len: int) -> int {
    (len + CHUNK_SIZE - 1) / (CHUNK_SIZE as int)
}

/// What a run of one stored operation guarantees: the registries, the
/// operation table, the definition record and the own scratch stack are
/// untouched, and the batch keeps its size.  An out-of-range handle changes
/// nothing else, answers false, and records the fixed failure text.  A valid
/// handle keeps the failure record, succeeds outright on an empty batch, and
/// leaves each minion that took a chunk — the first `chunk_count` of them,
/// round-robin — with an empty scratch stack, the others untouched.
pub open spec fn operate_post<T>(
    pre: Context<T>,
    post: Context<T>,
    ops_pre: Seq<T>,
    ops_post: Seq<T>,
    operation: int,
    r: bool,
) -> bool {
    &&& post.user_defined_macros == pre.user_defined_macros
    &&& post.user_defined_operators == pre.user_defined_operators
    &&& post.operations == pre.operations
    &&& post.last_failing_operation_definition == pre.last_failing_operation_definition
    &&& post.stack == pre.stack
    &&& post.minions@.len() == pre.minions@.len()
    &&& ops_post.len() == ops_pre.len()
    &&& (operation >= pre.operations@.len() ==> (!r && ops_post == ops_pre && post.minions
        == pre.minions && post.last_failing_operation@ == "Invalid"@ && post.cause@
        == "Attempt to access an invalid operator from context"@))
    &&& (operation < pre.operations@.len() ==> (post.last_failing_operation
        == pre.last_failing_operation && post.cause == pre.cause))
    &&& (operation < pre.operations@.len() && ops_pre.len() == 0 ==> r)
    &&& (operation < pre.operations@.len() ==> forall|i: int|
        0 <= i < post.minions@.len() ==> (if i < CHUNKS && i < chunk_count(ops_pre.len() as int) {
            (#[trigger] post.minions@[i]).stack@.len() == 0
        } else {
            post.minions@[i] == pre.minions@[i]
        }))
}

impl<T: Copy> Context<T> {
    pub fn new() -> (r: Context<T>)
        ensures
            r.stack@.len() == 0,
            r.minions@.len() == CHUNKS,
            forall|i: int|
                0 <= i < r.minions@.len() ==> (#[trigger] r.minions@[i]).minions@.len() == 0
                    && r.minions@[i].stack@.len() == 0,
            r.user_defined_operators@.len() == 0,
            r.user_defined_macros@.len() == 0,
            r.operations@.len() == 0,
            r.last_failing_operation_definition@ == Seq::<char>::empty(),
            r.last_failing_operation@ == Seq::<char>::empty(),
            r.cause@ == Seq::<char>::empty(),
    {
        let mut ctx = Context::_new();
        let mut i: usize = 0;
        while i < CHUNKS
            invariant
                i <= CHUNKS,
                ctx.minions@.len() == i,
                forall|j: int|
                    0 <= j < ctx.minions@.len() ==> (#[trigger] ctx.minions@[j]).minions@.len()
                        == 0 && ctx.minions@[j].stack@.len() == 0,
                ctx.stack@.len() == 0,
                ctx.user_defined_operators@.len() == 0,
                ctx.user_defined_macros@.len() == 0,
                ctx.operations@.len() == 0,
                ctx.last_failing_operation_definition@ == Seq::<char>::empty(),
                ctx.last_failing_operation@ == Seq::<char>::empty(),
                ctx.cause@ == Seq::<char>::empty(),
            decreases CHUNKS - i,
        {
            let minion = Context::_new();
            ctx.minions.push(minion);
            i = i + 1;
        }
        ctx
    }

    fn _new() -> (r: Context<T>)
        ensures
            r.stack@.len() == 0,
            r.minions@.len() == 0,
            r.user_defined_operators@.len() == 0,
            r.user_defined_macros@.len() == 0,
            r.operations@.len() == 0,
            r.last_failing_operation_definition@ == Seq::<char>::empty(),
            r.last_failing_operation@ == Seq::<char>::empty(),
            r.cause@ == Seq::<char>::empty(),
    {
        proof {
            reveal_strlit("");
        }
        Context {
            stack: Vec::new(),
            minions: Vec::new(),
            last_failing_operation_definition: "".to_owned(),
            last_failing_operation: "".to_owned(),
            cause: "".to_owned(),
            user_defined_operators: Vec::new(),
            user_defined_macros: Vec::new(),
            operations: Vec::new(),
        }
    }

    /// Registers a user-defined operator name; compilation then resolves the
    /// name to a host kernel, after macros and before builtins.
    /// Re-registration overwrites, so the name set is unchanged.
    pub fn register_operator(&mut self, name: &str)
        ensures
            userops_view(final(self)) == if crate::compile::has_name(
                userops_view(old(self)),
                name@,
            ) {
                userops_view(old(self))
            } else {
                userops_view(old(self)).push(name@)
            },
            final(self).user_defined_macros == old(self).user_defined_macros,
            final(self).operations == old(self).operations,
            final(self).stack == old(self).stack,
            final(self).last_failing_operation == old(self).last_failing_operation,
            final(self).last_failing_operation_definition == old(
                self,
            ).last_failing_operation_definition,
            final(self).cause == old(self).cause,
    {
        if !crate::compile::has_name_exec(&self.user_defined_operators, name) {
            let ghost pre = names_view(self.user_defined_operators@);
            self.user_defined_operators.push(name.to_owned());
            proof {
                crate::compile::lemma_names_view_index(self.user_defined_operators@);
                crate::compile::lemma_names_view_index(old(self).user_defined_operators@);
                assert(names_view(self.user_defined_operators@) =~= pre.push(name@));
            }
        }
    }

    /// Whether a user operator is registered under the name.
    pub fn locate_operator(&self, name: &str) -> (r: bool)
        ensures
            r == crate::compile::has_name(userops_view(self), name@),
    {
        crate::compile::has_name_exec(&self.user_defined_operators, name)
    }

    /// Registers a macro.  A definition that starts with the macro's own
    /// name and a colon is refused, as is a name already registered; in
    /// either case nothing changes and the result is false.
    #[must_use]
    pub fn register_macro(&mut self, name: &str, definition: &str) -> (r: bool)
        ensures
            r == (!self_referential(name@, definition@) && lookup_spec(
                macros_view(old(self)),
                name@,
            ) is None),
            r ==> macros_view(final(self)) == macros_view(old(self)).push((name@, definition@)),
            !r ==> final(self).user_defined_macros == old(self).user_defined_macros,
            final(self).user_defined_operators == old(self).user_defined_operators,
            final(self).operations == old(self).operations,
            final(self).stack == old(self).stack,
            final(self).minions@.len() == old(self).minions@.len(),
            final(self).last_failing_operation == old(self).last_failing_operation,
            final(self).last_failing_operation_definition == old(
                self,
            ).last_failing_operation_definition,
            final(self).cause == old(self).cause,
    {
        let defc = to_chars(definition);
        let t = trim_start(&defc);
        let mut p = to_chars(name);
        p.push(':');
        proof {
            reveal_strlit(":");
            assert(p@ =~= name@ + ":"@);
        }
        if t.len() >= p.len() {
            let head = crate::chars::subvec(&t, 0, p.len());
            if chars_eq_vec(&head, &p) {
                return false;
            }
        }
        match crate::args::lookup(&self.user_defined_macros, name) {
            Some(_) => false,
            None => {
                let ghost pre = macros_view(self);
                self.user_defined_macros.push((name.to_owned(), definition.to_owned()));
                proof {
                    crate::op::lemma_args_view_index(self.user_defined_macros@);
                    crate::op::lemma_args_view_index(old(self).user_defined_macros@);
                    assert(macros_view(self) =~= pre.push((name@, definition@)));
                }
                true
            },
        }
    }

    /// The registered definition of a macro, if any.
    pub fn locate_macro(&self, name: &str) -> (r: Option<String>)
        ensures
            match r {
                Some(d) => lookup_spec(macros_view(self), name@) == Some(d@),
                None => lookup_spec(macros_view(self), name@) is None,
            },
    {
        crate::args::lookup(&self.user_defined_macros, name)
    }

    /// Parses, compiles and stores a definition.  On success the handle is
    /// the table index of the new operation, every earlier handle still
    /// names the same operation, and the last-failure record is cleared; on
    /// failure nothing is stored and the record names the error.
    pub fn operation(&mut self, definition: &str) -> (r: Option<usize>)
        ensures
            final(self).user_defined_macros == old(self).user_defined_macros,
            final(self).user_defined_operators == old(self).user_defined_operators,
            final(self).stack == old(self).stack,
            final(self).minions@.len() == old(self).minions@.len(),
            final(self).last_failing_operation_definition@ == definition@,
            match compile_def_spec(
                definition@,
                macros_view(old(self)),
                userops_view(old(self)),
                MACRO_FUEL as nat,
            ) {
                Ok(opv) => {
                    &&& r == Some(old(self).operations@.len() as usize)
                    &&& final(self).operations@.len() == old(self).operations@.len() + 1
                    &&& crate::op::op_view(&final(self).operations@.last()) == opv
                    &&& forall|i: int|
                        0 <= i < old(self).operations@.len() ==> final(self).operations@[i] == old(
                            self,
                        ).operations@[i]
                    &&& final(self).last_failing_operation@ == Seq::<char>::empty()
                    &&& final(self).cause@ == Seq::<char>::empty()
                },
                Err(ev) => {
                    &&& r is None
                    &&& final(self).operations == old(self).operations
                    &&& final(self).last_failing_operation@ == which_of(ev)
                    &&& final(self).cause@ == why_of(ev)
                },
            },
    {
        proof {
            reveal_strlit("");
        }
        self.last_failing_operation_definition = definition.to_owned();
        self.last_failing_operation = "".to_owned();
        self.cause = "".to_owned();
        let v = to_chars(definition);
        match compile_def(
            &v,
            &self.user_defined_macros,
            &self.user_defined_operators,
            MACRO_FUEL,
        ) {
            Ok(op) => {
                let index = self.operations.len();
                self.operations.push(op);
                Some(index)
            },
            Err(e) => {
                let (which, why) = error_strings(&e);
                self.last_failing_operation = which;
                self.cause = why;
                None
            },
        }
    }

    /// Records a failure.
    pub fn error(&mut self, which: &str, why: &str)
        ensures
            final(self).last_failing_operation@ == which@,
            final(self).cause@ == why@,
            final(self).user_defined_macros == old(self).user_defined_macros,
            final(self).user_defined_operators == old(self).user_defined_operators,
            final(self).operations == old(self).operations,
            final(self).stack == old(self).stack,
            final(self).last_failing_operation_definition == old(
                self,
            ).last_failing_operation_definition,
    {
        self.last_failing_operation = which.to_owned();
        self.cause = why.to_owned();
    }

    /// A rendering of the last failure: the failing operation, the cause,
    /// and the definition that failed.
    pub fn report(&mut self) -> (r: String)
        ensures
            r@ == "Last failure in "@ + old(self).last_failing_operation@ + ": "@ + old(
                self,
            ).cause@ + "\n"@ + old(self).last_failing_operation_definition@,
            *final(self) == *old(self),
    {
        let mut out = to_chars("Last failure in ");
        push_str_chars(&mut out, self.last_failing_operation.as_str());
        push_str_chars(&mut out, ": ");
        push_str_chars(&mut out, self.cause.as_str());
        push_str_chars(&mut out, "\n");
        push_str_chars(&mut out, self.last_failing_operation_definition.as_str());
        string_from_chars(out)
    }

    /// The operands of one chunk: a copy of `v[start..end]`.
    fn chunk_of(v: &Vec<T>, start: usize, end: usize) -> (c: Vec<T>)
        requires
            start <= end <= v@.len(),
        ensures
            c@ == v@.subrange(start as int, end as int),
    {
        let mut c: Vec<T> = Vec::new();
        let mut j = start;
        while j < end
            invariant
                start <= j <= end <= v@.len(),
                c@ == v@.subrange(start as int, j as int),
            decreases end - j,
        {
            c.push(v[j]);
            j = j + 1;
            proof {
                assert(c@ =~= v@.subrange(start as int, j as int));
            }
        }
        c
    }

    /// Writes a processed chunk back over `dst[start..start + src.len())`;
    /// everything outside that range keeps its value.
    fn write_back(dst: &mut Vec<T>, start: usize, src: &Vec<T>)
        requires
            start + src@.len() <= old(dst)@.len(),
        ensures
            final(dst)@.len() == old(dst)@.len(),
            forall|t: int|
                0 <= t < old(dst)@.len() ==> #[trigger] final(dst)@[t] == (if start <= t < start
                    + src@.len() {
                    src@[t - start]
                } else {
                    old(dst)@[t]
                }),
    {
        let dlen = dst.len();
        let mut j: usize = 0;
        while j < src.len()
            invariant
                j <= src@.len(),
                start + src@.len() <= dst@.len(),
                dst@.len() == dlen as int,
                dst@.len() == old(dst)@.len(),
                forall|t: int|
                    0 <= t < dst@.len() ==> #[trigger] dst@[t] == (if start <= t < start + j {
                        src@[t - start]
                    } else {
                        old(dst)@[t]
                    }),
            decreases src@.len() - j,
        {
            dst[start + j] = src[j];
            j = j + 1;
        }
    }

    /// Runs one compiled operation over one chunk: the count the kernels
    /// answered, and whether it covers the whole chunk.
    fn _operate<K: OperatorKernel<T>>(
        k: &K,
        op: &OpNode,
        operands: &mut Vec<T>,
        forward: bool,
    ) -> (r: (usize, bool))
        ensures
            final(operands)@.len() == old(operands)@.len(),
            r.1 == (r.0 >= old(operands)@.len()),
    {
        let full = operands.len();
        let n = run_node(k, op, operands, forward);
        (n, n >= full)
    }

    fn clear_minion_stack(&mut self, i: usize)
        requires
            i < old(self).minions@.len(),
        ensures
            final(self).minions@.len() == old(self).minions@.len(),
            final(self).minions@[i as int].stack@.len() == 0,
            forall|j: int|
                0 <= j < old(self).minions@.len() && j != i ==> final(self).minions@[j] == old(
                    self,
                ).minions@[j],
            final(self).user_defined_macros == old(self).user_defined_macros,
            final(self).user_defined_operators == old(self).user_defined_operators,
            final(self).operations == old(self).operations,
            final(self).stack == old(self).stack,
            final(self).last_failing_operation == old(self).last_failing_operation,
            final(self).last_failing_operation_definition == old(
                self,
            ).last_failing_operation_definition,
            final(self).cause == old(self).cause,
    {
        let ghost pre = self.minions@;
        let mut m = self.minions.remove(i);
        m.stack = Vec::new();
        self.minions.insert(i, m);
        proof {
            assert forall|j: int| 0 <= j < pre.len() && j != i implies self.minions@[j] == pre[j]
            by {
                assert(self.minions@ == pre.remove(i as int).insert(i as int, m));
            }
        }
    }

    /// Runs one stored operation over the operand batch, in place: the batch
    /// is cut into chunks handed round-robin to the minions, and each
    /// minion's scratch stack is cleared after its chunk (`operate_post`
    /// states which).  The batch keeps its size, and an empty batch succeeds
    /// outright; an out-of-range handle performs nothing and records the
    /// failure.  The result folds the per-chunk answers: true only while
    /// every chunk's kernels reported the whole chunk transformed.
    pub fn operate<K: OperatorKernel<T>>(
        &mut self,
        k: &K,
        operation: usize,
        operands: &mut Vec<T>,
        forward: bool,
    ) -> (r: bool)
        ensures
            operate_post(
                *old(self),
                *final(self),
                old(operands)@,
                final(operands)@,
                operation as int,
                r,
            ),
    {
        if operation >= self.operations.len() {
            self.last_failing_operation = "Invalid".to_owned();
            self.cause = "Attempt to access an invalid operator from context".to_owned();
            return false;
        }
        let len = operands.len();
        let mut start: usize = 0;
        let mut mi: usize = 0;
        let mut result = true;
        let ghost mut done: int = 0;
        while start < len
            invariant
                len == operands@.len(),
                operands@.len() == old(operands)@.len(),
                start <= len,
                mi < CHUNKS,
                operation < self.operations@.len(),
                done >= 0,
                len == 0 ==> result,
                start < len ==> start == done * (CHUNK_SIZE as int),
                start == len ==> done == chunk_count(len as int),
                mi as int == done % (CHUNKS as int),
                forall|i: int|
                    0 <= i < self.minions@.len() ==> (if i < CHUNKS && i < done {
                        (#[trigger] self.minions@[i]).stack@.len() == 0
                    } else {
                        self.minions@[i] == old(self).minions@[i]
                    }),
                self.user_defined_macros == old(self).user_defined_macros,
                self.user_defined_operators == old(self).user_defined_operators,
                self.operations == old(self).operations,
                self.stack == old(self).stack,
                self.minions@.len() == old(self).minions@.len(),
                self.last_failing_operation == old(self).last_failing_operation,
                self.last_failing_operation_definition == old(
                    self,
                ).last_failing_operation_definition,
                self.cause == old(self).cause,
            decreases len - start,
        {
            let end = if len - start > CHUNK_SIZE {
                start + CHUNK_SIZE
            } else {
                len
            };
            let mut chunk = Self::chunk_of(operands, start, end);
            let (_count, ok) = Self::_operate(
                k,
                &self.operations[operation],
                &mut chunk,
                forward,
            );
            Self::write_back(operands, start, &chunk);
            result = result && ok;
            if mi < self.minions.len() {
                self.clear_minion_stack(mi);
            }
            mi = if mi + 1 == CHUNKS {
                0
            } else {
                mi + 1
            };
            proof {
                done = done + 1;
            }
            start = end;
        }
        result
    }

    /// `operate`, forward.
    pub fn fwd<K: OperatorKernel<T>>(
        &mut self,
        k: &K,
        operation: usize,
        operands: &mut Vec<T>,
    ) -> (r: bool)
        ensures
            operate_post(
                *old(self),
                *final(self),
                old(operands)@,
                final(operands)@,
                operation as int,
                r,
            ),
    {
        self.operate(k, operation, operands, true)
    }

    /// `operate`, inverse.
    pub fn inv<K: OperatorKernel<T>>(
        &mut self,
        k: &K,
        operation: usize,
        operands: &mut Vec<T>,
    ) -> (r: bool)
        ensures
            operate_post(
                *old(self),
                *final(self),
                old(operands)@,
                final(operands)@,
                operation as int,
                r,
            ),
    {
        self.operate(k, operation, operands, false)
    }

    /// Classifies a definition string; see `is_gys_spec` for the exact rule.
    pub fn is_gys(gys: &str) -> (r: bool)
        ensures
            r == is_gys_spec(gys@),
    {
        let v = to_chars(gys);
        is_gys_chars(&v)
    }

    /// Rewrites shorthand to longhand; see `gys_to_yaml_spec` for the exact
    /// text produced.
    pub fn gys_to_yaml(gys: &str) -> (r: String)
        ensures
            r@ == gys_to_yaml_spec(gys@),
    {
        let v = to_chars(gys);
        string_from_chars(gys_to_yaml_chars(&v))
    }

    /// The relative location of an asset inside the asset tree (and inside
    /// an asset archive): `assets/<branch>/<name><ext>`.
    pub fn asset_filename(branch: &str, name: &str, ext: &str) -> (r: String)
        ensures
            r@ == "assets/"@ + branch@ + "/"@ + name@ + ext@,
    {
        let mut out = to_chars("assets/");
        push_str_chars(&mut out, branch);
        push_str_chars(&mut out, "/");
        push_str_chars(&mut out, name);
        push_str_chars(&mut out, ext);
        string_from_chars(out)
    }
}

/// Whether two character vectors hold the same characters.
fn chars_eq_vec(a: &Vec<char>, b: &Vec<char>) -> (r: bool)
    ensures
        r == (a@ == b@),
{
    if a.len() != b.len() {
        return false;
    }
    let mut k: usize = 0;
    while k < a.len()
        invariant
            k <= a@.len(),
            a@.len() == b@.len(),
            forall|j: int| 0 <= j < k ==> a@[j] == b@[j],
        decreases a@.len() - k,
    {
        if a[k] != b[k] {
            return false;
        }
        k = k + 1;
    }
    proof {
        assert(a@ =~= b@);
    }
    true
}

} // verus!
