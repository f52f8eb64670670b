use vstd::prelude::*;

verus! {

use crate::compile::{compile_def_spec, normalize_spec};

// ---------------------------------------------------------------------------
// Laws that relate several parts of the engine.
// ---------------------------------------------------------------------------

/// Shorthand/longhand equivalence: two definitions that normalize to the
/// same canonical form compile to the very same operator, whatever the
/// registries hold — so a shorthand pipeline and its longhand rendering
/// build operators whose runs are identical, invocation for invocation.
pub proof fn lemma_definition_equivalence(
    a: Seq<char>,
    b: Seq<char>,
    macros: Seq<(Seq<char>, Seq<char>)>,
    userops: Seq<Seq<char>>,
    fuel: nat,
)
    requires
        normalize_spec(a) == normalize_spec(b),
    ensures
        compile_def_spec(a, macros, userops, fuel) == compile_def_spec(b, macros, userops, fuel),
{
}

} // verus!
