//! The deterministic naming scheme shared by the wrapper synthesiser and the
//! module registration code.
use vstd::prelude::*;
use vstd::string::StringExecFns;

verus! {

/// Prefix of every generated wrapper's identifier.
pub open spec fn wrapper_prefix() -> Seq<char> {
    seq!['_', '_', 'g', 'e', 'n', 'e', 'r', 'a', 't', 'e', 'd', '_', 'g', 'e', 't', '_',
         'f', 'u', 'n', 'c', 't', 'i', 'o', 'n', '_']
}

/// Prefix of a module's loader entry point.
pub open spec fn entry_prefix() -> Seq<char> {
    seq!['P', 'y', 'I', 'n', 'i', 't', '_']
}

/// The identifier of the wrapper generated for a function named `name`.
pub open spec fn spec_wrapper_name(name: Seq<char>) -> Seq<char> {
    wrapper_prefix() + name
}

/// The identifier of the entry point of a module named `module`.
pub open spec fn spec_entry_name(module: Seq<char>) -> Seq<char> {
    entry_prefix() + module
}

/// Identifier of the wrapper generated for the function `name`.
pub fn function_wrapper_ident(name: &str) -> (r: String)
    ensures
        r@ == spec_wrapper_name(name@),
{
    let prefix = String::from_str("__generated_get_function_");
    proof {
        reveal_strlit("__generated_get_function_");
    }
    assert(prefix@ =~= wrapper_prefix());
    prefix.concat(name)
}

/// Identifier of the loader entry point of the module `module`.
pub fn module_entry_ident(module: &str) -> (r: String)
    ensures
        r@ == spec_entry_name(module@),
{
    let prefix = String::from_str("PyInit_");
    proof {
        reveal_strlit("PyInit_");
    }
    assert(prefix@ =~= entry_prefix());
    prefix.concat(module)
}

/// Two distinct function names never share a wrapper identifier.
pub proof fn lemma_wrapper_name_injective(a: Seq<char>, b: Seq<char>)
    ensures
        spec_wrapper_name(a) == spec_wrapper_name(b) ==> a == b,
{
    if spec_wrapper_name(a) == spec_wrapper_name(b) {
        let n = wrapper_prefix().len();
        assert(a =~= spec_wrapper_name(a).subrange(n as int, spec_wrapper_name(a).len() as int));
        assert(b =~= spec_wrapper_name(b).subrange(n as int, spec_wrapper_name(b).len() as int));
    }
}

/// Two distinct module names never share an entry point identifier.
pub proof fn lemma_entry_name_injective(a: Seq<char>, b: Seq<char>)
    ensures
        spec_entry_name(a) == spec_entry_name(b) ==> a == b,
{
    if spec_entry_name(a) == spec_entry_name(b) {
        let n = entry_prefix().len();
        assert(a =~= spec_entry_name(a).subrange(n as int, spec_entry_name(a).len() as int));
        assert(b =~= spec_entry_name(b).subrange(n as int, spec_entry_name(b).len() as int));
    }
}

} // verus!
