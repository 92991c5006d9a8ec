//! The signature extractor: turns the declared inputs of a function into a
//! uniform description of each parameter.
use vstd::prelude::*;

verus! {

/// The outer shape of a declared type.
#[derive(Clone, Copy, Debug, PartialEq, Eq, Structural)]
pub enum TypeKind {
    /// A path such as `Option<u8>` or `pyo3::Python`.
    Path,
    /// A reference such as `&str`.
    Reference,
    /// Any other type form (tuple, slice, array, ...).
    Other,
}

/// What the extractor reads of a declared type.
#[derive(Clone, Debug)]
pub struct NativeType {
    pub kind: TypeKind,
    /// The identifiers of the path's segments, outermost first (path types only).
    pub segments: Vec<String>,
    /// Whether the last segment carries angle-bracketed arguments.
    pub last_has_args: bool,
    /// The type as written, carried through unparsed.
    pub text: String,
}

/// The pattern bound to a parameter.
#[derive(Clone, Debug)]
pub enum Binding {
    /// A plain identifier, possibly with `mut` and `ref`.
    Ident { name: String, mutable: bool, by_ref: bool },
    /// Any other pattern (destructuring, wildcard, ...).
    Other,
}

/// One declared input of a function.
#[derive(Clone, Debug)]
pub enum FnInput {
    /// `self`, `&self`, `&mut self`, ...
    Receiver,
    Typed { binding: Binding, ty: NativeType },
}

/// The uniform description of one parameter.
#[derive(Clone, Debug)]
pub struct ParameterSpec {
    pub name: String,
    pub mutable: bool,
    pub by_ref: bool,
    pub native_type: String,
    /// The type is the optional wrapper: the argument may be omitted.
    pub optional: bool,
    /// The type is the runtime-context handle: supplied by the runtime.
    pub is_runtime_context: bool,
    /// The type is a reference: marshalling borrows rather than takes.
    pub pass_by_reference: bool,
}

/// A generation-time error; `index` is the position of the offending input.
#[derive(Clone, Copy, Debug, PartialEq, Eq, Structural)]
pub enum SignatureError {
    UnexpectedReceiver { index: usize },
    UnsupportedArgument { index: usize },
}

pub open spec fn last_segment_is(ty: NativeType, word: Seq<char>) -> bool {
    &&& ty.kind == TypeKind::Path
    &&& ty.segments@.len() > 0
    &&& ty.segments@.last()@ == word
}

/// The type denotes the runtime-context handle, by the last segment of its path.
pub open spec fn spec_is_runtime_context(ty: NativeType) -> bool {
    last_segment_is(ty, seq!['P', 'y', 't', 'h', 'o', 'n'])
}

/// The type is the optional wrapper applied to an argument.
pub open spec fn spec_is_optional(ty: NativeType) -> bool {
    last_segment_is(ty, seq!['O', 'p', 't', 'i', 'o', 'n']) && ty.last_has_args
}

pub open spec fn spec_is_reference(ty: NativeType) -> bool {
    ty.kind == TypeKind::Reference
}

/// The error that the input at `index` raises, if any.
pub open spec fn input_error(input: FnInput, index: usize) -> Option<SignatureError> {
    match input {
        FnInput::Receiver => Some(SignatureError::UnexpectedReceiver { index }),
        FnInput::Typed { binding: Binding::Other, .. } => Some(
            SignatureError::UnsupportedArgument { index },
        ),
        _ => None,
    }
}

/// `p` describes the accepted input `input`.
pub open spec fn describes(input: FnInput, p: ParameterSpec) -> bool {
    match input {
        FnInput::Typed { binding: Binding::Ident { name, mutable, by_ref }, ty } => {
            &&& p.name@ == name@
            &&& p.mutable == mutable
            &&& p.by_ref == by_ref
            &&& p.native_type@ == ty.text@
            &&& p.optional == spec_is_optional(ty)
            &&& p.is_runtime_context == spec_is_runtime_context(ty)
            &&& p.pass_by_reference == spec_is_reference(ty)
        },
        _ => false,
    }
}

/// All inputs before `n` are accepted.
pub open spec fn accepted_upto(inputs: Seq<FnInput>, n: int) -> bool {
    forall|i: int| 0 <= i < n ==> input_error(#[trigger] inputs[i], i as usize).is_none()
}

fn last_segment_equals(ty: &NativeType, word: &str) -> (r: bool)
    ensures
        r == last_segment_is(*ty, word@),
{
    if ty.kind != TypeKind::Path || ty.segments.len() == 0 {
        return false;
    }
    let last = ty.segments[ty.segments.len() - 1].as_str();
    str_equal(last, word)
}

pub(crate) fn str_equal(a: &str, b: &str) -> (r: bool)
    ensures
        r == (a@ == b@),
{
    let n = a.unicode_len();
    if n != b.unicode_len() {
        return false;
    }
    let mut i: usize = 0;
    while i < n
        invariant
            n == a@.len(),
            n == b@.len(),
            i <= n,
            forall|k: int| 0 <= k < i ==> a@[k] == b@[k],
        decreases n - i,
    {
        if a.get_char(i) != b.get_char(i) {
            return false;
        }
        i = i + 1;
    }
    assert(a@ =~= b@);
    true
}

/// Whether the type denotes the runtime-context handle.
pub fn is_runtime_context_type(ty: &NativeType) -> (r: bool)
    ensures
        r == spec_is_runtime_context(*ty),
{
    proof {
        reveal_strlit("Python");
    }
    let r = last_segment_equals(ty, "Python");
    assert("Python"@ =~= seq!['P', 'y', 't', 'h', 'o', 'n']);
    r
}

/// Whether the type is the optional wrapper.
pub fn is_optional_type(ty: &NativeType) -> (r: bool)
    ensures
        r == spec_is_optional(*ty),
{
    proof {
        reveal_strlit("Option");
    }
    let r = last_segment_equals(ty, "Option");
    assert("Option"@ =~= seq!['O', 'p', 't', 'i', 'o', 'n']);
    r && ty.last_has_args
}

/// Describes one typed input; `index` is its position, for the error.
pub fn wrap_fn_argument(binding: &Binding, ty: &NativeType, index: usize) -> (r: Result<
    ParameterSpec,
    SignatureError,
>)
    ensures
        match r {
            Ok(p) => binding is Ident && describes(
                FnInput::Typed { binding: *binding, ty: *ty },
                p,
            ),
            Err(e) => binding is Other && e == (SignatureError::UnsupportedArgument { index }),
        },
{
    match binding {
        Binding::Ident { name, mutable, by_ref } => Ok(
            ParameterSpec {
                name: name.clone(),
                mutable: *mutable,
                by_ref: *by_ref,
                native_type: ty.text.clone(),
                optional: is_optional_type(ty),
                is_runtime_context: is_runtime_context_type(ty),
                pass_by_reference: ty.kind == TypeKind::Reference,
            },
        ),
        Binding::Other => Err(SignatureError::UnsupportedArgument { index }),
    }
}

/// Describes every input in declaration order, or reports the first one that
/// cannot be exported: a receiver, or a binding that is not an identifier.
pub fn extract_signature(inputs: &Vec<FnInput>) -> (r: Result<Vec<ParameterSpec>, SignatureError>)
    ensures
        r is Ok <==> accepted_upto(inputs@, inputs@.len() as int),
        r matches Ok(ps) ==> ps@.len() == inputs@.len() && forall|i: int|
            0 <= i < inputs@.len() ==> describes(#[trigger] inputs@[i], ps@[i]),
        r matches Err(e) ==> exists|i: int|
            0 <= i < inputs@.len() && accepted_upto(inputs@, i) && input_error(
                #[trigger] inputs@[i],
                i as usize,
            ) == Some(e),
{
    let mut out: Vec<ParameterSpec> = Vec::new();
    let mut i: usize = 0;
    while i < inputs.len()
        invariant
            i <= inputs@.len(),
            out@.len() == i,
            accepted_upto(inputs@, i as int),
            forall|k: int| 0 <= k < i ==> describes(#[trigger] inputs@[k], out@[k]),
        decreases inputs@.len() - i,
    {
        match &inputs[i] {
            FnInput::Receiver => {
                assert(input_error(inputs@[i as int], i) is Some);
                return Err(SignatureError::UnexpectedReceiver { index: i });
            },
            FnInput::Typed { binding, ty } => {
                match wrap_fn_argument(binding, ty, i) {
                    Ok(p) => {
                        out.push(p);
                    },
                    Err(e) => {
                        assert(input_error(inputs@[i as int], i) == Some(e));
                        return Err(e);
                    },
                }
            },
        }
        i = i + 1;
    }
    Ok(out)
}

} // verus!
