//! The wrapper synthesiser: combines a function's signature and its export
//! directive into the plan of the generated wrapper.
use vstd::prelude::*;
use crate::directive::ArgDirective;
use crate::naming::{function_wrapper_ident, spec_wrapper_name};
use crate::signature::{
    accepted_upto, describes, str_equal, extract_signature, input_error, FnInput, ParameterSpec,
    SignatureError,
};

verus! {

/// How the function's native return value is handed back.
#[derive(Clone, Copy, Debug, PartialEq, Eq, Structural)]
pub enum ReturnKind {
    /// No declared return type.
    Unit,
    /// A plain value, converted directly.
    Value,
    /// An optional value; the absent case becomes the runtime's absent object.
    OptionalValue,
    /// A result whose error branch is raised as an exception.
    ResultWithError,
}

/// What the generator reads of a function item.
#[derive(Clone, Debug)]
pub struct FnDecl {
    pub name: String,
    pub inputs: Vec<FnInput>,
    pub output: ReturnKind,
    /// Documentation text handed to the runtime with the function.
    pub doc: String,
}

/// How the generated wrapper obtains one parameter's value at call time.
#[derive(Clone, Debug)]
pub struct ParamPlan {
    pub name: String,
    pub optional: bool,
    /// The explicit default of the parameter's directive, if any.
    pub default: Option<String>,
    /// The parameter's directive follows a keyword-only marker.
    pub keyword_only: bool,
    /// Supplied from the call context, never from the argument containers.
    pub runtime_context: bool,
}

/// The generated wrapper, ready to be emitted.
#[derive(Clone, Debug)]
pub struct WrapperPlan {
    /// The identifier of the wrapper.
    pub wrapper_ident: String,
    /// The name under which the dynamic side sees the function.
    pub python_name: String,
    /// The function the wrapper calls.
    pub target: String,
    /// The parameters, in declaration order: the order of the call.
    pub params: Vec<ParameterSpec>,
    /// For each parameter, how its value is obtained.
    pub plans: Vec<ParamPlan>,
    pub output: ReturnKind,
    pub doc: String,
}

pub open spec fn names_arg(d: ArgDirective, name: Seq<char>) -> bool {
    d matches ArgDirective::Arg { name: n, .. } && n@ == name
}

/// `j` is the first directive that names `name`.
pub open spec fn first_naming(dirs: Seq<ArgDirective>, name: Seq<char>, j: int) -> bool {
    &&& 0 <= j < dirs.len()
    &&& names_arg(dirs[j], name)
    &&& forall|k: int| 0 <= k < j ==> !names_arg(#[trigger] dirs[k], name)
}

/// `plan` is how the parameter `p` is obtained under the directives `dirs`:
/// the first directive that names it gives its default, and it is keyword-only
/// when a marker precedes that directive.
pub open spec fn plans(p: ParameterSpec, dirs: Seq<ArgDirective>, plan: ParamPlan) -> bool {
    &&& plan.name@ == p.name@
    &&& plan.optional == p.optional
    &&& plan.runtime_context == p.is_runtime_context
    &&& (forall|j: int| 0 <= j < dirs.len() ==> !names_arg(#[trigger] dirs[j], p.name@)) ==> (
    plan.default is None && !plan.keyword_only)
    &&& forall|j: int|
        #![trigger dirs[j]]
        first_naming(dirs, p.name@, j) ==> {
            &&& dirs[j] matches ArgDirective::Arg { default, .. } && (plan.default is Some
                <==> default is Some) && (plan.default is Some ==> plan.default->0@
                == default->0@)
            &&& plan.keyword_only == exists|m: int|
                0 <= m < j && #[trigger] dirs[m] is KeywordOnlyMarker
        }
}

/// Plans how the parameter `p` is obtained.
pub fn plan_parameter(p: &ParameterSpec, dirs: &Vec<ArgDirective>) -> (r: ParamPlan)
    ensures
        plans(*p, dirs@, r),
{
    let mut default: Option<String> = None;
    let mut keyword_only = false;
    let mut found = false;
    let mut seen_marker = false;
    let mut at: usize = 0;
    let mut i: usize = 0;
    while i < dirs.len()
        invariant
            i <= dirs@.len(),
            seen_marker == exists|m: int| 0 <= m < i && #[trigger] dirs@[m] is KeywordOnlyMarker,
            !found ==> forall|k: int| 0 <= k < i ==> !names_arg(#[trigger] dirs@[k], p.name@),
            !found ==> default is None && !keyword_only,
            found ==> at < i && first_naming(dirs@, p.name@, at as int) && (
            dirs@[at as int] matches ArgDirective::Arg { default: d, .. } && (default is Some
                <==> d is Some) && (default is Some ==> default->0@ == d->0@)),
            found ==> keyword_only == exists|m: int|
                0 <= m < at && #[trigger] dirs@[m] is KeywordOnlyMarker,
        decreases dirs@.len() - i,
    {
        match &dirs[i] {
            ArgDirective::Arg { name, default: d } => {
                if !found && str_equal(name.as_str(), p.name.as_str()) {
                    found = true;
                    at = i;
                    keyword_only = seen_marker;
                    default = match d {
                        Some(s) => Some(s.clone()),
                        None => None,
                    };
                }
            },
            ArgDirective::KeywordOnlyMarker => {
                seen_marker = true;
            },
        }
        i = i + 1;
    }
    proof {
        assert forall|j: int| #![trigger dirs@[j]] first_naming(dirs@, p.name@, j) implies j == at
            by {
            if j < at {
                assert(!names_arg(dirs@[j], p.name@));
            } else if j > at {
                assert(!names_arg(dirs@[at as int], p.name@));
            }
        }
    }
    ParamPlan {
        name: p.name.clone(),
        optional: p.optional,
        default,
        keyword_only,
        runtime_context: p.is_runtime_context,
    }
}

/// `w` is the wrapper generated for `func`, exported as `python_name` under
/// the per-argument directives `dirs`.
pub open spec fn wrapper_for(
    func: FnDecl,
    python_name: Seq<char>,
    dirs: Seq<ArgDirective>,
    w: WrapperPlan,
) -> bool {
    &&& w.wrapper_ident@ == spec_wrapper_name(func.name@)
    &&& w.python_name@ == python_name
    &&& w.target@ == func.name@
    &&& w.params@.len() == func.inputs@.len()
    &&& w.plans@.len() == func.inputs@.len()
    &&& forall|i: int|
        0 <= i < func.inputs@.len() ==> describes(#[trigger] func.inputs@[i], w.params@[i])
            && plans(w.params@[i], dirs, w.plans@[i])
    &&& w.output == func.output
    &&& w.doc@ == func.doc@
}

/// `e` is the error of the first input of `inputs` that cannot be exported.
pub open spec fn first_input_error(inputs: Seq<FnInput>, e: SignatureError) -> bool {
    exists|i: int|
        0 <= i < inputs.len() && accepted_upto(inputs, i) && input_error(#[trigger] inputs[i], i as usize)
            == Some(e)
}

/// Plans every parameter, in order.
pub fn plan_parameters(params: &Vec<ParameterSpec>, dirs: &Vec<ArgDirective>) -> (r: Vec<ParamPlan>)
    ensures
        r@.len() == params@.len(),
        forall|i: int| 0 <= i < params@.len() ==> plans(#[trigger] params@[i], dirs@, r@[i]),
{
    let mut out: Vec<ParamPlan> = Vec::new();
    let mut i: usize = 0;
    while i < params.len()
        invariant
            i <= params@.len(),
            out@.len() == i,
            forall|k: int| 0 <= k < i ==> plans(#[trigger] params@[k], dirs@, out@[k]),
        decreases params@.len() - i,
    {
        out.push(plan_parameter(&params[i], dirs));
        i = i + 1;
    }
    out
}

/// Generates the wrapper that exposes `func` to the dynamic side as
/// `python_name`. Fails on the first input that is a receiver or binds
/// anything but an identifier.
pub fn add_fn_to_module(func: &FnDecl, python_name: String, pyfn_attrs: &Vec<ArgDirective>) -> (r:
    Result<WrapperPlan, SignatureError>)
    ensures
        r is Ok <==> accepted_upto(func.inputs@, func.inputs@.len() as int),
        r matches Ok(w) ==> wrapper_for(*func, python_name@, pyfn_attrs@, w),
        r matches Err(e) ==> first_input_error(func.inputs@, e),
{
    let params = extract_signature(&func.inputs)?;
    let plans = plan_parameters(&params, pyfn_attrs);
    Ok(
        WrapperPlan {
            wrapper_ident: function_wrapper_ident(func.name.as_str()),
            python_name,
            target: func.name.clone(),
            params,
            plans,
            output: func.output,
            doc: func.doc.clone(),
        },
    )
}

/// A function whose first input is a receiver is refused with the receiver
/// error, and no wrapper is generated for it.
pub proof fn lemma_receiver_first_refused(inputs: Seq<FnInput>, e: SignatureError)
    requires
        inputs.len() > 0,
        inputs[0] is Receiver,
    ensures
        !accepted_upto(inputs, inputs.len() as int),
        first_input_error(inputs, e) ==> e == (SignatureError::UnexpectedReceiver { index: 0 }),
{
    assert(input_error(inputs[0], 0) is Some);
    if first_input_error(inputs, e) {
        let i = choose|i: int|
            0 <= i < inputs.len() && accepted_upto(inputs, i) && input_error(
                #[trigger] inputs[i],
                i as usize,
            ) == Some(e);
        if i > 0 {
            assert(input_error(inputs[0], 0 as usize).is_none());
        }
    }
}

pub open spec fn same_param(a: ParameterSpec, b: ParameterSpec) -> bool {
    &&& a.name@ == b.name@
    &&& a.mutable == b.mutable
    &&& a.by_ref == b.by_ref
    &&& a.native_type@ == b.native_type@
    &&& a.optional == b.optional
    &&& a.is_runtime_context == b.is_runtime_context
    &&& a.pass_by_reference == b.pass_by_reference
}

pub open spec fn same_plan(a: ParamPlan, b: ParamPlan) -> bool {
    &&& a.name@ == b.name@
    &&& a.optional == b.optional
    &&& (a.default is Some <==> b.default is Some)
    &&& a.default is Some ==> a.default->0@ == b.default->0@
    &&& a.keyword_only == b.keyword_only
    &&& a.runtime_context == b.runtime_context
}

/// Two wrappers that agree in every text and flag they carry.
pub open spec fn same_wrapper(a: WrapperPlan, b: WrapperPlan) -> bool {
    &&& a.wrapper_ident@ == b.wrapper_ident@
    &&& a.python_name@ == b.python_name@
    &&& a.target@ == b.target@
    &&& a.params@.len() == b.params@.len()
    &&& a.plans@.len() == b.plans@.len()
    &&& forall|i: int|
        0 <= i < a.params@.len() ==> same_param(#[trigger] a.params@[i], b.params@[i])
    &&& forall|i: int| 0 <= i < a.plans@.len() ==> same_plan(#[trigger] a.plans@[i], b.plans@[i])
    &&& a.output == b.output
    &&& a.doc@ == b.doc@
}

proof fn lemma_first_naming_exists(dirs: Seq<ArgDirective>, name: Seq<char>, j: int)
    requires
        0 <= j < dirs.len(),
        names_arg(dirs[j], name),
    ensures
        exists|f: int| first_naming(dirs, name, f),
    decreases j,
{
    if exists|k: int| 0 <= k < j && names_arg(#[trigger] dirs[k], name) {
        let k = choose|k: int| 0 <= k < j && names_arg(#[trigger] dirs[k], name);
        lemma_first_naming_exists(dirs, name, k);
    } else {
        assert(first_naming(dirs, name, j));
    }
}

proof fn lemma_plan_unique(p: ParameterSpec, q: ParameterSpec, dirs: Seq<ArgDirective>, a: ParamPlan, b: ParamPlan)
    requires
        same_param(p, q),
        plans(p, dirs, a),
        plans(q, dirs, b),
    ensures
        same_plan(a, b),
{
    if exists|j: int| 0 <= j < dirs.len() && names_arg(#[trigger] dirs[j], p.name@) {
        let j = choose|j: int| 0 <= j < dirs.len() && names_arg(#[trigger] dirs[j], p.name@);
        lemma_first_naming_exists(dirs, p.name@, j);
    }
}

/// Generation is a function of its input: two wrappers generated for the same
/// function, exported name and directives agree in every text and flag, so
/// emitting either gives the same output.
pub proof fn lemma_generation_deterministic(
    func: FnDecl,
    python_name: Seq<char>,
    dirs: Seq<ArgDirective>,
    a: WrapperPlan,
    b: WrapperPlan,
)
    requires
        wrapper_for(func, python_name, dirs, a),
        wrapper_for(func, python_name, dirs, b),
    ensures
        same_wrapper(a, b),
{
    assert forall|i: int| 0 <= i < a.params@.len() implies same_param(
        #[trigger] a.params@[i],
        b.params@[i],
    ) by {
        assert(describes(func.inputs@[i], a.params@[i]));
        assert(describes(func.inputs@[i], b.params@[i]));
    }
    assert forall|i: int| 0 <= i < a.plans@.len() implies same_plan(
        #[trigger] a.plans@[i],
        b.plans@[i],
    ) by {
        assert(describes(func.inputs@[i], a.params@[i]));
        assert(describes(func.inputs@[i], b.params@[i]));
        lemma_plan_unique(a.params@[i], b.params@[i], dirs, a.plans@[i], b.plans@[i]);
    }
}

} // verus!
