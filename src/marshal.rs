//! The call-time policy of a generated wrapper: where each parameter's value
//! comes from, given the positional and keyword arguments of one call.
use vstd::prelude::*;
use crate::signature::str_equal;
use crate::wrapper::ParamPlan;

verus! {

/// Where one parameter's value comes from in a call.
#[derive(Clone, Copy, Debug, PartialEq, Eq, Structural)]
pub enum ArgSource {
    /// The positional argument at this index.
    Positional(usize),
    /// The keyword argument at this index.
    Keyword(usize),
    /// The explicit default of the parameter's directive.
    Default,
    /// The optional type's absent value.
    Absent,
    /// The runtime-context handle of the call.
    Context,
}

/// A call-time marshalling error, reported as an exception by the wrapper.
#[derive(Clone, Copy, Debug, PartialEq, Eq, Structural)]
pub enum MarshalError {
    /// A required parameter is given neither positionally nor by keyword.
    Missing { param: usize },
    /// A parameter is given both positionally and by keyword.
    Duplicate { param: usize },
    /// More positional arguments than positional parameters.
    TooManyPositional { given: usize, accepted: usize },
    /// A keyword argument that names no parameter the caller can give.
    UnexpectedKeyword { keyword: usize },
}

/// The parameter can be filled from the positional arguments.
pub open spec fn takes_positional(p: ParamPlan) -> bool {
    !p.runtime_context && !p.keyword_only
}

/// The number of parameters of `s` that are filled positionally.
pub open spec fn count_positional(s: Seq<ParamPlan>) -> nat
    decreases s.len(),
{
    if s.len() == 0 {
        0
    } else {
        count_positional(s.drop_last()) + if takes_positional(s.last()) {
            1nat
        } else {
            0nat
        }
    }
}

/// The positional index of parameter `i`: how many positional parameters precede it.
pub open spec fn positional_index(plans: Seq<ParamPlan>, i: int) -> nat {
    count_positional(plans.take(i))
}

pub open spec fn has_keyword(kw: Seq<String>, name: Seq<char>) -> bool {
    exists|j: int| 0 <= j < kw.len() && (#[trigger] kw[j])@ == name
}

/// The first keyword argument called `name`.
pub open spec fn first_keyword(kw: Seq<String>, name: Seq<char>) -> int {
    choose|j: int|
        0 <= j < kw.len() && (#[trigger] kw[j])@ == name && forall|k: int|
            0 <= k < j ==> (#[trigger] kw[k])@ != name
}

/// Where parameter `i`, planned as `p`, takes its value from, when `pos`
/// positional parameters precede it and the call gives `n_pos` positional
/// arguments and keyword arguments named `kw`.
pub open spec fn spec_source(p: ParamPlan, i: int, pos: int, n_pos: int, kw: Seq<String>) -> Result<
    ArgSource,
    MarshalError,
> {
    if p.runtime_context {
        Ok(ArgSource::Context)
    } else if takes_positional(p) && pos < n_pos {
        if has_keyword(kw, p.name@) {
            Err(MarshalError::Duplicate { param: i as usize })
        } else {
            Ok(ArgSource::Positional(pos as usize))
        }
    } else if has_keyword(kw, p.name@) {
        Ok(ArgSource::Keyword(first_keyword(kw, p.name@) as usize))
    } else if p.default is Some {
        Ok(ArgSource::Default)
    } else if p.optional {
        Ok(ArgSource::Absent)
    } else {
        Err(MarshalError::Missing { param: i as usize })
    }
}

/// The source of parameter `i` of `plans` in a call.
pub open spec fn source_at(plans: Seq<ParamPlan>, i: int, n_pos: int, kw: Seq<String>) -> Result<
    ArgSource,
    MarshalError,
> {
    spec_source(plans[i], i, positional_index(plans, i) as int, n_pos, kw)
}

/// Every parameter of `plans` up to `n` has a source.
pub open spec fn sources_ok_upto(plans: Seq<ParamPlan>, n: int, n_pos: int, kw: Seq<String>) -> bool {
    forall|i: int| 0 <= i < n ==> (#[trigger] source_at(plans, i, n_pos, kw)) is Ok
}

/// Some parameter that the caller can give is called `name`.
pub open spec fn names_visible(plans: Seq<ParamPlan>, name: Seq<char>) -> bool {
    exists|i: int| 0 <= i < plans.len() && !plans[i].runtime_context && (#[trigger] plans[i]).name@ == name
}

/// Every keyword argument before `n` names a parameter that the caller can give.
pub open spec fn keywords_known_upto(plans: Seq<ParamPlan>, kw: Seq<String>, n: int) -> bool {
    forall|j: int| 0 <= j < n ==> names_visible(plans, (#[trigger] kw[j])@)
}

/// The call can be marshalled.
pub open spec fn resolves(plans: Seq<ParamPlan>, n_pos: int, kw: Seq<String>) -> bool {
    &&& sources_ok_upto(plans, plans.len() as int, n_pos, kw)
    &&& n_pos <= count_positional(plans)
    &&& keywords_known_upto(plans, kw, kw.len() as int)
}

/// Whether some parameter that the caller can give is called `name`.
fn is_visible_name(plans: &Vec<ParamPlan>, name: &String) -> (r: bool)
    ensures
        r == names_visible(plans@, name@),
{
    let mut i: usize = 0;
    while i < plans.len()
        invariant
            i <= plans@.len(),
            forall|k: int|
                0 <= k < i ==> !(!plans@[k].runtime_context && (#[trigger] plans@[k]).name@ == name@),
        decreases plans@.len() - i,
    {
        if !plans[i].runtime_context && str_equal(plans[i].name.as_str(), name.as_str()) {
            return true;
        }
        i = i + 1;
    }
    false
}

/// The first keyword argument called `name`, if any.
fn find_keyword(kw: &Vec<String>, name: &String) -> (r: Option<usize>)
    ensures
        r is Some <==> has_keyword(kw@, name@),
        r matches Some(j) ==> j == first_keyword(kw@, name@),
{
    let mut j: usize = 0;
    while j < kw.len()
        invariant
            j <= kw@.len(),
            forall|k: int| 0 <= k < j ==> (#[trigger] kw@[k])@ != name@,
        decreases kw@.len() - j,
    {
        if str_equal(kw[j].as_str(), name.as_str()) {
            proof {
                let c = first_keyword(kw@, name@);
                assert(kw@[j as int]@ == name@);
                if c < j {
                    assert(kw@[c]@ != name@);
                } else if c > j {
                    assert(kw@[j as int]@ != name@);
                }
            }
            return Some(j);
        }
        j = j + 1;
    }
    None
}

/// Where the parameter `p`, at index `i` with positional index `pos`, takes its
/// value from.
fn source_for(p: &ParamPlan, i: usize, pos: usize, n_pos: usize, kw: &Vec<String>) -> (r: Result<
    ArgSource,
    MarshalError,
>)
    ensures
        r == spec_source(*p, i as int, pos as int, n_pos as int, kw@),
{
    if p.runtime_context {
        return Ok(ArgSource::Context);
    }
    let found = find_keyword(kw, &p.name);
    if !p.keyword_only && pos < n_pos {
        if found.is_some() {
            return Err(MarshalError::Duplicate { param: i });
        }
        return Ok(ArgSource::Positional(pos));
    }
    match found {
        Some(j) => Ok(ArgSource::Keyword(j)),
        None => {
            if p.default.is_some() {
                Ok(ArgSource::Default)
            } else if p.optional {
                Ok(ArgSource::Absent)
            } else {
                Err(MarshalError::Missing { param: i })
            }
        },
    }
}

/// Decides where each parameter takes its value from in a call that gives
/// `n_pos` positional arguments and keyword arguments named `kw`.
///
/// Runtime-context parameters take the call's context and never take part in
/// the matching. The others take, in declaration order, the next positional
/// argument if they accept one; otherwise the keyword argument of their name;
/// otherwise their directive's default, or the absent value if optional. A
/// required parameter given neither way is an error, as are a parameter given
/// both ways, positional arguments left over, and a keyword argument that
/// names no parameter the caller can give.
pub fn resolve_arguments(plans: &Vec<ParamPlan>, n_pos: usize, kw: &Vec<String>) -> (r: Result<
    Vec<ArgSource>,
    MarshalError,
>)
    ensures
        r is Ok <==> resolves(plans@, n_pos as int, kw@),
        r matches Ok(v) ==> v@.len() == plans@.len() && forall|i: int|
            0 <= i < plans@.len() ==> source_at(plans@, i, n_pos as int, kw@) == Ok::<
                ArgSource,
                MarshalError,
            >(#[trigger] v@[i]),
        r matches Err(e) ==> (exists|i: int|
            0 <= i < plans@.len() && sources_ok_upto(plans@, i, n_pos as int, kw@) && #[trigger] source_at(
                plans@,
                i,
                n_pos as int,
                kw@,
            ) == Err::<ArgSource, MarshalError>(e)) || (sources_ok_upto(
            plans@,
            plans@.len() as int,
            n_pos as int,
            kw@,
        ) && e == (MarshalError::TooManyPositional {
            given: n_pos,
            accepted: count_positional(plans@) as usize,
        })) || (sources_ok_upto(plans@, plans@.len() as int, n_pos as int, kw@) && n_pos
            <= count_positional(plans@) && exists|j: int|
            0 <= j < kw@.len() && keywords_known_upto(plans@, kw@, j) && !names_visible(
                plans@,
                (#[trigger] kw@[j])@,
            ) && e == (MarshalError::UnexpectedKeyword { keyword: j as usize })),
{
    let mut out: Vec<ArgSource> = Vec::new();
    let mut pos: usize = 0;
    let mut i: usize = 0;
    while i < plans.len()
        invariant
            i <= plans@.len(),
            out@.len() == i,
            pos == positional_index(plans@, i as int),
            pos <= i,
            sources_ok_upto(plans@, i as int, n_pos as int, kw@),
            forall|k: int|
                0 <= k < i ==> source_at(plans@, k, n_pos as int, kw@) == Ok::<
                    ArgSource,
                    MarshalError,
                >(#[trigger] out@[k]),
        decreases plans@.len() - i,
    {
        let p = &plans[i];
        assert(plans@.take(i + 1).drop_last() =~= plans@.take(i as int));
        let src = match source_for(p, i, pos, n_pos, kw) {
            Ok(src) => src,
            Err(e) => {
                return Err(e);
            },
        };
        assert(source_at(plans@, i as int, n_pos as int, kw@) == Ok::<ArgSource, MarshalError>(src));
        assert(positional_index(plans@, i + 1) == positional_index(plans@, i as int) + if takes_positional(plans@[i as int]) { 1nat } else { 0nat });
        if !p.runtime_context && !p.keyword_only {
            pos = pos + 1;
        }
        out.push(src);
        proof {
            assert forall|k: int| 0 <= k < i + 1 implies (#[trigger] source_at(plans@, k, n_pos as int, kw@)) is Ok by {
                if k < i {
                    assert(source_at(plans@, k, n_pos as int, kw@) == Ok::<ArgSource, MarshalError>(out@[k]));
                }
            }
        }
        i = i + 1;
    }
    assert(plans@.take(plans@.len() as int) =~= plans@);
    if n_pos > pos {
        return Err(MarshalError::TooManyPositional { given: n_pos, accepted: pos });
    }
    let mut j: usize = 0;
    while j < kw.len()
        invariant
            j <= kw@.len(),
            keywords_known_upto(plans@, kw@, j as int),
            sources_ok_upto(plans@, plans@.len() as int, n_pos as int, kw@),
            n_pos <= count_positional(plans@),
            out@.len() == plans@.len(),
            forall|k: int|
                0 <= k < plans@.len() ==> source_at(plans@, k, n_pos as int, kw@) == Ok::<
                    ArgSource,
                    MarshalError,
                >(#[trigger] out@[k]),
        decreases kw@.len() - j,
    {
        if !is_visible_name(plans, &kw[j]) {
            return Err(MarshalError::UnexpectedKeyword { keyword: j });
        }
        j = j + 1;
    }
    Ok(out)
}

/// Parameter `i` is given positionally in a call with `n_pos` positional arguments.
pub open spec fn given_positionally(plans: Seq<ParamPlan>, i: int, n_pos: int) -> bool {
    takes_positional(plans[i]) && positional_index(plans, i) < n_pos
}

/// A required parameter that a call gives neither positionally nor by keyword
/// is a missing-argument error: it never receives a default, and the call is
/// not marshalled.
pub proof fn lemma_required_missing_is_error(
    plans: Seq<ParamPlan>,
    i: int,
    n_pos: int,
    kw: Seq<String>,
)
    requires
        0 <= i < plans.len(),
        !plans[i].runtime_context,
        !plans[i].optional,
        plans[i].default is None,
        !given_positionally(plans, i, n_pos),
        !has_keyword(kw, plans[i].name@),
    ensures
        source_at(plans, i, n_pos, kw) == Err::<ArgSource, MarshalError>(
            MarshalError::Missing { param: i as usize },
        ),
        !resolves(plans, n_pos, kw),
{
}

/// An optional parameter that a call gives neither positionally nor by keyword
/// takes its directive's default if it has one, else the absent value; it is
/// never an error.
pub proof fn lemma_optional_missing_is_absent(
    plans: Seq<ParamPlan>,
    i: int,
    n_pos: int,
    kw: Seq<String>,
)
    requires
        0 <= i < plans.len(),
        !plans[i].runtime_context,
        plans[i].optional,
        !given_positionally(plans, i, n_pos),
        !has_keyword(kw, plans[i].name@),
    ensures
        source_at(plans, i, n_pos, kw) == Ok::<ArgSource, MarshalError>(
            if plans[i].default is Some {
                ArgSource::Default
            } else {
                ArgSource::Absent
            },
        ),
{
}

proof fn lemma_count_append(a: Seq<ParamPlan>, b: Seq<ParamPlan>)
    ensures
        count_positional(a + b) == count_positional(a) + count_positional(b),
    decreases b.len(),
{
    if b.len() == 0 {
        assert(a + b =~= a);
    } else {
        lemma_count_append(a, b.drop_last());
        assert((a + b).drop_last() =~= a + b.drop_last());
    }
}

/// A runtime-context parameter takes the call's context whatever the call
/// gives, and never takes part in positional or keyword matching: inserting one
/// at any position leaves the positional index of every other parameter, and
/// the number of positional parameters, as they were.
pub proof fn lemma_context_invisible(
    plans: Seq<ParamPlan>,
    ctx: ParamPlan,
    at: int,
    n_pos: int,
    kw: Seq<String>,
)
    requires
        ctx.runtime_context,
        0 <= at <= plans.len(),
    ensures
        source_at(plans.insert(at, ctx), at, n_pos, kw) == Ok::<ArgSource, MarshalError>(
            ArgSource::Context,
        ),
        count_positional(plans.insert(at, ctx)) == count_positional(plans),
        forall|k: int|
            0 <= k < plans.len() ==> positional_index(
                plans.insert(at, ctx),
                if k < at {
                    k
                } else {
                    k + 1
                },
            ) == positional_index(plans, k),
        forall|k: int|
            #![trigger plans[k]]
            0 <= k < plans.len() ==> plans.insert(at, ctx)[if k < at {
                k
            } else {
                k + 1
            }] == plans[k],
{
    let ins = plans.insert(at, ctx);
    assert(count_positional(seq![ctx]) == 0) by {
        assert(seq![ctx].drop_last() =~= Seq::<ParamPlan>::empty());
        assert(count_positional(Seq::<ParamPlan>::empty()) == 0);
    }
    assert(ins =~= plans.take(at) + seq![ctx] + plans.skip(at));
    lemma_count_append(plans.take(at) + seq![ctx], plans.skip(at));
    lemma_count_append(plans.take(at), seq![ctx]);
    lemma_count_append(plans.take(at), plans.skip(at));
    assert(plans =~= plans.take(at) + plans.skip(at));
    assert forall|k: int|
        0 <= k < plans.len() implies positional_index(
        ins,
        if k < at {
            k
        } else {
            k + 1
        },
    ) == positional_index(plans, k) by {
        if k < at {
            assert(ins.take(k) =~= plans.take(k));
        } else {
            assert(ins.take(k + 1) =~= plans.take(at) + seq![ctx] + plans.subrange(at, k));
            assert(plans.take(k) =~= plans.take(at) + plans.subrange(at, k));
            lemma_count_append(plans.take(at) + seq![ctx], plans.subrange(at, k));
            lemma_count_append(plans.take(at), plans.subrange(at, k));
        }
    }
}

} // verus!
