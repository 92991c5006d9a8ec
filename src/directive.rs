//! The attribute stripper: finds the export directive among a function's
//! attributes, decodes it, and removes it from the attributes kept.
use vstd::prelude::*;
use vstd::string::StringExecFns;

verus! {

/// One entry of an attribute's parenthesised argument list.
#[derive(Clone, Debug)]
pub enum NestedMeta {
    /// A bare path, such as `m` or `a::b`, as written.
    Path(String),
    /// A string literal, by its value.
    Str(String),
    /// `name = "value"`, with a string literal on the right.
    NameValue { name: String, value: String },
    /// Any other entry (another literal kind, a nested list, ...).
    Other,
}

/// An attribute of a function item.
#[derive(Clone, Debug)]
pub enum Attribute {
    /// `path(entry, entry, ...)`.
    List { path: String, nested: Vec<NestedMeta>, origin: usize },
    /// Any other attribute; `origin` lets the caller find it again.
    Other { origin: usize },
}

/// A per-argument directive of the export directive.
#[derive(Clone, Debug)]
pub enum ArgDirective {
    /// Names a parameter, with an explicit default value if one is given.
    Arg { name: String, default: Option<String> },
    /// The parameters named after this marker are keyword-only.
    KeywordOnlyMarker,
}

/// The decoded export directive.
#[derive(Clone, Debug)]
pub struct ExportDirective {
    /// The module the function is registered into, as written.
    pub module: String,
    /// The name under which the dynamic side sees the function.
    pub python_name: String,
    pub args: Vec<ArgDirective>,
}

/// A malformed export directive; `origin` identifies the attribute.
#[derive(Clone, Copy, Debug, PartialEq, Eq, Structural)]
pub enum DirectiveError {
    /// Fewer than two entries.
    TooFewEntries { origin: usize },
    /// The first entry is not a path.
    ModuleNotPath { origin: usize },
    /// The second entry is not a string literal.
    NameNotString { origin: usize },
    /// A per-argument entry that is not understood; `position` is its place in the list.
    BadArgument { origin: usize, position: usize },
    /// A second export directive on the same function.
    Duplicate { origin: usize },
}

pub open spec fn export_word() -> Seq<char> {
    seq!['p', 'y', 'f', 'n']
}

pub open spec fn star() -> Seq<char> {
    seq!['*']
}

pub open spec fn is_export(a: Attribute) -> bool {
    a matches Attribute::List { path, .. } && path@ == export_word()
}

pub open spec fn origin_of(a: Attribute) -> usize {
    match a {
        Attribute::List { origin, .. } => origin,
        Attribute::Other { origin } => origin,
    }
}

/// The per-argument directive that a list entry denotes, if any.
pub open spec fn arg_of(m: NestedMeta) -> Option<ArgDirective> {
    match m {
        NestedMeta::Path(p) => Some(ArgDirective::Arg { name: p, default: None }),
        NestedMeta::NameValue { name, value } => Some(
            ArgDirective::Arg { name, default: Some(value) },
        ),
        NestedMeta::Str(s) => if s@ == star() {
            Some(ArgDirective::KeywordOnlyMarker)
        } else {
            None
        },
        NestedMeta::Other => None,
    }
}

/// Two directives agree, comparing strings by their characters.
pub open spec fn same_arg(a: ArgDirective, b: ArgDirective) -> bool {
    match (a, b) {
        (ArgDirective::Arg { name: n1, default: d1 }, ArgDirective::Arg { name: n2, default: d2 }) => {
            &&& n1@ == n2@
            &&& d1 is Some <==> d2 is Some
            &&& d1 is Some ==> d1->0@ == d2->0@
        },
        (ArgDirective::KeywordOnlyMarker, ArgDirective::KeywordOnlyMarker) => true,
        _ => false,
    }
}

/// The entry list is a well-formed export directive.
pub open spec fn list_ok(nested: Seq<NestedMeta>) -> bool {
    &&& nested.len() >= 2
    &&& nested[0] is Path
    &&& nested[1] is Str
    &&& forall|k: int| 2 <= k < nested.len() ==> (arg_of(#[trigger] nested[k]) is Some)
}

/// `e` is the error reported for a malformed entry list: the first check that fails.
pub open spec fn list_error(nested: Seq<NestedMeta>, origin: usize, e: DirectiveError) -> bool {
    if nested.len() < 2 {
        e == DirectiveError::TooFewEntries { origin }
    } else if !(nested[0] is Path) {
        e == DirectiveError::ModuleNotPath { origin }
    } else if !(nested[1] is Str) {
        e == DirectiveError::NameNotString { origin }
    } else {
        e matches DirectiveError::BadArgument { origin: o, position } && o == origin && 2
            <= position < nested.len() && arg_of(nested[position as int]) is None && forall|j: int|
            2 <= j < position ==> (arg_of(#[trigger] nested[j]) is Some)
    }
}

/// `d` is the directive that the well-formed entry list `nested` denotes.
pub open spec fn decodes_to(nested: Seq<NestedMeta>, d: ExportDirective) -> bool {
    &&& nested[0] matches NestedMeta::Path(m) && d.module@ == m@
    &&& nested[1] matches NestedMeta::Str(n) && d.python_name@ == n@
    &&& d.args@.len() == nested.len() - 2
    &&& forall|k: int|
        0 <= k < d.args@.len() ==> same_arg(#[trigger] d.args@[k], arg_of(nested[k + 2])->0)
}

fn is_export_attribute(a: &Attribute) -> (r: bool)
    ensures
        r == is_export(*a),
{
    match a {
        Attribute::List { path, .. } => {
            proof {
                reveal_strlit("pyfn");
            }
            let r = path.as_str().unicode_len() == 4 && path.as_str().get_char(0) == 'p'
                && path.as_str().get_char(1) == 'y' && path.as_str().get_char(2) == 'f'
                && path.as_str().get_char(3) == 'n';
            assert(r ==> path@ =~= export_word());
            r
        },
        Attribute::Other { .. } => false,
    }
}

fn clone_string_opt(o: &Option<String>) -> (r: Option<String>)
    ensures
        r is Some <==> o is Some,
        r is Some ==> r->0@ == o->0@,
{
    match o {
        Some(s) => Some(s.clone()),
        None => None,
    }
}

/// The per-argument directive of one list entry.
fn decode_arg(m: &NestedMeta) -> (r: Option<ArgDirective>)
    ensures
        r is Some <==> arg_of(*m) is Some,
        r is Some ==> same_arg(r->0, arg_of(*m)->0),
{
    match m {
        NestedMeta::Path(p) => Some(ArgDirective::Arg { name: p.clone(), default: None }),
        NestedMeta::NameValue { name, value } => Some(
            ArgDirective::Arg { name: name.clone(), default: Some(value.clone()) },
        ),
        NestedMeta::Str(s) => {
            if s.as_str().unicode_len() == 1 && s.as_str().get_char(0) == '*' {
                assert(s@ =~= star());
                Some(ArgDirective::KeywordOnlyMarker)
            } else {
                None
            }
        },
        NestedMeta::Other => None,
    }
}

/// Decodes the entry list of an export directive.
fn decode_list(nested: &Vec<NestedMeta>, origin: usize) -> (r: Result<ExportDirective, DirectiveError>)
    ensures
        r is Ok <==> list_ok(nested@),
        r matches Ok(d) ==> decodes_to(nested@, d),
        r matches Err(e) ==> list_error(nested@, origin, e),
{
    if nested.len() < 2 {
        return Err(DirectiveError::TooFewEntries { origin });
    }
    let module = match &nested[0] {
        NestedMeta::Path(p) => p.clone(),
        _ => {
            return Err(DirectiveError::ModuleNotPath { origin });
        },
    };
    let python_name = match &nested[1] {
        NestedMeta::Str(n) => n.clone(),
        _ => {
            return Err(DirectiveError::NameNotString { origin });
        },
    };
    let mut args: Vec<ArgDirective> = Vec::new();
    let mut k: usize = 2;
    while k < nested.len()
        invariant
            2 <= k <= nested@.len(),
            nested@[0] matches NestedMeta::Path(m) && module@ == m@,
            nested@[1] matches NestedMeta::Str(n) && python_name@ == n@,
            args@.len() == k - 2,
            forall|j: int| 2 <= j < k ==> (arg_of(#[trigger] nested@[j]) is Some),
            forall|j: int|
                0 <= j < args@.len() ==> same_arg(#[trigger] args@[j], arg_of(nested@[j + 2])->0),
        decreases nested@.len() - k,
    {
        match decode_arg(&nested[k]) {
            Some(a) => {
                args.push(a);
            },
            None => {
                return Err(DirectiveError::BadArgument { origin, position: k });
            },
        }
        k = k + 1;
    }
    Ok(ExportDirective { module, python_name, args })
}

/// The attribute is an export directive with a well-formed entry list.
pub open spec fn well_formed_export(a: Attribute) -> bool {
    is_export(a) && (a matches Attribute::List { nested, .. } && list_ok(nested@))
}

/// No attribute other than the one at `i` is an export directive.
pub open spec fn only_export_at(attrs: Seq<Attribute>, i: int) -> bool {
    forall|j: int| 0 <= j < attrs.len() && j != i ==> !is_export(#[trigger] attrs[j])
}

pub open spec fn not_export(a: Attribute) -> bool {
    !is_export(a)
}

pub open spec fn has_export(attrs: Seq<Attribute>) -> bool {
    exists|j: int| 0 <= j < attrs.len() && is_export(#[trigger] attrs[j])
}

/// At most one attribute is an export directive, and it is well-formed.
pub open spec fn directive_ok(attrs: Seq<Attribute>) -> bool {
    forall|i: int|
        0 <= i < attrs.len() && is_export(#[trigger] attrs[i]) ==> (only_export_at(attrs, i)
            && well_formed_export(attrs[i]))
}

/// `d` is the decoded export directive among `attrs`.
pub open spec fn export_of(attrs: Seq<Attribute>, d: ExportDirective) -> bool {
    exists|i: int|
        0 <= i < attrs.len() && only_export_at(attrs, i) && well_formed_export(#[trigger] attrs[i])
            && (attrs[i] matches Attribute::List { nested, .. } && decodes_to(nested@, d))
}

/// `e` is the error reported for `attrs`: the first export directive is
/// malformed, or is well-formed and followed by a second one.
pub open spec fn directive_error(attrs: Seq<Attribute>, e: DirectiveError) -> bool {
    exists|i: int|
        0 <= i < attrs.len() && is_export(#[trigger] attrs[i]) && (forall|j: int|
            0 <= j < i ==> !is_export(#[trigger] attrs[j])) && (attrs[i] matches Attribute::List {
            nested,
            origin,
            ..
        } && (if list_ok(nested@) {
            exists|m: int|
                i < m < attrs.len() && is_export(#[trigger] attrs[m]) && (forall|k: int|
                    i < k < m ==> !is_export(#[trigger] attrs[k])) && e == (
                DirectiveError::Duplicate { origin: origin_of(attrs[m]) })
        } else {
            list_error(nested@, origin, e)
        }))
}

/// The attributes that stay on the item once the export directive is removed.
pub open spec fn kept(attrs: Seq<Attribute>) -> Seq<Attribute> {
    attrs.filter(|a: Attribute| not_export(a))
}

/// Finds the export directive, decodes it and removes it from `attrs`.
///
/// Returns `Ok(None)`, leaving `attrs` as it is, when no attribute is an export
/// directive. A malformed directive, or a second one, is an error, and `attrs`
/// is then left as it is too.
pub fn extract_pyfn_attrs(attrs: &mut Vec<Attribute>) -> (r: Result<
    Option<ExportDirective>,
    DirectiveError,
>)
    ensures
        r matches Ok(None) <==> !has_export(old(attrs)@),
        r matches Ok(None) ==> final(attrs)@ == old(attrs)@,
        r matches Ok(Some(d)) ==> export_of(old(attrs)@, d),
        r is Ok <==> directive_ok(old(attrs)@),
        r is Ok ==> final(attrs)@ == kept(old(attrs)@),
        r is Err ==> final(attrs)@ == old(attrs)@,
        r matches Err(e) ==> directive_error(old(attrs)@, e),
{
    let mut found: Option<ExportDirective> = None;
    let mut at: usize = 0;
    let mut i: usize = 0;
    while i < attrs.len()
        invariant
            i <= attrs@.len(),
            attrs@ == old(attrs)@,
            found is None ==> forall|j: int| 0 <= j < i ==> !is_export(#[trigger] attrs@[j]),
            found is Some ==> at < i && only_export_at(attrs@.take(i as int), at as int)
                && well_formed_export(attrs@[at as int]) && (attrs@[at as int] matches Attribute::List {
                nested,
                ..
            } && decodes_to(nested@, found->0)),
        decreases attrs@.len() - i,
    {
        if is_export_attribute(&attrs[i]) {
            if found.is_some() {
                assert(attrs@.take(i as int)[at as int] == attrs@[at as int]);
                assert(forall|j: int|
                    0 <= j < at ==> attrs@.take(i as int)[j] == #[trigger] attrs@[j]);
                assert(forall|j: int| 0 <= j < at ==> !is_export(#[trigger] attrs@[j]));
                assert(forall|k: int|
                    at < k < i ==> attrs@.take(i as int)[k] == #[trigger] attrs@[k]);
                assert(is_export(attrs@[i as int]));
                assert(!only_export_at(old(attrs)@, at as int));
                return Err(DirectiveError::Duplicate { origin: origin_of_attr(&attrs[i]) });
            }
            match &attrs[i] {
                Attribute::List { nested, origin, .. } => {
                    match decode_list(nested, *origin) {
                        Ok(d) => {
                            found = Some(d);
                            at = i;
                        },
                        Err(e) => {
                            return Err(e);
                        },
                    }
                },
                Attribute::Other { .. } => {},
            }
        }
        assert(forall|j: int| 0 <= j < i ==> attrs@.take(i + 1)[j] == #[trigger] attrs@.take(i as int)[j]);
        i = i + 1;
    }
    assert(attrs@.take(i as int) =~= attrs@);
    if found.is_none() {
        proof {
            lemma_kept_all(attrs@);
        }
        return Ok(None);
    }
    proof {
        lemma_kept_remove(attrs@, at as int);
    }
    attrs.remove(at);
    Ok(found)
}

fn origin_of_attr(a: &Attribute) -> (r: usize)
    ensures
        r == origin_of(*a),
{
    match a {
        Attribute::List { origin, .. } => *origin,
        Attribute::Other { origin } => *origin,
    }
}

proof fn lemma_kept_all(attrs: Seq<Attribute>)
    requires
        forall|j: int| 0 <= j < attrs.len() ==> !is_export(#[trigger] attrs[j]),
    ensures
        kept(attrs) == attrs,
    decreases attrs.len(),
{
    reveal(Seq::filter);
    if attrs.len() > 0 {
        let d = attrs.drop_last();
        assert forall|j: int| 0 <= j < d.len() implies !is_export(#[trigger] d[j]) by {
            assert(d[j] == attrs[j]);
        }
        lemma_kept_all(d);
        assert(attrs =~= d.push(attrs.last()));
    }
}

proof fn lemma_kept_remove(attrs: Seq<Attribute>, at: int)
    requires
        0 <= at < attrs.len(),
        is_export(attrs[at]),
        only_export_at(attrs, at),
    ensures
        kept(attrs) == attrs.remove(at),
    decreases attrs.len(),
{
    reveal(Seq::filter);
    let d = attrs.drop_last();
    if at == attrs.len() - 1 {
        assert forall|j: int| 0 <= j < d.len() implies !is_export(#[trigger] d[j]) by {
            assert(d[j] == attrs[j]);
        }
        lemma_kept_all(d);
        assert(attrs.remove(at) =~= d);
    } else {
        assert forall|j: int| 0 <= j < d.len() && j != at implies !is_export(#[trigger] d[j]) by {
            assert(d[j] == attrs[j]);
        }
        lemma_kept_remove(d, at);
        assert(!is_export(attrs.last()));
        assert(attrs.remove(at) =~= d.remove(at).push(attrs.last()));
    }
}

} // verus!
