//! Module-level generation: registers the exported functions found among a
//! module function's statements, and describes the loader's entry point.
use vstd::prelude::*;
use crate::directive::{
    directive_error, directive_ok, export_of, extract_pyfn_attrs, has_export, kept, Attribute,
    DirectiveError,
};
use crate::naming::{lemma_wrapper_name_injective, module_entry_ident, spec_entry_name, spec_wrapper_name};
use crate::signature::{accepted_upto, SignatureError};
use crate::wrapper::{add_fn_to_module, first_input_error, wrapper_for, FnDecl, WrapperPlan};

verus! {

/// A function item, with its attributes.
#[derive(Clone, Debug)]
pub struct ItemFn {
    pub decl: FnDecl,
    pub attrs: Vec<Attribute>,
}

/// One statement of the module function's body.
#[derive(Clone, Debug)]
pub enum Stmt {
    /// An inner function item.
    ItemFn(ItemFn),
    /// Any other statement; `origin` lets the caller find it again.
    Other { origin: usize },
}

/// The registration of a generated wrapper into a module.
#[derive(Clone, Debug)]
pub struct Registration {
    /// The module value the wrapper is added to, as written in the directive.
    pub module: String,
    pub wrapper: WrapperPlan,
}

/// A statement after processing: emitted after its registration, if any.
#[derive(Clone, Debug)]
pub struct Processed {
    pub registration: Option<Registration>,
    pub stmt: Stmt,
}

/// A generation-time error.
#[derive(Clone, Copy, Debug, PartialEq, Eq, Structural)]
pub enum GenError {
    Directive(DirectiveError),
    Signature(SignatureError),
}

/// A generation-time error, with the index of the statement it belongs to.
#[derive(Clone, Copy, Debug, PartialEq, Eq, Structural)]
pub struct StmtError {
    pub stmt: usize,
    pub error: GenError,
}

/// The loader's entry point of a module.
#[derive(Clone, Debug)]
pub struct ModuleEntry {
    /// The entry point's identifier, found by the loader by this name.
    pub entry_ident: String,
    /// The name the module descriptor is tagged with.
    pub module_name: String,
    /// The function that fills the module.
    pub init_fn: String,
    pub doc: String,
}

/// The statement can be processed.
pub open spec fn stmt_ok(s: Stmt) -> bool {
    match s {
        Stmt::ItemFn(item) => directive_ok(item.attrs@) && (has_export(item.attrs@)
            ==> accepted_upto(item.decl.inputs@, item.decl.inputs@.len() as int)),
        Stmt::Other { .. } => true,
    }
}

/// `e` is the error that processing `s` reports.
pub open spec fn stmt_error(s: Stmt, e: GenError) -> bool {
    match s {
        Stmt::ItemFn(item) => match e {
            GenError::Directive(de) => directive_error(item.attrs@, de),
            GenError::Signature(se) => directive_ok(item.attrs@) && has_export(item.attrs@)
                && first_input_error(item.decl.inputs@, se),
        },
        Stmt::Other { .. } => false,
    }
}

/// `p` is the statement `s` after processing.
pub open spec fn processed(s: Stmt, p: Processed) -> bool {
    match s {
        Stmt::ItemFn(item) => if has_export(item.attrs@) {
            &&& p.stmt matches Stmt::ItemFn(it) && it.decl == item.decl && it.attrs@ == kept(
                item.attrs@,
            )
            &&& p.registration matches Some(reg) && exists|d|
                export_of(item.attrs@, d) && reg.module@ == d.module@ && wrapper_for(
                    item.decl,
                    d.python_name@,
                    d.args@,
                    reg.wrapper,
                )
        } else {
            &&& p.stmt matches Stmt::ItemFn(it) && it.decl == item.decl && it.attrs@ == item.attrs@
            &&& p.registration is None
        },
        Stmt::Other { .. } => p.stmt == s && p.registration is None,
    }
}

/// Processes one statement.
fn process_stmt(s: Stmt) -> (r: Result<Processed, GenError>)
    ensures
        r is Ok <==> stmt_ok(s),
        r matches Ok(p) ==> processed(s, p),
        r matches Err(e) ==> stmt_error(s, e),
{
    match s {
        Stmt::ItemFn(item) => {
            let ghost old_item = item;
            let mut item = item;
            let directive = match extract_pyfn_attrs(&mut item.attrs) {
                Ok(d) => d,
                Err(e) => {
                    return Err(GenError::Directive(e));
                },
            };
            match directive {
                None => {
                    Ok(Processed { registration: None, stmt: Stmt::ItemFn(item) })
                },
                Some(d) => {
                    let wrapper = match add_fn_to_module(&item.decl, d.python_name, &d.args) {
                        Ok(w) => w,
                        Err(e) => {
                            return Err(GenError::Signature(e));
                        },
                    };
                    let registration = Registration { module: d.module, wrapper };
                    Ok(Processed { registration: Some(registration), stmt: Stmt::ItemFn(item) })
                },
            }
        },
        Stmt::Other { origin } => Ok(Processed { registration: None, stmt: Stmt::Other { origin } }),
    }
}

/// Finds the exported inner functions among the statements of a module
/// function, strips their export directives, and plans a wrapper and its
/// registration for each. Statements keep their order; generation stops at
/// the first statement that cannot be processed.
pub fn process_functions_in_module(stmts: Vec<Stmt>) -> (r: Result<Vec<Processed>, StmtError>)
    ensures
        r is Ok <==> forall|i: int| 0 <= i < stmts@.len() ==> stmt_ok(#[trigger] stmts@[i]),
        r matches Ok(v) ==> v@.len() == stmts@.len() && forall|i: int|
            0 <= i < stmts@.len() ==> processed(#[trigger] stmts@[i], v@[i]),
        r matches Err(e) ==> e.stmt < stmts@.len() && (forall|j: int|
            0 <= j < e.stmt ==> stmt_ok(#[trigger] stmts@[j])) && stmt_error(
            stmts@[e.stmt as int],
            e.error,
        ),
{
    let ghost all = stmts@;
    let mut rest = stmts;
    let mut out: Vec<Processed> = Vec::new();
    while rest.len() > 0
        invariant
            all == stmts@,
            out@.len() + rest@.len() == all.len(),
            rest@ == all.skip(out@.len() as int),
            forall|j: int| 0 <= j < out@.len() ==> stmt_ok(#[trigger] all[j]),
            forall|j: int| 0 <= j < out@.len() ==> processed(#[trigger] all[j], out@[j]),
        decreases rest@.len(),
    {
        let s = rest.remove(0);
        assert(s == all[out@.len() as int]);
        match process_stmt(s) {
            Ok(p) => {
                out.push(p);
                assert(rest@ =~= all.skip(out@.len() as int));
            },
            Err(e) => {
                assert(stmt_error(all[out@.len() as int], e));
                assert(!stmt_ok(all[out@.len() as int]));
                return Err(StmtError { stmt: out.len(), error: e });
            },
        }
    }
    Ok(out)
}

/// Describes the entry point that the loader calls to initialise the module
/// `name`, filled by the function `fnname`.
pub fn py_init(fnname: &str, name: &str, doc: String) -> (r: ModuleEntry)
    ensures
        r.entry_ident@ == spec_entry_name(name@),
        r.module_name@ == name@,
        r.init_fn@ == fnname@,
        r.doc@ == doc@,
{
    ModuleEntry {
        entry_ident: module_entry_ident(name),
        module_name: name.to_string(),
        init_fn: fnname.to_string(),
        doc,
    }
}

/// The name of the function that the statement declares, if any.
pub open spec fn declared_name(s: Stmt) -> Seq<char> {
    match s {
        Stmt::ItemFn(item) => item.decl.name@,
        Stmt::Other { .. } => Seq::empty(),
    }
}

/// Within one module, functions with distinct names get wrappers with
/// distinct identifiers, and each wrapper's identifier is the one the naming
/// scheme gives for its function's name.
pub proof fn lemma_wrapper_names_distinct(s1: Stmt, p1: Processed, s2: Stmt, p2: Processed)
    requires
        processed(s1, p1),
        processed(s2, p2),
        p1.registration is Some,
        p2.registration is Some,
        declared_name(s1) != declared_name(s2),
    ensures
        p1.registration->0.wrapper.wrapper_ident@ == spec_wrapper_name(declared_name(s1)),
        p2.registration->0.wrapper.wrapper_ident@ == spec_wrapper_name(declared_name(s2)),
        p1.registration->0.wrapper.wrapper_ident@ != p2.registration->0.wrapper.wrapper_ident@,
{
    lemma_wrapper_name_injective(declared_name(s1), declared_name(s2));
}

} // verus!
