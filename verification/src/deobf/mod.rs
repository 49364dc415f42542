//! Deobfuscation and symbol recovery.

use vstd::prelude::*;
use crate::graph::ast::AstNode;
use crate::graph::ast_view::node_v;
use crate::snapshot::{DartClass, DartFunction, DartObject, FunctionKind, ObjectPool, SnapshotAddr, entry_index};
use crate::text::{contains_seq, owned, push_str, str_contains, str_eq};

pub mod control_flow;
pub mod string_decrypt;

verus! {

/// The names of the functions among the first `k` addresses of a class's
/// function list that the pool holds as functions.
pub open spec fn method_names(entries: Seq<(SnapshotAddr, DartObject)>, addrs: Seq<SnapshotAddr>, k: int) -> Seq<Seq<char>>
    decreases k,
{
    if k <= 0 || k > addrs.len() {
        Seq::empty()
    } else {
        method_names(entries, addrs, k - 1) + match entry_index(entries, addrs[k - 1]) {
            Some(i) => match entries[i].1 {
                DartObject::Function(f) => seq![f.name@],
                _ => Seq::empty(),
            },
            None => Seq::empty(),
        }
    }
}

/// Whether some name contains `pat`.
pub open spec fn any_contains(names: Seq<Seq<char>>, pat: Seq<char>) -> bool {
    exists|j: int| 0 <= j < names.len() && contains_seq(#[trigger] names[j], pat)
}

/// The Flutter class a set of method names suggests: `build` with
/// `createState` is a `StatefulWidget`, `build` alone a `StatelessWidget`,
/// `initState` with `dispose` a `State`.
pub open spec fn class_suggestion(names: Seq<Seq<char>>) -> Option<Seq<char>> {
    let b = any_contains(names, "build"@);
    let c = any_contains(names, "createState"@);
    if b && c {
        Some("StatefulWidget"@)
    } else if b && !c {
        Some("StatelessWidget"@)
    } else if any_contains(names, "initState"@) && any_contains(names, "dispose"@) {
        Some("State"@)
    } else {
        None
    }
}

/// Whether some name in the list contains `pat`.
fn names_contain(names: &Vec<String>, pat: &str) -> (r: bool)
    ensures
        r == any_contains(crate::text::string_views(names@), pat@),
{
    let ghost nv = crate::text::string_views(names@);
    let mut i: usize = 0;
    while i < names.len()
        invariant
            i <= names@.len(),
            nv == crate::text::string_views(names@),
            forall|j: int| 0 <= j < i ==> !contains_seq(#[trigger] nv[j], pat@),
        decreases names@.len() - i,
    {
        if str_contains(names[i].as_str(), pat) {
            assert(contains_seq(nv[i as int], pat@));
            return true;
        }
        i = i + 1;
    }
    false
}

/// The class name a class's methods suggest, if any.
pub fn suggest_class_name(class: &DartClass, pool: &ObjectPool) -> (r: Option<String>)
    requires
        pool.wf(),
    ensures
        match class_suggestion(method_names(pool.entries(), class.functions@, class.functions@.len() as int)) {
            Some(n) => r matches Some(x) && x@ == n,
            None => r is None,
        },
{
    let mut methods: Vec<String> = Vec::new();
    let mut i: usize = 0;
    while i < class.functions.len()
        invariant
            pool.wf(),
            i <= class.functions@.len(),
            crate::text::string_views(methods@) == method_names(pool.entries(), class.functions@, i as int),
        decreases class.functions@.len() - i,
    {
        let ghost before = crate::text::string_views(methods@);
        match pool.get(&class.functions[i]) {
            Some(DartObject::Function(f)) => {
                methods.push(f.name.clone());
                assert(crate::text::string_views(methods@) =~= before.push(f.name@));
            },
            _ => {},
        }
        assert(crate::text::string_views(methods@) =~= method_names(pool.entries(), class.functions@, i + 1));
        i = i + 1;
    }
    let b = names_contain(&methods, "build");
    let c = names_contain(&methods, "createState");
    if b && c {
        return Some(owned("StatefulWidget"));
    }
    if b && !c {
        return Some(owned("StatelessWidget"));
    }
    if names_contain(&methods, "initState") && names_contain(&methods, "dispose") {
        return Some(owned("State"));
    }
    None
}

/// Recover original symbol names from obfuscated binaries: each class of
/// the pool is matched against the Flutter widget signatures. The
/// suggestions are not applied, so the tree stays as it is.
pub fn recover_symbols(pool: &ObjectPool, ast: &mut AstNode)
    requires
        pool.wf(),
    ensures
        *final(ast) == *old(ast),
{
    let classes = pool.classes();
    let mut i: usize = 0;
    while i < classes.len()
        invariant
            pool.wf(),
            i <= classes@.len(),
        decreases classes@.len() - i,
    {
        let _suggested = suggest_class_name(classes[i].1, pool);
        i = i + 1;
    }
}

/// The name a function's shape suggests: `fetch_` before the names of HTTP
/// clients, `build` for a regular function returning a `Widget`.
pub open spec fn function_suggestion(f: DartFunction) -> Option<Seq<char>> {
    if contains_seq(f.name@, "http"@) || contains_seq(f.name@, "Http"@) {
        Some("fetch_"@ + f.name@)
    } else if f.kind == FunctionKind::RegularFunction && (f.return_type matches Some(t) && t@ == "Widget"@) {
        Some("build"@)
    } else {
        None
    }
}

/// The name a function's shape suggests, if any.
pub fn suggest_function_name(func: &DartFunction, _pool: &ObjectPool) -> (r: Option<String>)
    ensures
        match function_suggestion(*func) {
            Some(n) => r matches Some(x) && x@ == n,
            None => r is None,
        },
{
    if str_contains(func.name.as_str(), "http") || str_contains(func.name.as_str(), "Http") {
        let mut s = owned("fetch_");
        push_str(&mut s, func.name.as_str());
        return Some(s);
    }
    let widget = match &func.return_type {
        Some(t) => str_eq(t.as_str(), "Widget"),
        None => false,
    };
    if func.kind == FunctionKind::RegularFunction && widget {
        return Some(owned("build"));
    }
    None
}

/// Apply heuristic naming to obfuscated symbols: each function of the pool
/// gets a suggestion. The suggestions are not applied, so the tree stays
/// as it is.
pub fn apply_heuristic_naming(pool: &ObjectPool, ast: &mut AstNode)
    ensures
        *final(ast) == *old(ast),
{
    let functions = pool.functions();
    let mut i: usize = 0;
    while i < functions.len()
        invariant
            i <= functions@.len(),
        decreases functions@.len() - i,
    {
        let _name = suggest_function_name(functions[i].1, pool);
        i = i + 1;
    }
}

/// Configuration for deobfuscation passes.
pub struct DeobfConfig {
    pub recover_symbols: bool,
    pub decrypt_strings: bool,
    pub deobf_control_flow: bool,
    pub apply_heuristics: bool,
}

impl Default for DeobfConfig {
    /// Every pass on.
    fn default() -> (r: Self)
        ensures
            r.recover_symbols && r.decrypt_strings && r.deobf_control_flow && r.apply_heuristics,
    {
        DeobfConfig { recover_symbols: true, decrypt_strings: true, deobf_control_flow: true, apply_heuristics: true }
    }
}

/// What the passes a configuration turns on make of a tree: strings
/// decrypted, then control flow cleaned (the naming passes change nothing).
pub open spec fn deobf_result(config: DeobfConfig, n: crate::graph::ast_view::NodeV) -> crate::graph::ast_view::NodeV {
    let a = if config.decrypt_strings { string_decrypt::dec_v(n) } else { n };
    if config.deobf_control_flow { control_flow::cf_v(a) } else { a }
}

/// Apply all deobfuscation passes that the configuration turns on: symbol
/// recovery, string decryption, control-flow cleaning, heuristic naming.
pub fn deobfuscate(pool: &ObjectPool, ast: &mut AstNode, config: &DeobfConfig)
    requires
        pool.wf(),
    ensures
        node_v(*final(ast)) == deobf_result(*config, node_v(*old(ast))),
{
    if config.recover_symbols {
        recover_symbols(pool, ast);
    }
    if config.decrypt_strings {
        string_decrypt::decrypt_strings(ast);
    }
    if config.deobf_control_flow {
        control_flow::deobfuscate_control_flow(ast);
    }
    if config.apply_heuristics {
        apply_heuristic_naming(pool, ast);
    }
}

} // verus!
