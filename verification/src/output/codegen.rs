//! Dart source files of decompiled libraries: their names and their text.

use vstd::prelude::*;
use crate::graph::ast::{AstNode, node_text, node_size, generate_dart_code};
use crate::text::{chars_of, occurs_at, occurs_at_exec, ends_with_seq, string_from_chars, push_str, str_ends_with};

verus! {

/// The text from position `i` on with every occurrence of `pat` taken out,
/// scanning left to right (`str::replace` with an empty replacement).
pub open spec fn drop_pattern_from(s: Seq<char>, pat: Seq<char>, i: int) -> Seq<char>
    decreases s.len() - i,
{
    if i < 0 || i >= s.len() {
        Seq::empty()
    } else if pat.len() > 0 && occurs_at(s, pat, i) {
        drop_pattern_from(s, pat, i + pat.len())
    } else {
        seq![s[i]] + drop_pattern_from(s, pat, i + 1)
    }
}

/// A path separator or colon becomes an underscore.
pub open spec fn underscored(c: char) -> char {
    if c == '/' || c == '\\' || c == ':' { '_' } else { c }
}

/// The file name of a library: without `package:`, with `_` for each `/`,
/// `\` and `:`, and ending in `.dart`.
pub open spec fn library_file_name(name: Seq<char>) -> Seq<char> {
    let cleaned = drop_pattern_from(name, "package:"@, 0).map_values(|c: char| underscored(c));
    if ends_with_seq(cleaned, ".dart"@) { cleaned } else { cleaned + ".dart"@ }
}

/// The file name of a library.
pub fn lib_name_to_filename(name: &str) -> (r: String)
    ensures
        r@ == library_file_name(name@),
{
    let cs = chars_of(name);
    let pat = chars_of("package:");
    let mut kept: Vec<char> = Vec::new();
    let mut i: usize = 0;
    while i < cs.len()
        invariant
            cs@ == name@,
            pat@ == "package:"@,
            i <= cs@.len(),
            kept@ + drop_pattern_from(name@, pat@, i as int) == drop_pattern_from(name@, pat@, 0),
        decreases cs@.len() - i,
    {
        if pat.len() > 0 && occurs_at_exec(cs.as_slice(), pat.as_slice(), i) {
            i = i + pat.len();
        } else {
            let ghost before = kept@;
            kept.push(cs[i]);
            assert(kept@ + drop_pattern_from(name@, pat@, i + 1) =~= before + drop_pattern_from(name@, pat@, i as int));
            i = i + 1;
        }
    }
    assert(drop_pattern_from(name@, pat@, i as int) == Seq::<char>::empty());
    assert(kept@ =~= drop_pattern_from(name@, pat@, 0));
    let mut mapped: Vec<char> = Vec::new();
    let mut k: usize = 0;
    while k < kept.len()
        invariant
            k <= kept@.len(),
            mapped@ == kept@.take(k as int).map_values(|c: char| underscored(c)),
        decreases kept@.len() - k,
    {
        let c = kept[k];
        let d = if c == '/' || c == '\\' || c == ':' { '_' } else { c };
        mapped.push(d);
        assert(mapped@ =~= kept@.take(k + 1).map_values(|c: char| underscored(c)));
        k = k + 1;
    }
    assert(kept@.take(k as int) =~= kept@);
    let mut r = string_from_chars(mapped.as_slice());
    if !str_ends_with(r.as_str(), ".dart") {
        push_str(&mut r, ".dart");
    }
    r
}

/// The text of the first `k` functions of a class: a comment with the
/// name, then the code one level in, then a blank line.
pub open spec fn functions_text(fs: Seq<(String, AstNode)>, k: int) -> Seq<char>
    decreases k,
{
    if k <= 0 || k > fs.len() {
        Seq::empty()
    } else {
        functions_text(fs, k - 1) + "  // "@ + fs[k - 1].0@ + "\n"@ + node_text(fs[k - 1].1, 1) + "\n"@ + "\n"@
    }
}

/// The text of the first `k` classes of a library.
pub open spec fn classes_text(cs: Seq<(String, Vec<(String, AstNode)>)>, k: int) -> Seq<char>
    decreases k,
{
    if k <= 0 || k > cs.len() {
        Seq::empty()
    } else {
        classes_text(cs, k - 1) + "class "@ + cs[k - 1].0@ + " {\n"@
            + functions_text(cs[k - 1].1@, cs[k - 1].1@.len() as int) + "}\n"@ + "\n"@
    }
}

/// The text of the Dart file of a library.
pub open spec fn library_text(name: Seq<char>, cs: Seq<(String, Vec<(String, AstNode)>)>) -> Seq<char> {
    "// Decompiled by dart_dec\n"@ + "// Library: "@ + name + "\n"@ + "\n"@ + classes_text(cs, cs.len() as int)
}

/// Whether every function of every class can be printed one level in.
pub open spec fn printable_classes(cs: Seq<(String, Vec<(String, AstNode)>)>) -> bool {
    forall|i: int, j: int| 0 <= i < cs.len() && 0 <= j < cs[i].1@.len()
        ==> 1 + 2 * node_size(#[trigger] cs[i].1@[j].1) <= usize::MAX
}

/// The text of the Dart file of a library, class by class and function by
/// function.
pub fn dart_library_text(name: &str, classes: &[(String, Vec<(String, AstNode)>)]) -> (r: String)
    requires
        printable_classes(classes@),
    ensures
        r@ == library_text(name@, classes@),
{
    let mut s = String::new();
    push_str(&mut s, "// Decompiled by dart_dec\n");
    push_str(&mut s, "// Library: ");
    push_str(&mut s, name);
    push_str(&mut s, "\n");
    push_str(&mut s, "\n");
    let ghost head = s@;
    let mut i: usize = 0;
    while i < classes.len()
        invariant
            i <= classes@.len(),
            printable_classes(classes@),
            s@ == head + classes_text(classes@, i as int),
        decreases classes@.len() - i,
    {
        let (class_name, functions) = &classes[i];
        push_str(&mut s, "class ");
        push_str(&mut s, class_name.as_str());
        push_str(&mut s, " {\n");
        let ghost mid = s@;
        let mut j: usize = 0;
        while j < functions.len()
            invariant
                i < classes@.len(),
                *functions == classes@[i as int].1,
                j <= functions@.len(),
                printable_classes(classes@),
                s@ == mid + functions_text(functions@, j as int),
            decreases functions@.len() - j,
        {
            let (func_name, ast) = &functions[j];
            assert(1 + 2 * node_size(classes@[i as int].1@[j as int].1) <= usize::MAX);
            let code = generate_dart_code(ast, 1);
            push_str(&mut s, "  // ");
            push_str(&mut s, func_name.as_str());
            push_str(&mut s, "\n");
            push_str(&mut s, code.as_str());
            push_str(&mut s, "\n");
            push_str(&mut s, "\n");
            assert(s@ =~= mid + functions_text(functions@, j + 1));
            j = j + 1;
        }
        push_str(&mut s, "}\n");
        push_str(&mut s, "\n");
        assert(s@ =~= head + classes_text(classes@, i + 1));
        i = i + 1;
    }
    assert(s@ =~= library_text(name@, classes@));
    s
}


/// Every library file name ends in `.dart`.
pub proof fn law_file_name_is_dart(name: Seq<char>)
    ensures
        ends_with_seq(library_file_name(name), ".dart"@),
{
    let cleaned = drop_pattern_from(name, "package:"@, 0).map_values(|c: char| underscored(c));
    if !ends_with_seq(cleaned, ".dart"@) {
        let r = cleaned + ".dart"@;
        assert(r.subrange(r.len() - ".dart"@.len(), r.len() as int) =~= ".dart"@);
    }
}
} // verus!
