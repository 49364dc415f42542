//! Decryption of strings hidden by protectors: XOR-encrypted byte lists
//! passed to a decrypt call, `String.fromCharCodes` lists, and chains of
//! concatenated one- or two-byte strings.

use vstd::prelude::*;
use crate::graph::ast::{AstNode, AstExpr, BinOp, CatchClause, DartLiteral};
use crate::graph::ast_view::{
    NodeV, ExprV, LitV, CatchV, node_v, expr_v, exprs_v, nodes_v, catches_v, catch_v, opt_node_v, stmts_v,
    copy_node, copy_expr, copy_opt_string, lemma_nodes_v_index, lemma_nodes_v_len, lemma_nodes_v_push,
    lemma_catches_v_index, lemma_catches_v_len, lemma_catches_v_push, lemma_exprs_v_index, lemma_exprs_v_len,
};
use crate::text::{contains_seq, owned, str_contains, string_push, chars_of};

verus! {

/// A byte a decrypted string may hold: printable ASCII or ASCII white
/// space (space, tab, line feed, form feed, carriage return).
pub open spec fn printable_byte(b: u8) -> bool {
    (0x21 <= b <= 0x7e) || b == 0x20 || b == 0x09 || b == 0x0a || b == 0x0c || b == 0x0d
}

/// The text of bytes XORed with `key`, when every resulting byte is
/// printable ASCII or white space.
pub open spec fn xor_text(bytes: Seq<u8>, key: u8) -> Option<Seq<char>> {
    if forall|i: int| 0 <= i < bytes.len() ==> printable_byte(#[trigger] bytes[i] ^ key) {
        Some(Seq::new(bytes.len(), |i: int| ((bytes[i] ^ key) as char)))
    } else {
        None
    }
}

/// XOR each byte with `key`; the result is the text, if it is all
/// printable ASCII or white space.
pub fn try_xor_decrypt(bytes: &[u8], key: u8) -> (r: Option<String>)
    ensures
        match xor_text(bytes@, key) {
            Some(t) => r matches Some(s) && s@ == t,
            None => r is None,
        },
{
    let mut s = String::new();
    let mut i: usize = 0;
    while i < bytes.len()
        invariant
            i <= bytes@.len(),
            forall|j: int| 0 <= j < i ==> printable_byte(#[trigger] bytes@[j] ^ key),
            s@ == Seq::new(i as nat, |j: int| ((bytes@[j] ^ key) as char)),
        decreases bytes@.len() - i,
    {
        let b = bytes[i] ^ key;
        if !((0x21 <= b && b <= 0x7e) || b == 0x20 || b == 0x09 || b == 0x0a || b == 0x0c || b == 0x0d) {
            assert(!printable_byte(bytes@[i as int] ^ key));
            return None;
        }
        string_push(&mut s, b as char);
        i = i + 1;
        assert(s@ =~= Seq::new(i as nat, |j: int| ((bytes@[j] ^ key) as char)));
    }
    Some(s)
}

/// The bytes of the integer literals among the first `k` expressions, each
/// cut to its low 8 bits.
pub open spec fn int_bytes(items: Seq<ExprV>, k: int) -> Seq<u8>
    decreases k,
{
    if k <= 0 || k > items.len() {
        Seq::empty()
    } else {
        int_bytes(items, k - 1) + match items[k - 1] {
            ExprV::Literal(LitV::Int(v)) => seq![v as u8],
            _ => Seq::empty(),
        }
    }
}

/// The integer literals among the first `k` expressions.
pub open spec fn int_values(items: Seq<ExprV>, k: int) -> Seq<i64>
    decreases k,
{
    if k <= 0 || k > items.len() {
        Seq::empty()
    } else {
        int_values(items, k - 1) + match items[k - 1] {
            ExprV::Literal(LitV::Int(v)) => seq![v],
            _ => Seq::empty(),
        }
    }
}

/// `var x = f([b0, b1, ...], key)` where the method's name mentions
/// `decrypt`, `_d` or `decode`: the variable, the bytes and the key (0x42
/// where the second argument is not an integer literal).
pub open spec fn decrypt_call_v(n: NodeV) -> Option<(Seq<char>, Seq<u8>, u8)> {
    match n {
        NodeV::VarDecl { name, value: Some(ExprV::MethodCall { method, args, .. }), .. } =>
            if (contains_seq(method, "decrypt"@) || contains_seq(method, "_d"@) || contains_seq(method, "decode"@))
                && args.len() > 0 && args[0] is ListLiteral {
                let bytes = int_bytes(args[0]->ListLiteral_0, args[0]->ListLiteral_0.len() as int);
                let key: u8 = if args.len() > 1 && (args[1] matches ExprV::Literal(LitV::Int(_))) {
                    args[1]->Literal_0->Int_0 as u8
                } else {
                    0x42
                };
                if bytes.len() > 0 { Some((name, bytes, key)) } else { None }
            } else {
                None
            },
        _ => None,
    }
}

/// `var x = String.fromCharCodes([c0, c1, ...])`: the variable and the
/// integer codes.
pub open spec fn char_codes_call_v(n: NodeV) -> Option<(Seq<char>, Seq<i64>)> {
    match n {
        NodeV::VarDecl { name, value: Some(ExprV::MethodCall { method, args, .. }), .. } =>
            if (contains_seq(method, "fromCharCodes"@) || contains_seq(method, "String.fromCharCode"@))
                && args.len() > 0 && args[0] is ListLiteral {
                let codes = int_values(args[0]->ListLiteral_0, args[0]->ListLiteral_0.len() as int);
                if codes.len() > 0 { Some((name, codes)) } else { None }
            } else {
                None
            },
        _ => None,
    }
}

/// Whether a code is a Unicode scalar value.
pub open spec fn is_scalar_code(c: i64) -> bool {
    (0 <= c <= 0xD7FF) || (0xE000 <= c <= 0x10FFFF)
}

/// The characters of the first `k` codes, the codes that are no Unicode
/// scalar value left out.
pub open spec fn decode_codes(codes: Seq<i64>, k: int) -> Seq<char>
    decreases k,
{
    if k <= 0 || k > codes.len() {
        Seq::empty()
    } else {
        decode_codes(codes, k - 1) + if is_scalar_code(codes[k - 1]) {
            seq![codes[k - 1] as char]
        } else {
            Seq::empty()
        }
    }
}

/// The number of bytes of a character's UTF-8 encoding.
pub open spec fn char_width(c: char) -> nat {
    if (c as u32) < 0x80 { 1 } else if (c as u32) < 0x800 { 2 } else if (c as u32) < 0x10000 { 3 } else { 4 }
}

/// The number of bytes of a text's UTF-8 encoding.
pub open spec fn utf8_len(s: Seq<char>) -> nat
    decreases s.len(),
{
    if s.len() == 0 { 0 } else { utf8_len(s.drop_last()) + char_width(s.last()) }
}

/// The text of a concatenation of string literals of at most two bytes
/// each, if the expression is one.
pub open spec fn concat_v(e: ExprV) -> Option<Seq<char>>
    decreases e,
{
    match e {
        ExprV::BinaryOp(l, op, r) => if op == BinOp::Add {
            match (concat_v(*l), concat_v(*r)) {
                (Some(a), Some(b)) => Some(a + b),
                _ => None,
            }
        } else {
            None
        },
        ExprV::Literal(LitV::Str(s)) => if utf8_len(s) <= 2 { Some(s) } else { None },
        _ => None,
    }
}

/// `var x = "h" + "e" + "l" + ...` making more than one byte: the variable
/// and the joined text.
pub open spec fn char_concat_v(n: NodeV) -> Option<(Seq<char>, Seq<char>)> {
    match n {
        NodeV::VarDecl { name, value: Some(e), .. } => match concat_v(e) {
            Some(c) => if utf8_len(c) > 1 { Some((name, c)) } else { None },
            None => None,
        },
        _ => None,
    }
}

/// `final String x = 'text';`
pub open spec fn string_decl_v(name: Seq<char>, text: Seq<char>) -> NodeV {
    NodeV::VarDecl {
        name,
        dart_type: Some("String"@),
        value: Some(ExprV::Literal(LitV::Str(text))),
        is_final: true,
        is_late: false,
    }
}

/// A statement with each of the three patterns rewritten, in turn.
pub open spec fn rewrite_v(x: NodeV) -> NodeV {
    let a = match decrypt_call_v(x) {
        Some((name, bytes, key)) => match xor_text(bytes, key) {
            Some(d) => string_decl_v(name, d),
            None => x,
        },
        None => x,
    };
    let b = match char_codes_call_v(a) {
        Some((name, codes)) => {
            let d = decode_codes(codes, codes.len() as int);
            if d.len() > 0 { string_decl_v(name, d) } else { a }
        },
        None => a,
    };
    match char_concat_v(b) {
        Some((name, c)) => string_decl_v(name, c),
        None => b,
    }
}

/// A statement with its hidden strings decrypted, inside out; `switch`
/// statements are left as they are.
pub open spec fn dec_v(n: NodeV) -> NodeV
    decreases n, 1int,
{
    match n {
        NodeV::Block(s) => NodeV::Block(dec_stmts(s, s.len() as int)),
        NodeV::If { condition, then_body, else_body } => NodeV::If {
            condition,
            then_body: Box::new(dec_v(*then_body)),
            else_body: dec_opt(else_body),
        },
        NodeV::While { condition, body } => NodeV::While { condition, body: Box::new(dec_v(*body)) },
        NodeV::DoWhile { body, condition } => NodeV::DoWhile { body: Box::new(dec_v(*body)), condition },
        NodeV::For { init, condition, update, body } => NodeV::For { init, condition, update, body: Box::new(dec_v(*body)) },
        NodeV::TryCatch { try_body, catches, finally_body } => NodeV::TryCatch {
            try_body: Box::new(dec_v(*try_body)),
            catches: dec_catches(catches, catches.len() as int),
            finally_body: dec_opt(finally_body),
        },
        _ => n,
    }
}

/// An optional statement, decrypted.
pub open spec fn dec_opt(o: Option<Box<NodeV>>) -> Option<Box<NodeV>>
    decreases o, 0int,
{
    match o {
        Some(b) => Some(Box::new(dec_v(*b))),
        None => None,
    }
}

/// The first `k` statements of a block, each decrypted then rewritten.
pub open spec fn dec_stmts(s: Seq<NodeV>, k: int) -> Seq<NodeV>
    decreases s, k,
{
    if k <= 0 || k > s.len() { Seq::empty() } else { dec_stmts(s, k - 1).push(rewrite_v(dec_v(s[k - 1]))) }
}

/// The first `k` `catch` clauses, their bodies decrypted.
pub open spec fn dec_catches(s: Seq<CatchV>, k: int) -> Seq<CatchV>
    decreases s, k,
{
    if k <= 0 || k > s.len() {
        Seq::empty()
    } else {
        dec_catches(s, k - 1).push(CatchV { body: dec_v(s[k - 1].body), ..s[k - 1] })
    }
}

} // verus!

verus! {

/// `char::from_u32`: the character of a Unicode scalar value, nothing for
/// any other number.
#[verifier::external_body]
fn char_from_u32(v: u32) -> (r: Option<char>)
    ensures
        (v <= 0xD7FF || (0xE000 <= v && v <= 0x10FFFF)) ==> r == Some(v as char),
        !(v <= 0xD7FF || (0xE000 <= v && v <= 0x10FFFF)) ==> r is None,
{
    char::from_u32(v)
}

/// The bytes of the integer literals in a list, each cut to 8 bits.
fn list_bytes(items: &Vec<AstExpr>) -> (r: Vec<u8>)
    ensures
        r@ == int_bytes(exprs_v(items@, items@.len() as int), items@.len() as int),
{
    let ghost iv = exprs_v(items@, items@.len() as int);
    proof {
        lemma_exprs_v_len(items@, items@.len() as int);
    }
    let mut r: Vec<u8> = Vec::new();
    let mut i: usize = 0;
    while i < items.len()
        invariant
            i <= items@.len(),
            iv == exprs_v(items@, items@.len() as int),
            iv.len() == items@.len(),
            r@ == int_bytes(iv, i as int),
        decreases items@.len() - i,
    {
        proof {
            lemma_exprs_v_index(items@, items@.len() as int, i as int);
            reveal_with_fuel(expr_v, 2);
        }
        match &items[i] {
            AstExpr::Literal(DartLiteral::Int(v)) => {
                r.push(*v as u8);
            },
            _ => {},
        }
        assert(r@ =~= int_bytes(iv, i + 1));
        i = i + 1;
    }
    r
}

/// The integer literals in a list.
fn list_ints(items: &Vec<AstExpr>) -> (r: Vec<i64>)
    ensures
        r@ == int_values(exprs_v(items@, items@.len() as int), items@.len() as int),
{
    let ghost iv = exprs_v(items@, items@.len() as int);
    proof {
        lemma_exprs_v_len(items@, items@.len() as int);
    }
    let mut r: Vec<i64> = Vec::new();
    let mut i: usize = 0;
    while i < items.len()
        invariant
            i <= items@.len(),
            iv == exprs_v(items@, items@.len() as int),
            iv.len() == items@.len(),
            r@ == int_values(iv, i as int),
        decreases items@.len() - i,
    {
        proof {
            lemma_exprs_v_index(items@, items@.len() as int, i as int);
            reveal_with_fuel(expr_v, 2);
        }
        match &items[i] {
            AstExpr::Literal(DartLiteral::Int(v)) => {
                r.push(*v);
            },
            _ => {},
        }
        assert(r@ =~= int_values(iv, i + 1));
        i = i + 1;
    }
    r
}

/// `var x = f([bytes...], key)` with a decrypting method: the variable,
/// the bytes and the key.
fn detect_decrypt_pattern(node: &AstNode) -> (r: Option<(String, Vec<u8>, u8)>)
    ensures
        match decrypt_call_v(node_v(*node)) {
            Some((n, b, k)) => r matches Some(x) && x.0@ == n && x.1@ == b && x.2 == k,
            None => r is None,
        },
{
    match node {
        AstNode::VarDecl { name, value, .. } => {
            assert(node_v(*node) matches NodeV::VarDecl { name: nm, value: vv, .. } && nm == name@
                && vv == crate::graph::ast_view::opt_expr_v(*value));
            match value {
                Some(mc) => {
                    assert(crate::graph::ast_view::opt_expr_v(*value) == Some(expr_v(*mc)));
                    match mc {
                        AstExpr::MethodCall { method, args, .. } => {
                            assert(expr_v(*mc) matches ExprV::MethodCall { method: m, args: a, .. } && m == method@
                                && a == exprs_v(args@, args@.len() as int));
                            detect_decrypt_call(name, method, args)
                        },
                        _ => {
                            assert(!(expr_v(*mc) is MethodCall));
                            None
                        },
                    }
                },
                None => None,
            }
        },
        _ => None,
    }
}

/// The decrypt call `f(args)` assigned to `name`, if `f` decrypts and its
/// first argument is a list holding integers.
fn detect_decrypt_call(name: &String, method: &String, args: &Vec<AstExpr>) -> (r: Option<(String, Vec<u8>, u8)>)
    ensures
        match decrypt_call_v(NodeV::VarDecl {
            name: name@,
            dart_type: None,
            value: Some(ExprV::MethodCall { receiver: None, method: method@, args: exprs_v(args@, args@.len() as int), type_args: Seq::empty() }),
            is_final: false,
            is_late: false,
        }) {
            Some((n, b, k)) => r matches Some(x) && x.0@ == n && x.1@ == b && x.2 == k,
            None => r is None,
        },
{
    proof {
        lemma_exprs_v_len(args@, args@.len() as int);
    }
    if !(str_contains(method.as_str(), "decrypt") || str_contains(method.as_str(), "_d")
        || str_contains(method.as_str(), "decode")) {
        return None;
    }
    if args.len() == 0 {
        return None;
    }
    proof {
        lemma_exprs_v_index(args@, args@.len() as int, 0);
    }
    match &args[0] {
        AstExpr::ListLiteral(items) => {
            assert(expr_v(args@[0]) == ExprV::ListLiteral(exprs_v(items@, items@.len() as int)));
            proof {
                lemma_exprs_v_len(items@, items@.len() as int);
            }
            let bytes = list_bytes(items);
            let key: u8 = if args.len() > 1 {
                proof {
                    lemma_exprs_v_index(args@, args@.len() as int, 1);
                }
                match &args[1] {
                    AstExpr::Literal(DartLiteral::Int(k)) => {
                        assert(expr_v(args@[1]) == ExprV::Literal(LitV::Int(*k)));
                        *k as u8
                    },
                    _ => {
                        assert(!(expr_v(args@[1]) matches ExprV::Literal(LitV::Int(_))));
                        0x42
                    },
                }
            } else {
                0x42
            };
            if bytes.len() > 0 {
                Some((name.clone(), bytes, key))
            } else {
                None
            }
        },
        _ => {
            assert(!(expr_v(args@[0]) is ListLiteral));
            None
        },
    }
}

/// `var x = String.fromCharCodes([codes...])`: the variable and the codes.
fn detect_from_char_codes(node: &AstNode) -> (r: Option<(String, Vec<i64>)>)
    ensures
        match char_codes_call_v(node_v(*node)) {
            Some((n, c)) => r matches Some(x) && x.0@ == n && x.1@ == c,
            None => r is None,
        },
{
    match node {
        AstNode::VarDecl { name, value, .. } => {
            assert(node_v(*node) matches NodeV::VarDecl { name: nm, value: vv, .. } && nm == name@
                && vv == crate::graph::ast_view::opt_expr_v(*value));
            match value {
                Some(mc) => {
                    assert(crate::graph::ast_view::opt_expr_v(*value) == Some(expr_v(*mc)));
                    match mc {
                        AstExpr::MethodCall { method, args, .. } => {
                            assert(expr_v(*mc) matches ExprV::MethodCall { method: m, args: a, .. } && m == method@
                                && a == exprs_v(args@, args@.len() as int));
                            detect_codes_call(name, method, args)
                        },
                        _ => {
                            assert(!(expr_v(*mc) is MethodCall));
                            None
                        },
                    }
                },
                None => None,
            }
        },
        _ => None,
    }
}

/// The `fromCharCodes` call `f(args)` assigned to `name`, if its first
/// argument is a list holding integers.
fn detect_codes_call(name: &String, method: &String, args: &Vec<AstExpr>) -> (r: Option<(String, Vec<i64>)>)
    ensures
        match char_codes_call_v(NodeV::VarDecl {
            name: name@,
            dart_type: None,
            value: Some(ExprV::MethodCall { receiver: None, method: method@, args: exprs_v(args@, args@.len() as int), type_args: Seq::empty() }),
            is_final: false,
            is_late: false,
        }) {
            Some((n, c)) => r matches Some(x) && x.0@ == n && x.1@ == c,
            None => r is None,
        },
{
    proof {
        lemma_exprs_v_len(args@, args@.len() as int);
    }
    if !(str_contains(method.as_str(), "fromCharCodes") || str_contains(method.as_str(), "String.fromCharCode")) {
        return None;
    }
    if args.len() == 0 {
        return None;
    }
    proof {
        lemma_exprs_v_index(args@, args@.len() as int, 0);
    }
    match &args[0] {
        AstExpr::ListLiteral(items) => {
            assert(expr_v(args@[0]) == ExprV::ListLiteral(exprs_v(items@, items@.len() as int)));
            proof {
                lemma_exprs_v_len(items@, items@.len() as int);
            }
            let codes = list_ints(items);
            if codes.len() > 0 {
                Some((name.clone(), codes))
            } else {
                None
            }
        },
        _ => {
            assert(!(expr_v(args@[0]) is ListLiteral));
            None
        },
    }
}

/// The characters of the codes that are Unicode scalar values.
fn decode_char_codes(codes: &Vec<i64>) -> (r: String)
    ensures
        r@ == decode_codes(codes@, codes@.len() as int),
{
    let mut s = String::new();
    let mut i: usize = 0;
    while i < codes.len()
        invariant
            i <= codes@.len(),
            s@ == decode_codes(codes@, i as int),
        decreases codes@.len() - i,
    {
        let c = codes[i];
        if c >= 0 && c <= 0x10FFFF {
            match char_from_u32(c as u32) {
                Some(ch) => string_push(&mut s, ch),
                None => {},
            }
        }
        assert(s@ =~= decode_codes(codes@, i + 1));
        i = i + 1;
    }
    s
}

/// The number of bytes of a text's UTF-8 encoding, capped at 3.
fn utf8_len_capped(s: &str) -> (r: usize)
    ensures
        r == if utf8_len(s@) < 3 { utf8_len(s@) } else { 3 },
{
    let cs = chars_of(s);
    let mut n: usize = 0;
    let mut i: usize = 0;
    while i < cs.len()
        invariant
            cs@ == s@,
            i <= cs@.len(),
            n == utf8_len(s@.take(i as int)),
            n < 3,
        decreases cs@.len() - i,
    {
        let c = cs[i] as u32;
        let w: usize = if c < 0x80 { 1 } else if c < 0x800 { 2 } else if c < 0x10000 { 3 } else { 4 };
        assert(s@.take(i + 1).drop_last() =~= s@.take(i as int));
        if n + w >= 3 {
            proof {
                lemma_utf8_len_prefix(s@, i + 1);
            }
            return 3;
        }
        n = n + w;
        i = i + 1;
    }
    assert(s@.take(i as int) =~= s@);
    n
}

/// A prefix takes no more bytes than the whole.
proof fn lemma_utf8_len_prefix(s: Seq<char>, k: int)
    requires
        0 <= k <= s.len(),
    ensures
        utf8_len(s.take(k)) <= utf8_len(s),
    decreases s.len() - k,
{
    if k < s.len() {
        lemma_utf8_len_prefix(s, k + 1);
        assert(s.take(k + 1).drop_last() =~= s.take(k));
    } else {
        assert(s.take(k) =~= s);
    }
}

/// Appends the text of a concatenation of short string literals; false
/// when the expression is not one.
fn collect_string_concat(expr: &AstExpr, result: &mut String) -> (r: bool)
    ensures
        r == concat_v(expr_v(*expr)) is Some,
        r ==> final(result)@ == old(result)@ + concat_v(expr_v(*expr))->Some_0,
    decreases *expr,
{
    proof {
        reveal_with_fuel(expr_v, 2);
    }
    match expr {
        AstExpr::BinaryOp(lhs, op, rhs) => {
            if *op != BinOp::Add {
                return false;
            }
            let ghost start = result@;
            if !collect_string_concat(&**lhs, result) {
                return false;
            }
            let ghost mid = result@;
            if !collect_string_concat(&**rhs, result) {
                return false;
            }
            assert(result@ =~= start + concat_v(expr_v(*expr))->Some_0);
            true
        },
        AstExpr::Literal(DartLiteral::String(s)) => {
            if utf8_len_capped(s.as_str()) <= 2 {
                crate::text::push_str(result, s.as_str());
                true
            } else {
                false
            }
        },
        _ => false,
    }
}

/// `var x = "h" + "e" + ...` joining to more than one byte: the variable
/// and the joined text.
fn detect_char_concat(node: &AstNode) -> (r: Option<(String, String)>)
    ensures
        match char_concat_v(node_v(*node)) {
            Some((n, c)) => r matches Some(x) && x.0@ == n && x.1@ == c,
            None => r is None,
        },
{
    proof {
        reveal_with_fuel(node_v, 2);
        reveal_with_fuel(crate::graph::ast_view::opt_expr_v, 2);
    }
    match node {
        AstNode::VarDecl { name, value: Some(expr), .. } => {
            let mut combined = String::new();
            if collect_string_concat(expr, &mut combined) && utf8_len_capped(combined.as_str()) > 1 {
                Some((name.clone(), combined))
            } else {
                None
            }
        },
        _ => None,
    }
}

/// `final String name = 'text';`
fn string_decl(name: String, text: String) -> (r: AstNode)
    ensures
        node_v(r) == string_decl_v(name@, text@),
{
    let lit = AstExpr::Literal(DartLiteral::String(text));
    assert(expr_v(lit) == ExprV::Literal(LitV::Str(text@)));
    let value = Some(lit);
    assert(crate::graph::ast_view::opt_expr_v(value) == Some(expr_v(lit)));
    let ty = Some(owned("String"));
    let r = AstNode::VarDecl { name: name, dart_type: ty, value: value, is_final: true, is_late: false };
    assert(node_v(r) == string_decl_v(name@, text@));
    r
}

/// A statement with the three patterns rewritten in turn.
fn rewrite(x: AstNode) -> (r: AstNode)
    ensures
        node_v(r) == rewrite_v(node_v(x)),
{
    let a = match detect_decrypt_pattern(&x) {
        Some((name, bytes, key)) => match try_xor_decrypt(bytes.as_slice(), key) {
            Some(d) => string_decl(name, d),
            None => x,
        },
        None => x,
    };
    let b = match detect_from_char_codes(&a) {
        Some((name, codes)) => {
            let d = decode_char_codes(&codes);
            if !d.as_str().is_empty() {
                string_decl(name, d)
            } else {
                a
            }
        },
        None => a,
    };
    match detect_char_concat(&b) {
        Some((name, c)) => string_decl(name, c),
        None => b,
    }
}

/// The statements of a block, each decrypted then rewritten.
fn walk_stmts(v: &Vec<AstNode>) -> (r: Vec<AstNode>)
    ensures
        stmts_v(r@) == dec_stmts(stmts_v(v@), v@.len() as int),
    decreases v@, 2int,
{
    let ghost sv = stmts_v(v@);
    proof {
        lemma_nodes_v_len(v@, v@.len() as int);
    }
    let mut out: Vec<AstNode> = Vec::new();
    let mut i: usize = 0;
    assert(stmts_v(out@) =~= Seq::<NodeV>::empty());
    while i < v.len()
        invariant
            i <= v@.len(),
            sv == stmts_v(v@),
            sv.len() == v@.len(),
            stmts_v(out@) == dec_stmts(sv, i as int),
        decreases v@.len() - i,
    {
        proof {
            lemma_nodes_v_index(v@, v@.len() as int, i as int);
        }
        let x = walk_decrypt(&v[i]);
        let z = rewrite(x);
        let ghost before = out@;
        out.push(z);
        proof {
            lemma_nodes_v_push(before, z);
        }
        i = i + 1;
    }
    out
}

/// The `catch` clauses of a `try`, their bodies decrypted.
fn walk_catches(v: &Vec<CatchClause>) -> (r: Vec<CatchClause>)
    ensures
        catches_v(r@, r@.len() as int) == dec_catches(catches_v(v@, v@.len() as int), v@.len() as int),
    decreases v@, 2int,
{
    let ghost cv = catches_v(v@, v@.len() as int);
    proof {
        lemma_catches_v_len(v@, v@.len() as int);
    }
    let mut out: Vec<CatchClause> = Vec::new();
    let mut i: usize = 0;
    assert(catches_v(out@, 0) =~= Seq::<CatchV>::empty());
    while i < v.len()
        invariant
            i <= v@.len(),
            cv == catches_v(v@, v@.len() as int),
            cv.len() == v@.len(),
            out@.len() == i,
            catches_v(out@, out@.len() as int) == dec_catches(cv, i as int),
        decreases v@.len() - i,
    {
        proof {
            lemma_catches_v_index(v@, v@.len() as int, i as int);
        }
        let c = &v[i];
        let entry = CatchClause {
            exception_type: copy_opt_string(&c.exception_type),
            exception_var: c.exception_var.clone(),
            stack_trace_var: copy_opt_string(&c.stack_trace_var),
            body: walk_decrypt(&c.body),
        };
        let ghost before = out@;
        out.push(entry);
        proof {
            lemma_catches_v_push(before, entry);
        }
        i = i + 1;
    }
    out
}

/// An optional statement, decrypted.
fn walk_opt(o: &Option<Box<AstNode>>) -> (r: Option<Box<AstNode>>)
    ensures
        opt_node_v(r) == dec_opt(opt_node_v(*o)),
    decreases *o, 2int,
{
    match o {
        Some(b) => Some(Box::new(walk_decrypt(&**b))),
        None => None,
    }
}

/// A statement with its hidden strings decrypted, inside out.
#[verifier::rlimit(50)]
fn walk_decrypt(n: &AstNode) -> (r: AstNode)
    ensures
        node_v(r) == dec_v(node_v(*n)),
    decreases *n, 1int,
{
    match n {
        AstNode::Block(stmts) => {
            proof {
                lemma_nodes_v_len(stmts@, stmts@.len() as int);
            }
            assert(node_v(*n) == NodeV::Block(stmts_v(stmts@)));
            let out = walk_stmts(stmts);
            let r = AstNode::Block(out);
            assert(node_v(r) == NodeV::Block(stmts_v(out@)));
            r
        },
        AstNode::If { condition, then_body, else_body } => AstNode::If {
            condition: copy_expr(condition),
            then_body: Box::new(walk_decrypt(&**then_body)),
            else_body: walk_opt(else_body),
        },
        AstNode::While { condition, body } => AstNode::While {
            condition: copy_expr(condition),
            body: Box::new(walk_decrypt(&**body)),
        },
        AstNode::DoWhile { body, condition } => AstNode::DoWhile {
            body: Box::new(walk_decrypt(&**body)),
            condition: copy_expr(condition),
        },
        AstNode::For { init, condition, update, body } => AstNode::For {
            init: Box::new(copy_node(&**init)),
            condition: copy_expr(condition),
            update: Box::new(copy_node(&**update)),
            body: Box::new(walk_decrypt(&**body)),
        },
        AstNode::TryCatch { try_body, catches, finally_body } => {
            proof {
                lemma_catches_v_len(catches@, catches@.len() as int);
            }
            AstNode::TryCatch {
                try_body: Box::new(walk_decrypt(&**try_body)),
                catches: walk_catches(catches),
                finally_body: walk_opt(finally_body),
            }
        },
        _ => {
            assert(dec_v(node_v(*n)) == node_v(*n));
            copy_node(n)
        },
    }
}

/// Decrypt the strings that third-party protectors hide: XOR-encrypted
/// byte lists handed to a decrypt call, `String.fromCharCodes` lists, and
/// chains of concatenated short strings become string constants.
pub fn decrypt_strings(ast: &mut AstNode)
    ensures
        node_v(*final(ast)) == dec_v(node_v(*old(ast))),
{
    let r = walk_decrypt(ast);
    *ast = r;
}


proof fn lemma_xor_twice(b: u8, k: u8)
    ensures
        (b ^ k) ^ k == b,
{
    assert((b ^ k) ^ k == b) by (bit_vector);
}

/// XOR with a key undoes XOR with the same key: the encryption of
/// printable text decrypts back to that text.
pub proof fn law_xor_round_trip(plain: Seq<u8>, key: u8)
    requires
        forall|i: int| 0 <= i < plain.len() ==> printable_byte(#[trigger] plain[i]),
    ensures
        xor_text(plain.map_values(|b: u8| b ^ key), key) == Some(Seq::new(plain.len(), |i: int| plain[i] as char)),
{
    let enc = plain.map_values(|b: u8| b ^ key);
    assert forall|i: int| 0 <= i < enc.len() implies (#[trigger] enc[i] ^ key) == plain[i] by {
        lemma_xor_twice(plain[i], key);
    }
    assert forall|i: int| 0 <= i < enc.len() implies printable_byte(#[trigger] enc[i] ^ key) by {
        assert((enc[i] ^ key) == plain[i]);
    }
    assert(Seq::new(enc.len(), |i: int| ((enc[i] ^ key) as char)) =~= Seq::new(plain.len(), |i: int| plain[i] as char));
}
} // verus!
