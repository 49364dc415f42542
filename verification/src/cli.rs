//! The decisions of the command-line front end: decompiling one function,
//! cross-references between snapshot objects, option values, and the
//! readers of the Dart SDK's C++ headers.

use vstd::prelude::*;
use crate::binary::Architecture;
use crate::binary::errors::CoreError;
use crate::binary::file::BinaryFile;
use crate::disasm::common::{DisasmError, Instruction};
use crate::disasm::convert::{create_disassembler, disassembled, isa_decode, Disassembler, Isa};
use crate::lifter::{lift_instructions, lift_spec, LiftError};
use crate::lifter::ir::{IR, IRView, CallKind, CallKindView, ir_list_view};
use crate::lifter::operands::fallthrough_fits;
use crate::lifter::resolvers::{PoolResolver, StubResolver};
use crate::snapshot::{DartFunction, DartObject, ParsedSnapshot, SnapshotAddr, entry_index};
use crate::text::owned;
use vstd::string::StrSliceExecFns;
use crate::rx::{regex_last_match, regex_last_match_result, regex_captures, regex_captures_result, captures_view, opt_string_view};

verus! {

/// Why one function could not be decompiled.
#[derive(Debug)]
pub enum DecompileError {
    /// The function's code address holds no code object.
    NoCode(String),
    /// The function's code has no byte inside the file.
    ZeroSize(String),
    Core(CoreError),
    Disasm(DisasmError),
    Lift(LiftError),
}

/// The instruction set the disassembler of an architecture decodes.
pub open spec fn arch_isa(arch: Architecture) -> Isa {
    match arch {
        Architecture::Arm64 => Isa::Arm64,
        Architecture::Arm32 => Isa::Thumb,
        Architecture::X86_64 => Isa::X86 { mode64: true },
        Architecture::X86 => Isa::X86 { mode64: false },
    }
}

/// The targets of the direct calls among the first `k` IR instructions.
pub open spec fn direct_targets(ir: Seq<IRView>, k: int) -> Seq<u64>
    decreases k,
{
    if k <= 0 || k > ir.len() {
        Seq::empty()
    } else {
        direct_targets(ir, k - 1) + match ir[k - 1] {
            IRView::Call { kind: CallKindView::Direct(a), .. } => seq![a.0],
            _ => Seq::empty(),
        }
    }
}

/// The targets of the direct calls of a lifted function, in order.
pub fn call_targets(ir: &Vec<IR>) -> (r: Vec<u64>)
    ensures
        r@ == direct_targets(ir_list_view(ir@), ir@.len() as int),
{
    let mut r: Vec<u64> = Vec::new();
    let mut i: usize = 0;
    while i < ir.len()
        invariant
            i <= ir@.len(),
            r@ == direct_targets(ir_list_view(ir@), i as int),
        decreases ir@.len() - i,
    {
        let ghost before = r@;
        match &ir[i] {
            IR::Call { kind: CallKind::Direct(a), .. } => {
                r.push(a.0);
            },
            _ => {},
        }
        assert(ir_list_view(ir@)[i as int] == ir@[i as int]@);
        assert(r@ =~= direct_targets(ir_list_view(ir@), i + 1));
        i = i + 1;
    }
    r
}

/// The code object at an address of the pool, if that is what is there.
pub open spec fn code_at(snapshot: ParsedSnapshot, addr: SnapshotAddr) -> Option<crate::snapshot::DartCode> {
    match entry_index(snapshot.objects.entries(), addr) {
        Some(i) => match snapshot.objects.entries()[i].1 {
            DartObject::Code(c) => Some(c),
            _ => None,
        },
        None => None,
    }
}

/// How many bytes of code are read: the code's size (256 where it is
/// zero), no more than the file holds past the code's offset.
pub open spec fn read_len(size: u32, offset: usize, file_size: nat) -> int {
    let want: int = if size > 0 { size as int } else { 256 };
    let left: int = if file_size >= offset { file_size - offset } else { 0 };
    if want <= left { want } else { left }
}

/// Whether `insns` is how the disassembler of `arch` decodes `code` placed
/// at `base`.
pub open spec fn decodes_to(arch: Architecture, code: Seq<u8>, base: u64, insns: Vec<Instruction>) -> bool {
    disassembled(arch_isa(arch), code, base, Ok::<Vec<Instruction>, DisasmError>(insns))
}

/// Whether every instruction's end fits in a 64-bit address.
fn all_fit(insns: &Vec<Instruction>) -> (r: bool)
    ensures
        r == forall|i: int| 0 <= i < insns@.len() ==> fallthrough_fits(#[trigger] insns@[i]),
{
    let mut i: usize = 0;
    while i < insns.len()
        invariant
            i <= insns@.len(),
            forall|j: int| 0 <= j < i ==> fallthrough_fits(#[trigger] insns@[j]),
        decreases insns@.len() - i,
    {
        if insns[i].address > u64::MAX - insns[i].size as u64 {
            return false;
        }
        i = i + 1;
    }
    true
}

/// Decompile a single function: read its code from the file, disassemble
/// it for `arch` and lift it; give the number of IR instructions and the
/// targets of its direct calls.
pub fn decompile_single_function(
    func: &DartFunction,
    file: &BinaryFile,
    snapshot: &ParsedSnapshot,
    arch: Architecture,
    pool_resolver: &PoolResolver,
    stub_resolver: &StubResolver,
) -> (r: Result<(usize, Vec<u64>), DecompileError>)
    requires
        snapshot.objects.wf(),
        file.wf(),
    ensures
        code_at(*snapshot, func.code_addr) is None ==> (r matches Err(DecompileError::NoCode(n)) && n@ == func.name@),
        code_at(*snapshot, func.code_addr) matches Some(c) ==> {
            let off = c.instructions_offset as usize;
            let len = read_len(c.instructions_size, off, file.bytes().len());
            let code = file.bytes().subrange(off as int, off + len);
            &&& len == 0 ==> (r matches Err(DecompileError::ZeroSize(n)) && n@ == func.name@)
            &&& len > 0 ==> match r {
                Ok((n, calls)) => exists|insns: Vec<Instruction>| {
                    &&& decodes_to(arch, code, off as u64, insns)
                    &&& n == lift_spec(insns@, arch, pool_resolver@, *stub_resolver).len()
                    &&& calls@ == direct_targets(
                        lift_spec(insns@, arch, pool_resolver@, *stub_resolver),
                        lift_spec(insns@, arch, pool_resolver@, *stub_resolver).len() as int,
                    )
                },
                Err(DecompileError::Disasm(e)) => e is CapstoneInit || isa_decode(arch_isa(arch), code, off as u64) is None,
                Err(DecompileError::Lift(_)) => exists|insns: Vec<Instruction>| {
                    &&& #[trigger] decodes_to(arch, code, off as u64, insns)
                    &&& !forall|i: int| 0 <= i < insns@.len() ==> fallthrough_fits(#[trigger] insns@[i])
                },
                Err(_) => false,
            }
            &&& (len > 0 && isa_decode(arch_isa(arch), code, off as u64) is None) ==> r matches Err(DecompileError::Disasm(_))
        },
{
    let code = match snapshot.objects.get(&func.code_addr) {
        Some(DartObject::Code(c)) => c,
        _ => return Err(DecompileError::NoCode(func.name.clone())),
    };
    let instr_offset = code.instructions_offset as usize;
    let instr_size: usize = if code.instructions_size > 0 { code.instructions_size as usize } else { 256 };
    let left = file.file_size().saturating_sub(instr_offset);
    let max_read = if instr_size <= left { instr_size } else { left };
    if max_read == 0 {
        return Err(DecompileError::ZeroSize(func.name.clone()));
    }
    let instr_bytes = match file.slice(instr_offset, max_read) {
        Ok(b) => b,
        Err(e) => return Err(DecompileError::Core(e)),
    };
    let disasm = match create_disassembler(arch) {
        Ok(d) => d,
        Err(e) => return Err(DecompileError::Disasm(e)),
    };
    let instructions = match disasm.disassemble(instr_bytes, instr_offset as u64) {
        Ok(v) => v,
        Err(e) => return Err(DecompileError::Disasm(e)),
    };
    assert(decodes_to(arch, file.bytes().subrange(instr_offset as int, instr_offset + max_read), instr_offset as u64, instructions));
    if !all_fit(&instructions) {
        return Err(DecompileError::Lift(LiftError::LiftFailed {
            addr: instr_offset as u64,
            reason: owned("instruction ends past the address space"),
        }));
    }
    let ir = match lift_instructions(instructions.as_slice(), arch, pool_resolver, stub_resolver) {
        Ok(v) => v,
        Err(e) => return Err(DecompileError::Lift(e)),
    };
    let calls_to = call_targets(&ir);
    assert(decodes_to(arch, file.bytes().subrange(instr_offset as int, instr_offset + max_read), instr_offset as u64, instructions));
    Ok((ir.len(), calls_to))
}

/// The cross-references an object makes, from its own address: a
/// function to its owner class and its code, a field to its owner class,
/// a class to its superclass and interfaces, a closure to its function and
/// context, a code object to its object pool.
pub open spec fn object_refs(obj: DartObject) -> Seq<(SnapshotAddr, SnapshotAddr)> {
    match obj {
        DartObject::Function(f) => (match f.owner_class {
            Some(o) => seq![(f.addr, o)],
            None => Seq::empty(),
        }) + seq![(f.addr, f.code_addr)],
        DartObject::Field(f) => match f.owner_class {
            Some(o) => seq![(f.addr, o)],
            None => Seq::empty(),
        },
        DartObject::Class(c) => (match c.super_class {
            Some(s) => seq![(c.addr, s)],
            None => Seq::empty(),
        }) + c.interfaces@.map_values(|i: SnapshotAddr| (c.addr, i)),
        DartObject::Closure(cl) => seq![(cl.addr, cl.function)] + match cl.context {
            Some(x) => seq![(cl.addr, x)],
            None => Seq::empty(),
        },
        DartObject::Code(c) => match c.object_pool_addr {
            Some(p) => seq![(c.addr, p)],
            None => Seq::empty(),
        },
        _ => Seq::empty(),
    }
}

/// The cross-references of the first `k` objects, in order.
pub open spec fn refs_upto(e: Seq<(SnapshotAddr, DartObject)>, k: int) -> Seq<(SnapshotAddr, SnapshotAddr)>
    decreases k,
{
    if k <= 0 || k > e.len() {
        Seq::empty()
    } else {
        refs_upto(e, k - 1) + object_refs(e[k - 1].1)
    }
}

/// Resolve cross-references between snapshot objects (second pass): the
/// references of each object, object by object.
pub fn resolve_cross_references(snapshot: &ParsedSnapshot) -> (r: Vec<(SnapshotAddr, SnapshotAddr)>)
    ensures
        r@ == refs_upto(snapshot.objects.entries(), snapshot.objects.entries().len() as int),
{
    let objs = snapshot.objects.iter();
    let mut xrefs: Vec<(SnapshotAddr, SnapshotAddr)> = Vec::new();
    let mut i: usize = 0;
    while i < objs.len()
        invariant
            objs@ == snapshot.objects.entries(),
            i <= objs@.len(),
            xrefs@ == refs_upto(objs@, i as int),
        decreases objs@.len() - i,
    {
        let ghost before = xrefs@;
        match &objs[i].1 {
            DartObject::Function(func) => {
                if let Some(owner) = &func.owner_class {
                    xrefs.push((func.addr, *owner));
                }
                xrefs.push((func.addr, func.code_addr));
            },
            DartObject::Field(field) => {
                if let Some(owner) = &field.owner_class {
                    xrefs.push((field.addr, *owner));
                }
            },
            DartObject::Class(class) => {
                if let Some(s) = &class.super_class {
                    xrefs.push((class.addr, *s));
                }
                let ghost mid = xrefs@;
                let mut j: usize = 0;
                while j < class.interfaces.len()
                    invariant
                        j <= class.interfaces@.len(),
                        xrefs@ == mid + class.interfaces@.take(j as int).map_values(|x: SnapshotAddr| (class.addr, x)),
                    decreases class.interfaces@.len() - j,
                {
                    xrefs.push((class.addr, class.interfaces[j]));
                    assert(class.interfaces@.take(j + 1).map_values(|x: SnapshotAddr| (class.addr, x))
                        =~= class.interfaces@.take(j as int).map_values(|x: SnapshotAddr| (class.addr, x)).push(
                        (class.addr, class.interfaces@[j as int])));
                    j = j + 1;
                }
                assert(class.interfaces@.take(j as int) =~= class.interfaces@);
            },
            DartObject::Closure(closure) => {
                xrefs.push((closure.addr, closure.function));
                if let Some(ctx) = &closure.context {
                    xrefs.push((closure.addr, *ctx));
                }
            },
            DartObject::Code(code) => {
                if let Some(pool) = &code.object_pool_addr {
                    xrefs.push((code.addr, *pool));
                }
            },
            _ => {},
        }
        assert(xrefs@ =~= before + object_refs(objs@[i as int].1));
        i = i + 1;
    }
    xrefs
}

} // verus!

verus! {

/// The text `str::to_lowercase` makes of a text.
pub uninterp spec fn lowercase_of(s: Seq<char>) -> Seq<char>;

/// `str::to_lowercase`: the text in lower case, by the Unicode rules. The
/// result is named, not restated.
#[verifier::external_body]
fn to_lowercase(s: &str) -> (r: String)
    ensures
        r@ == lowercase_of(s@),
{
    s.to_lowercase()
}

/// The number and the multiplier a lowercased memory size names: a `gb`,
/// `mb`, `kb`, `g`, `m` or `k` suffix multiplies by 2^30, 2^20 or 2^10; the
/// rest, trimmed, is the number, 512 MiB where it does not read as one.
pub open spec fn memory_limit_parts(l: Seq<char>) -> (int, int) {
    let n = l.len() as int;
    let (num, mult) = if n >= 2 && l.subrange(n - 2, n) == "gb"@ {
        (l.take(n - 2), 0x4000_0000int)
    } else if n >= 2 && l.subrange(n - 2, n) == "mb"@ {
        (l.take(n - 2), 0x10_0000int)
    } else if n >= 2 && l.subrange(n - 2, n) == "kb"@ {
        (l.take(n - 2), 0x400int)
    } else if n >= 1 && l[n - 1] == 'g' {
        (l.take(n - 1), 0x4000_0000int)
    } else if n >= 1 && l[n - 1] == 'm' {
        (l.take(n - 1), 0x10_0000int)
    } else if n >= 1 && l[n - 1] == 'k' {
        (l.take(n - 1), 0x400int)
    } else {
        (l, 1int)
    };
    let v: int = match crate::text::parse_unsigned(crate::text::trim_seq(num), usize::MAX as nat) {
        Some(v) => v as int,
        None => 0x2000_0000int,
    };
    (v, mult)
}

/// The number of bytes a lowercased memory size names.
pub open spec fn memory_limit_value(l: Seq<char>) -> int {
    memory_limit_parts(l).0 * memory_limit_parts(l).1
}

/// Whether the text ends with the given suffix.
fn ends_with_text(cs: &Vec<char>, suffix: &str) -> (r: bool)
    ensures
        r == (suffix@.len() <= cs@.len() && cs@.subrange(cs@.len() - suffix@.len(), cs@.len() as int) == suffix@),
{
    let s = crate::text::chars_of(suffix);
    if s.len() > cs.len() {
        return false;
    }
    let r = crate::text::occurs_at_exec(cs.as_slice(), s.as_slice(), cs.len() - s.len());
    r
}

/// The number of bytes a lowercased memory size such as `512mb`, `1gb` or
/// `256m` names, where it fits in a `usize`.
pub fn memory_limit_from(lowered: &str) -> (r: Option<usize>)
    ensures
        memory_limit_value(lowered@) <= usize::MAX ==> r == Some(memory_limit_value(lowered@) as usize),
        memory_limit_value(lowered@) > usize::MAX ==> r is None,
{
    let cs = crate::text::chars_of(lowered);
    let n = cs.len();
    proof {
        reveal_strlit("gb");
        reveal_strlit("mb");
        reveal_strlit("kb");
    }
    let (cut, mult): (usize, usize) = if ends_with_text(&cs, "gb") {
        (2, 0x4000_0000)
    } else if ends_with_text(&cs, "mb") {
        (2, 0x10_0000)
    } else if ends_with_text(&cs, "kb") {
        (2, 0x400)
    } else if n >= 1 && cs[n - 1] == 'g' {
        (1, 0x4000_0000)
    } else if n >= 1 && cs[n - 1] == 'm' {
        (1, 0x10_0000)
    } else if n >= 1 && cs[n - 1] == 'k' {
        (1, 0x400)
    } else {
        (0, 1)
    };
    let num = crate::text::substring(cs.as_slice(), 0, n - cut);
    assert(num@ =~= memory_limit_parts_num(lowered@));
    let trimmed = crate::text::trim_text(num.as_str());
    let v: usize = match crate::text::parse_unsigned_text(trimmed.as_str(), usize::MAX as u64) {
        Some(v) => v as usize,
        None => 0x2000_0000,
    };
    assert(v == memory_limit_parts(lowered@).0);
    assert(mult == memory_limit_parts(lowered@).1);
    v.checked_mul(mult)
}

/// The number part of a lowercased memory size, before trimming.
pub open spec fn memory_limit_parts_num(l: Seq<char>) -> Seq<char> {
    let n = l.len() as int;
    if n >= 2 && (l.subrange(n - 2, n) == "gb"@ || l.subrange(n - 2, n) == "mb"@ || l.subrange(n - 2, n) == "kb"@) {
        l.take(n - 2)
    } else if n >= 1 && (l[n - 1] == 'g' || l[n - 1] == 'm' || l[n - 1] == 'k') {
        l.take(n - 1)
    } else {
        l
    }
}

/// Parse a memory limit such as "512mb", "1gb" or "256m" (case and outer
/// white space do not matter) to a number of bytes; a number that does not
/// read stands for 512 MiB. The product must fit in a `usize`.
pub fn parse_memory_limit(s: &str) -> (r: usize)
    requires
        memory_limit_value(lowercase_of(crate::text::trim_seq(s@))) <= usize::MAX,
    ensures
        r == memory_limit_value(lowercase_of(crate::text::trim_seq(s@))),
{
    let t = crate::text::trim_text(s);
    let l = to_lowercase(t.as_str());
    match memory_limit_from(l.as_str()) {
        Some(v) => v,
        None => 0,
    }
}

/// A memory limit as `parse_memory_limit` reads it, or `None` where the
/// number of bytes does not fit in a `usize`.
pub fn checked_memory_limit(s: &str) -> (r: Option<usize>)
    ensures
        memory_limit_value(lowercase_of(crate::text::trim_seq(s@))) <= usize::MAX ==> r == Some(
            memory_limit_value(lowercase_of(crate::text::trim_seq(s@))) as usize,
        ),
        memory_limit_value(lowercase_of(crate::text::trim_seq(s@))) > usize::MAX ==> r is None,
{
    let t = crate::text::trim_text(s);
    let l = to_lowercase(t.as_str());
    match memory_limit_from(l.as_str()) {
        Some(_) => Some(parse_memory_limit(s)),
        None => None,
    }
}

} // verus!

verus! {

/// The text without its trailing underscores (`trim_end_matches('_')`).
pub open spec fn strip_underscores(s: Seq<char>) -> Seq<char>
    decreases s.len(),
{
    if s.len() > 0 && s.last() == '_' {
        strip_underscores(s.drop_last())
    } else {
        s
    }
}

/// The field name of an `OFFSET_OF(Class, field_name_)` line: between the
/// first `, ` and the next `)`, trimmed and without trailing underscores.
pub open spec fn field_name_of(line: Seq<char>) -> Option<Seq<char>> {
    match crate::text::first_occurrence(line, ", "@) {
        Some(start) => {
            let rest = line.subrange(start + 2, line.len() as int);
            match crate::text::first_occurrence(rest, ")"@) {
                Some(end) => Some(strip_underscores(crate::text::trim_seq(rest.take(end)))),
                None => None,
            }
        },
        None => None,
    }
}

/// Extract the field name from `OFFSET_OF(Class, field_name_)`.
pub fn extract_field_name(line: &str) -> (r: Option<String>)
    ensures
        match field_name_of(line@) {
            Some(n) => r matches Some(x) && x@ == n,
            None => r is None,
        },
{
    let cs = crate::text::chars_of(line);
    let sep = crate::text::chars_of(", ");
    proof {
        reveal_strlit(", ");
    }
    assert(sep@.len() == 2);
    match crate::text::find_chars(cs.as_slice(), sep.as_slice()) {
        Some(start) => {
            assert(crate::text::occurs_at(cs@, sep@, start as int));
            assert(start + sep@.len() <= cs@.len());
            let n = cs.len();
            assert(start + 2 <= n);
            let rest = crate::text::substring(cs.as_slice(), start + 2, n);
            let rest_cs = crate::text::chars_of(rest.as_str());
            let close = crate::text::chars_of(")");
            match crate::text::find_chars(rest_cs.as_slice(), close.as_slice()) {
                Some(end) => {
                    let inner = crate::text::substring(rest_cs.as_slice(), 0, end);
                    assert(inner@ =~= rest@.take(end as int));
                    let t = crate::text::trim_text(inner.as_str());
                    let tc = crate::text::chars_of(t.as_str());
                    let mut k: usize = tc.len();
                    assert(t@.take(k as int) =~= t@);
                    while k > 0 && tc[k - 1] == '_'
                        invariant
                            tc@ == t@,
                            k <= tc@.len(),
                            strip_underscores(t@) == strip_underscores(t@.take(k as int)),
                        decreases k,
                    {
                        assert(t@.take(k as int).drop_last() =~= t@.take(k - 1));
                        k = k - 1;
                    }
                    let name = crate::text::substring(tc.as_slice(), 0, k);
                    assert(name@ =~= t@.take(k as int));
                    Some(name)
                },
                None => None,
            }
        },
        None => None,
    }
}

/// The pattern of a run of digits.
pub open spec fn digits_pattern() -> Seq<char> {
    "(\\d+)"@
}

/// The pattern of a size assignment.
pub open spec fn size_pattern() -> Seq<char> {
    "=\\s*(\\d+)"@
}

/// The offset in a line: its last run of digits, where it reads as a `u32`.
pub open spec fn offset_value_of(line: Seq<char>) -> Option<u32> {
    match regex_last_match_result(digits_pattern(), line) {
        Some(Some(m)) => match crate::text::parse_unsigned(m, u32::MAX as nat) {
            Some(v) => Some(v as u32),
            None => None,
        },
        _ => None,
    }
}

/// The size in a line: the digits after the first `=`, where they read as
/// a `u32`.
pub open spec fn size_value_of(line: Seq<char>) -> Option<u32> {
    match regex_captures_result(size_pattern(), line) {
        Some(Some(g)) => if g.len() > 1 && g[1] is Some {
            match crate::text::parse_unsigned(g[1]->Some_0, u32::MAX as nat) {
                Some(v) => Some(v as u32),
                None => None,
            }
        } else {
            None
        },
        _ => None,
    }
}

/// The last number in a line (likely an offset value).
pub fn extract_offset_value(line: &str) -> (r: Option<u32>)
    ensures
        r == offset_value_of(line@),
{
    let pattern = "(\\d+)";
    assert(pattern@ == digits_pattern());
    match regex_last_match(pattern, line) {
        Some(Some(m)) => match crate::text::parse_unsigned_text(m.as_str(), 0xffff_ffff) {
            Some(v) => Some(v as u32),
            None => None,
        },
        _ => None,
    }
}

/// The number assigned in a `kSize = N` line.
pub fn extract_size_value(line: &str) -> (r: Option<u32>)
    ensures
        r == size_value_of(line@),
{
    let pattern = "=\\s*(\\d+)";
    assert(pattern@ == size_pattern());
    let c = regex_captures(pattern, line);
    match c {
        Some(Some(groups)) => {
            let ghost g = groups@.map_values(|x: Option<String>| opt_string_view(x));
            assert(captures_view(c) == Some(Some(g)));
            if groups.len() > 1 {
                match &groups[1] {
                    Some(t) => match crate::text::parse_unsigned_text(t.as_str(), 0xffff_ffff) {
                        Some(v) => Some(v as u32),
                        None => None,
                    },
                    None => None,
                }
            } else {
                None
            }
        },
        _ => None,
    }
}

} // verus!

verus! {

/// The first whitespace-separated word of a text (`split_whitespace().next()`,
/// empty where there is none).
pub open spec fn first_word(s: Seq<char>) -> Seq<char> {
    word_from(crate::text::trim_start_seq(s))
}

/// The characters before the first white space.
pub open spec fn word_from(s: Seq<char>) -> Seq<char>
    decreases s.len(),
{
    if s.len() == 0 || crate::text::is_ws(s[0]) {
        Seq::empty()
    } else {
        seq![s[0]] + word_from(s.drop_first())
    }
}

/// The position of the entry for `key` among the first `k` entries, if any
/// (the first one).
pub open spec fn key_index(f: Seq<(Seq<char>, u32)>, key: Seq<char>, k: int) -> Option<int>
    decreases k,
{
    if k <= 0 || k > f.len() {
        None
    } else {
        match key_index(f, key, k - 1) {
            Some(i) => Some(i),
            None => if f[k - 1].0 == key { Some(k - 1) } else { None },
        }
    }
}

/// The fields with `key` set to `value`: the entry replaced where there is
/// one, else added at the end (a JSON object's `insert`).
pub open spec fn set_field(f: Seq<(Seq<char>, u32)>, key: Seq<char>, value: u32) -> Seq<(Seq<char>, u32)> {
    match key_index(f, key, f.len() as int) {
        Some(i) => f.update(i, (key, value)),
        None => f.push((key, value)),
    }
}

/// The state of the reader of `raw_object.h`.
pub struct RawState {
    pub layouts: Seq<(Seq<char>, Seq<(Seq<char>, u32)>)>,
    pub class: Seq<char>,
    pub fields: Seq<(Seq<char>, u32)>,
    pub in_class: bool,
}

/// The state after a class is closed: its layout recorded where it has a
/// name.
pub open spec fn close_class(st: RawState) -> Seq<(Seq<char>, Seq<(Seq<char>, u32)>)> {
    if st.class.len() > 0 { st.layouts.push((st.class, st.fields)) } else { st.layouts }
}

/// A `class Raw... : ... {` line opens a class, closing the one open.
pub open spec fn raw_open(st: RawState, t: Seq<char>) -> RawState {
    if crate::text::starts_with_seq(t, "class Raw"@) && crate::text::contains_seq(t, ":"@)
        && crate::text::contains_seq(t, "{"@) {
        RawState {
            layouts: if st.in_class { close_class(st) } else { st.layouts },
            class: first_word(t.subrange(6, t.len() as int)),
            fields: Seq::empty(),
            in_class: true,
        }
    } else {
        st
    }
}

/// Inside a class, an `OFFSET_OF` line sets `<field>_offset`.
pub open spec fn raw_offset(st: RawState, t: Seq<char>) -> RawState {
    if st.in_class && crate::text::contains_seq(t, "OFFSET_OF"@) {
        match (offset_value_of(t), field_name_of(t)) {
            (Some(off), Some(name)) => RawState { fields: set_field(st.fields, name + "_offset"@, off), ..st },
            _ => st,
        }
    } else {
        st
    }
}

/// Inside a class, a `kSize = N` line sets `size`.
pub open spec fn raw_size(st: RawState, t: Seq<char>) -> RawState {
    if st.in_class && crate::text::contains_seq(t, "kSize"@) && crate::text::contains_seq(t, "="@) {
        match size_value_of(t) {
            Some(size) => RawState { fields: set_field(st.fields, "size"@, size), ..st },
            None => st,
        }
    } else {
        st
    }
}

/// Inside a class, `};` closes it.
pub open spec fn raw_close(st: RawState, t: Seq<char>) -> RawState {
    if st.in_class && t == "};"@ {
        RawState { layouts: close_class(st), class: Seq::empty(), fields: Seq::empty(), in_class: false }
    } else {
        st
    }
}

/// One line of `raw_object.h`, trimmed, through the four rules in turn.
pub open spec fn raw_step(st: RawState, line: Seq<char>) -> RawState {
    let t = crate::text::trim_seq(line);
    raw_close(raw_size(raw_offset(raw_open(st, t), t), t), t)
}

/// The state after the first `k` lines.
pub open spec fn raw_fold(lines: Seq<Seq<char>>, k: int) -> RawState
    decreases k,
{
    if k <= 0 || k > lines.len() {
        RawState { layouts: Seq::empty(), class: Seq::empty(), fields: Seq::empty(), in_class: false }
    } else {
        raw_step(raw_fold(lines, k - 1), lines[k - 1])
    }
}

/// The class layouts `raw_object.h` describes, in the order the classes
/// close.
pub open spec fn raw_layouts(content: Seq<char>) -> Seq<(Seq<char>, Seq<(Seq<char>, u32)>)> {
    raw_fold(crate::text::lines_of(content), crate::text::lines_of(content).len() as int).layouts
}

/// The view of a list of fields.
pub open spec fn fields_view(f: Seq<(String, u32)>) -> Seq<(Seq<char>, u32)> {
    f.map_values(|e: (String, u32)| (e.0@, e.1))
}

/// The view of a list of layouts.
pub open spec fn layouts_view(l: Seq<(String, Vec<(String, u32)>)>) -> Seq<(Seq<char>, Seq<(Seq<char>, u32)>)> {
    l.map_values(|e: (String, Vec<(String, u32)>)| (e.0@, fields_view(e.1@)))
}

/// A copy of a list of fields.
fn copy_fields(f: &Vec<(String, u32)>) -> (r: Vec<(String, u32)>)
    ensures
        fields_view(r@) == fields_view(f@),
{
    let mut r: Vec<(String, u32)> = Vec::new();
    let mut i: usize = 0;
    while i < f.len()
        invariant
            i <= f@.len(),
            fields_view(r@) == fields_view(f@.take(i as int)),
        decreases f@.len() - i,
    {
        let e = &f[i];
        let k = e.0.clone();
        let ghost before = r@;
        r.push((k, e.1));
        assert(r@ == before.push((k, e.1)));
        assert(fields_view(r@) =~= fields_view(before).push((k@, e.1)));
        assert(f@.take(i + 1) =~= f@.take(i as int).push(f@[i as int]));
        assert(fields_view(f@.take(i + 1)) =~= fields_view(f@.take(i as int)).push((f@[i as int].0@, f@[i as int].1)));
        assert(fields_view(r@) =~= fields_view(f@.take(i + 1)));
        i = i + 1;
    }
    assert(f@.take(i as int) =~= f@);
    r
}

/// Sets a field, replacing its entry where there is one.
fn set_field_exec(f: &mut Vec<(String, u32)>, key: String, value: u32)
    ensures
        fields_view(final(f)@) == set_field(fields_view(old(f)@), key@, value),
{
    let ghost fv = fields_view(f@);
    let mut i: usize = 0;
    while i < f.len()
        invariant
            i <= f@.len(),
            fv == fields_view(f@),
            f@ == old(f)@,
            key_index(fv, key@, i as int) is None,
        decreases f@.len() - i,
    {
        if crate::text::str_eq(f[i].0.as_str(), key.as_str()) {
            proof {
                assert(fv[i as int].0 == key@);
                lemma_key_index_found(fv, key@, i as int, fv.len() as int);
            }
            f.set(i, (key, value));
            assert(fields_view(f@) =~= fv.update(i as int, (key@, value)));
            return;
        }
        i = i + 1;
    }
    f.push((key, value));
    assert(fields_view(f@) =~= fv.push((key@, value)));
}

proof fn lemma_key_index_found(f: Seq<(Seq<char>, u32)>, key: Seq<char>, i: int, k: int)
    requires
        0 <= i < k <= f.len(),
        key_index(f, key, i) is None,
        f[i].0 == key,
    ensures
        key_index(f, key, k) == Some(i),
    decreases k,
{
    if k > i + 1 {
        lemma_key_index_found(f, key, i, k - 1);
    }
}

/// The first whitespace-separated word of a text.
fn first_word_exec(s: &str) -> (r: String)
    ensures
        r@ == first_word(s@),
{
    let cs = crate::text::chars_of(s);
    let mut i: usize = 0;
    assert(s@.subrange(0, s@.len() as int) =~= s@);
    while i < cs.len() && crate::text::char_is_ws(cs[i])
        invariant
            cs@ == s@,
            i <= cs@.len(),
            crate::text::trim_start_seq(s@) == crate::text::trim_start_seq(s@.subrange(i as int, s@.len() as int)),
        decreases cs@.len() - i,
    {
        assert(s@.subrange(i as int, s@.len() as int).drop_first() =~= s@.subrange(i + 1, s@.len() as int));
        i = i + 1;
    }
    assert(s@.subrange(0, s@.len() as int) =~= s@);
    let ghost rest = s@.subrange(i as int, s@.len() as int);
    assert(crate::text::trim_start_seq(s@) == rest);
    let mut j: usize = i;
    while j < cs.len() && !crate::text::char_is_ws(cs[j])
        invariant
            cs@ == s@,
            i <= j <= cs@.len(),
            rest == s@.subrange(i as int, s@.len() as int),
            word_from(rest) == s@.subrange(i as int, j as int) + word_from(s@.subrange(j as int, s@.len() as int)),
        decreases cs@.len() - j,
    {
        assert(s@.subrange(j as int, s@.len() as int).drop_first() =~= s@.subrange(j + 1, s@.len() as int));
        assert(s@.subrange(i as int, j + 1) =~= s@.subrange(i as int, j as int).push(cs@[j as int]));
        j = j + 1;
    }
    let r = crate::text::substring(cs.as_slice(), i, j);
    assert(word_from(s@.subrange(j as int, s@.len() as int)) =~= Seq::<char>::empty());
    assert(r@ =~= first_word(s@));
    r
}

/// The reader of `raw_object.h` as it goes through the lines.
struct RawReader {
    layouts: Vec<(String, Vec<(String, u32)>)>,
    class: String,
    fields: Vec<(String, u32)>,
    in_class: bool,
}

impl RawReader {
    spec fn state(&self) -> RawState {
        RawState {
            layouts: layouts_view(self.layouts@),
            class: self.class@,
            fields: fields_view(self.fields@),
            in_class: self.in_class,
        }
    }

    fn close_current(&mut self)
        ensures
            final(self).layouts@.len() >= 0,
            layouts_view(final(self).layouts@) == close_class(old(self).state()),
            final(self).class@ == old(self).class@,
            fields_view(final(self).fields@) == fields_view(old(self).fields@),
            final(self).in_class == old(self).in_class,
    {
        if !self.class.as_str().is_empty() {
            let ghost before = layouts_view(self.layouts@);
            let entry = (self.class.clone(), copy_fields(&self.fields));
            self.layouts.push(entry);
            assert(layouts_view(self.layouts@) =~= before.push((self.class@, fields_view(self.fields@))));
        }
    }

    fn open(&mut self, t: &str)
        ensures
            final(self).state() == raw_open(old(self).state(), t@),
    {
        if crate::text::str_starts_with(t, "class Raw") && crate::text::str_contains(t, ":")
            && crate::text::str_contains(t, "{") {
            if self.in_class {
                self.close_current();
            }
            let tc = crate::text::chars_of(t);
            proof {
                reveal_strlit("class Raw");
            }
            let after = crate::text::substring(tc.as_slice(), 6, tc.len());
            self.class = first_word_exec(after.as_str());
            self.fields = Vec::new();
            self.in_class = true;
            assert(fields_view(self.fields@) =~= Seq::<(Seq<char>, u32)>::empty());
        }
    }

    fn offset_line(&mut self, t: &str)
        ensures
            final(self).state() == raw_offset(old(self).state(), t@),
    {
        if self.in_class && crate::text::str_contains(t, "OFFSET_OF") {
            match extract_offset_value(t) {
                Some(off) => match extract_field_name(t) {
                    Some(name) => {
                        let mut key = name;
                        crate::text::push_str(&mut key, "_offset");
                        set_field_exec(&mut self.fields, key, off);
                    },
                    None => {},
                },
                None => {},
            }
        }
    }

    fn size_line(&mut self, t: &str)
        ensures
            final(self).state() == raw_size(old(self).state(), t@),
    {
        if self.in_class && crate::text::str_contains(t, "kSize") && crate::text::str_contains(t, "=") {
            match extract_size_value(t) {
                Some(size) => {
                    set_field_exec(&mut self.fields, crate::text::owned("size"), size);
                },
                None => {},
            }
        }
    }

    fn close_line(&mut self, t: &str)
        ensures
            final(self).state() == raw_close(old(self).state(), t@),
    {
        if self.in_class && crate::text::str_eq(t, "};") {
            self.close_current();
            self.in_class = false;
            self.class = String::new();
            self.fields = Vec::new();
            assert(fields_view(self.fields@) =~= Seq::<(Seq<char>, u32)>::empty());
        }
    }
}

/// Parse C++ `raw_object.h` to extract class layouts: for each class, its
/// fields' offsets and its size.
pub fn parse_raw_object_h(content: &str) -> (r: Vec<(String, Vec<(String, u32)>)>)
    ensures
        layouts_view(r@) == raw_layouts(content@),
{
    let lines = crate::text::text_lines(content);
    let ghost ls = crate::text::lines_of(content@);
    let mut reader = RawReader { layouts: Vec::new(), class: String::new(), fields: Vec::new(), in_class: false };
    assert(layouts_view(reader.layouts@) =~= Seq::<(Seq<char>, Seq<(Seq<char>, u32)>)>::empty());
    assert(fields_view(reader.fields@) =~= Seq::<(Seq<char>, u32)>::empty());
    let mut i: usize = 0;
    while i < lines.len()
        invariant
            i <= lines@.len(),
            crate::text::string_views(lines@) == ls,
            raw_fold(ls, i as int) == reader.state(),
        decreases lines@.len() - i,
    {
        assert(ls[i as int] == lines@[i as int]@);
        let t = crate::text::trim_text(lines[i].as_str());
        reader.open(t.as_str());
        reader.offset_line(t.as_str());
        reader.size_line(t.as_str());
        reader.close_line(t.as_str());
        i = i + 1;
    }
    reader.layouts
}


/// The pattern of a class id assignment such as `kOneByteStringCid = 78`.
pub open spec fn cid_pattern() -> Seq<char> {
    "k(\\w+)Cid\\s*=\\s*(\\d+)"@
}

/// A `V(ClassName)` line adds the class with the next id (the number of
/// classes so far, modulo 2^16).
pub open spec fn cid_list_step(ids: Seq<(Seq<char>, u16)>, t: Seq<char>) -> Seq<(Seq<char>, u16)> {
    if crate::text::starts_with_seq(t, "V("@) && crate::text::ends_with_seq(t, ")"@) && t.len() >= 3 {
        let name = t.subrange(2, t.len() - 1);
        if name.len() > 0 { ids.push((name, (ids.len() % 0x10000) as u16)) } else { ids }
    } else {
        ids
    }
}

/// A `kNameCid = N` line adds the class `Name` with id `N`, where the name
/// is not empty and `N` reads as a non-zero `u16`.
pub open spec fn cid_assign_step(ids: Seq<(Seq<char>, u16)>, t: Seq<char>) -> Seq<(Seq<char>, u16)> {
    if crate::text::starts_with_seq(t, "k"@) && crate::text::contains_seq(t, "Cid"@) && crate::text::contains_seq(t, "="@) {
        match regex_captures_result(cid_pattern(), t) {
            Some(Some(g)) => {
                let name = if g.len() > 1 && g[1] is Some { g[1]->Some_0 } else { Seq::empty() };
                let id: nat = if g.len() > 2 && g[2] is Some {
                    match crate::text::parse_unsigned(g[2]->Some_0, 0xffff) {
                        Some(v) => v,
                        None => 0,
                    }
                } else {
                    0
                };
                if name.len() > 0 && id > 0 { ids.push((name, id as u16)) } else { ids }
            },
            _ => ids,
        }
    } else {
        ids
    }
}

/// The class ids after the first `k` lines.
pub open spec fn cid_fold(lines: Seq<Seq<char>>, k: int) -> Seq<(Seq<char>, u16)>
    decreases k,
{
    if k <= 0 || k > lines.len() {
        Seq::empty()
    } else {
        let t = crate::text::trim_seq(lines[k - 1]);
        cid_assign_step(cid_list_step(cid_fold(lines, k - 1), t), t)
    }
}

/// The view of a list of class ids.
pub open spec fn ids_view(v: Seq<(String, u16)>) -> Seq<(Seq<char>, u16)> {
    v.map_values(|e: (String, u16)| (e.0@, e.1))
}

fn cid_list_exec(ids: &mut Vec<(String, u16)>, t: &str)
    ensures
        ids_view(final(ids)@) == cid_list_step(ids_view(old(ids)@), t@),
{
    let tc = crate::text::chars_of(t);
    if crate::text::str_starts_with(t, "V(") && crate::text::str_ends_with(t, ")") && tc.len() >= 3 {
        let name = crate::text::substring(tc.as_slice(), 2, tc.len() - 1);
        if !name.as_str().is_empty() {
            let id = (ids.len() % 0x10000) as u16;
            let ghost before = ids_view(ids@);
            ids.push((name, id));
            assert(ids_view(ids@) =~= before.push((name@, id)));
        }
    }
}

fn cid_assign_exec(ids: &mut Vec<(String, u16)>, t: &str)
    ensures
        ids_view(final(ids)@) == cid_assign_step(ids_view(old(ids)@), t@),
{
    if crate::text::str_starts_with(t, "k") && crate::text::str_contains(t, "Cid") && crate::text::str_contains(t, "=") {
        let pattern = "k(\\w+)Cid\\s*=\\s*(\\d+)";
        assert(pattern@ == cid_pattern());
        let c = regex_captures(pattern, t);
        match c {
            Some(Some(groups)) => {
                let ghost g = groups@.map_values(|x: Option<String>| opt_string_view(x));
                assert(captures_view(c) == Some(Some(g)));
                let name = if groups.len() > 1 {
                    match &groups[1] {
                        Some(n) => n.clone(),
                        None => String::new(),
                    }
                } else {
                    String::new()
                };
                let id: u64 = if groups.len() > 2 {
                    match &groups[2] {
                        Some(d) => match crate::text::parse_unsigned_text(d.as_str(), 0xffff) {
                            Some(v) => v,
                            None => 0,
                        },
                        None => 0,
                    }
                } else {
                    0
                };
                if !name.as_str().is_empty() && id > 0 {
                    let ghost before = ids_view(ids@);
                    ids.push((name, id as u16));
                    assert(ids_view(ids@) =~= before.push((name@, id as u16)));
                }
            },
            _ => {},
        }
    }
}

/// Parse `class_id.h` to extract class ids: `V(Name)` lines number the
/// classes in order; `kNameCid = N` lines give ids outright.
pub fn parse_class_id_h(content: &str) -> (r: Vec<(String, u16)>)
    ensures
        ids_view(r@) == cid_fold(crate::text::lines_of(content@), crate::text::lines_of(content@).len() as int),
{
    let lines = crate::text::text_lines(content);
    let ghost ls = crate::text::lines_of(content@);
    let mut ids: Vec<(String, u16)> = Vec::new();
    assert(ids_view(ids@) =~= Seq::<(Seq<char>, u16)>::empty());
    let mut i: usize = 0;
    while i < lines.len()
        invariant
            i <= lines@.len(),
            crate::text::string_views(lines@) == ls,
            ids_view(ids@) == cid_fold(ls, i as int),
        decreases lines@.len() - i,
    {
        assert(ls[i as int] == lines@[i as int]@);
        let t = crate::text::trim_text(lines[i].as_str());
        cid_list_exec(&mut ids, t.as_str());
        cid_assign_exec(&mut ids, t.as_str());
        i = i + 1;
    }
    ids
}

/// The parts of a text split at each `.` (`str::split('.')`), from
/// position `i` on.
pub open spec fn dot_parts_from(s: Seq<char>, i: int) -> Seq<Seq<char>>
    decreases s.len() + 1 - i,
{
    if i < 0 || i > s.len() {
        Seq::empty()
    } else {
        let e = next_dot(s, i);
        proof {
            lemma_next_dot(s, i);
        }
        seq![s.subrange(i, e)] + dot_parts_from(s, e + 1)
    }
}

/// The position of the first `.` at or after `i`, or the length.
pub open spec fn next_dot(s: Seq<char>, i: int) -> int
    decreases s.len() - i,
{
    if i < 0 || i >= s.len() {
        s.len() as int
    } else if s[i] == '.' {
        i
    } else {
        next_dot(s, i + 1)
    }
}

/// A found dot lies between `i` and the end.
pub proof fn lemma_next_dot(s: Seq<char>, i: int)
    requires
        0 <= i <= s.len(),
    ensures
        i <= next_dot(s, i) <= s.len(),
    decreases s.len() - i,
{
    if i < s.len() && s[i] != '.' {
        lemma_next_dot(s, i + 1);
    }
}

/// A version tag such as `3.2.0` split at its dots, where it has at least
/// three parts (`X.Y.Z`); `None` otherwise.
pub fn split_version_tag(tag: &str) -> (r: Option<Vec<String>>)
    ensures
        dot_parts_from(tag@, 0).len() >= 3 ==> (r matches Some(v) && crate::text::string_views(v@) == dot_parts_from(tag@, 0)),
        dot_parts_from(tag@, 0).len() < 3 ==> r is None,
{
    let cs = crate::text::chars_of(tag);
    let n = cs.len();
    let mut parts: Vec<String> = Vec::new();
    let mut i: usize = 0;
    loop
        invariant_except_break
            cs@ == tag@,
            n == cs@.len(),
            i <= n,
            crate::text::string_views(parts@) + dot_parts_from(tag@, i as int) == dot_parts_from(tag@, 0),
        ensures
            crate::text::string_views(parts@) == dot_parts_from(tag@, 0),
        decreases n - i,
    {
        let mut e: usize = i;
        while e < n && cs[e] != '.'
            invariant
                cs@ == tag@,
                n == cs@.len(),
                i <= e <= n,
                next_dot(tag@, i as int) == next_dot(tag@, e as int),
            decreases n - e,
        {
            e = e + 1;
        }
        proof {
            lemma_next_dot(tag@, i as int);
        }
        let part = crate::text::substring(cs.as_slice(), i, e);
        let ghost before = crate::text::string_views(parts@);
        parts.push(part);
        assert(crate::text::string_views(parts@) =~= before.push(tag@.subrange(i as int, e as int)));
        assert(dot_parts_from(tag@, i as int) == seq![tag@.subrange(i as int, e as int)] + dot_parts_from(tag@, e + 1));
        assert(crate::text::string_views(parts@) + dot_parts_from(tag@, e + 1) =~= before + dot_parts_from(tag@, i as int));
        if e >= n {
            assert(dot_parts_from(tag@, e + 1) == Seq::<Seq<char>>::empty());
            assert(crate::text::string_views(parts@) =~= dot_parts_from(tag@, 0));
            break;
        }
        i = e + 1;
    }
    if parts.len() < 3 {
        return None;
    }
    Some(parts)
}

/// The outcome of decompiling one function.
pub struct DecompResult {
    pub success: bool,
    pub func_name: String,
    pub ir_len: usize,
    pub calls_to: Vec<u64>,
}

/// The outcome of decompiling a function: on success the IR length and the
/// call targets, on failure nothing but the name.
pub fn decomp_result(func_name: &String, r: Result<(usize, Vec<u64>), DecompileError>) -> (d: DecompResult)
    ensures
        d.func_name@ == func_name@,
        match r {
            Ok((n, calls)) => d.success && d.ir_len == n && d.calls_to@ == calls@,
            Err(_) => !d.success && d.ir_len == 0 && d.calls_to@.len() == 0,
        },
{
    match r {
        Ok((ir_len, calls)) => DecompResult { success: true, func_name: func_name.clone(), ir_len, calls_to: calls },
        Err(_) => DecompResult { success: false, func_name: func_name.clone(), ir_len: 0, calls_to: Vec::new() },
    }
}

/// The number of successes among the first `k` results.
pub open spec fn successes(r: Seq<DecompResult>, k: int) -> nat
    decreases k,
{
    if k <= 0 || k > r.len() { 0 } else { successes(r, k - 1) + if r[k - 1].success { 1nat } else { 0nat } }
}

/// The numbers of functions decompiled and failed.
pub fn count_outcomes(results: &[DecompResult]) -> (r: (usize, usize))
    ensures
        r.0 == successes(results@, results@.len() as int),
        r.0 + r.1 == results@.len(),
{
    let mut ok: usize = 0;
    let mut failed: usize = 0;
    let mut i: usize = 0;
    while i < results.len()
        invariant
            i <= results@.len(),
            ok == successes(results@, i as int),
            ok + failed == i,
        decreases results@.len() - i,
    {
        if results[i].success {
            ok = ok + 1;
        } else {
            failed = failed + 1;
        }
        i = i + 1;
    }
    (ok, failed)
}

/// The cross-references of the first `k` results: each call target paired
/// with the caller's name, in order.
pub open spec fn result_xrefs(r: Seq<DecompResult>, k: int) -> Seq<(Seq<char>, u64)>
    decreases k,
{
    if k <= 0 || k > r.len() {
        Seq::empty()
    } else {
        result_xrefs(r, k - 1) + r[k - 1].calls_to@.map_values(|t: u64| (r[k - 1].func_name@, t))
    }
}

/// The views of a list of cross-references.
pub open spec fn xref_views(v: Seq<(String, u64)>) -> Seq<(Seq<char>, u64)> {
    v.map_values(|e: (String, u64)| (e.0@, e.1))
}

/// Collect the cross-references from the decompilation results.
pub fn collect_xrefs(results: &[DecompResult]) -> (r: Vec<(String, u64)>)
    ensures
        xref_views(r@) == result_xrefs(results@, results@.len() as int),
{
    let mut xrefs: Vec<(String, u64)> = Vec::new();
    let mut i: usize = 0;
    while i < results.len()
        invariant
            i <= results@.len(),
            xref_views(xrefs@) == result_xrefs(results@, i as int),
        decreases results@.len() - i,
    {
        let res = &results[i];
        let ghost base = xref_views(xrefs@);
        let mut j: usize = 0;
        while j < res.calls_to.len()
            invariant
                j <= res.calls_to@.len(),
                xref_views(xrefs@) == base + res.calls_to@.take(j as int).map_values(|t: u64| (res.func_name@, t)),
            decreases res.calls_to@.len() - j,
        {
            let ghost before = xrefs@;
            let name = res.func_name.clone();
            xrefs.push((name, res.calls_to[j]));
            assert(xrefs@ == before.push((name, res.calls_to@[j as int])));
            assert(xref_views(xrefs@) =~= xref_views(before).push((name@, res.calls_to@[j as int])));
            assert(res.calls_to@.take(j + 1).map_values(|t: u64| (res.func_name@, t))
                =~= res.calls_to@.take(j as int).map_values(|t: u64| (res.func_name@, t)).push((res.func_name@, res.calls_to@[j as int])));
            j = j + 1;
        }
        assert(res.calls_to@.take(j as int) =~= res.calls_to@);
        i = i + 1;
    }
    xrefs
}

/// The CSV line of a class: name, superclass address (empty where there is
/// none), whether abstract, number of functions, number of fields.
pub open spec fn class_csv_text(c: crate::snapshot::DartClass) -> Seq<char> {
    c.name@ + ","@ + (match c.super_class {
        Some(a) => crate::snapshot::addr_text(a),
        None => Seq::empty(),
    }) + ","@ + (if c.is_abstract { "true"@ } else { "false"@ }) + ","@ + crate::text::decimal_seq(
        c.functions@.len(),
    ) + ","@ + crate::text::decimal_seq(c.fields@.len())
}

/// The CSV line of a class.
pub fn class_csv_row(c: &crate::snapshot::DartClass) -> (r: String)
    ensures
        r@ == class_csv_text(*c),
{
    let mut s = c.name.clone();
    crate::text::push_str(&mut s, ",");
    match &c.super_class {
        Some(a) => a.write_to(&mut s),
        None => {},
    }
    crate::text::push_str(&mut s, ",");
    crate::text::push_str(&mut s, if c.is_abstract { "true" } else { "false" });
    crate::text::push_str(&mut s, ",");
    crate::text::push_decimal(&mut s, c.functions.len() as u64);
    crate::text::push_str(&mut s, ",");
    crate::text::push_decimal(&mut s, c.fields.len() as u64);
    assert(s@ =~= class_csv_text(*c));
    s
}

/// `s` padded on the right with spaces up to `width` characters.
pub open spec fn pad_right(s: Seq<char>, width: nat) -> Seq<char> {
    if s.len() >= width { s } else { s + Seq::new((width - s.len()) as nat, |i: int| ' ') }
}

/// The line `info` prints for a section: its name in 40 columns, its
/// address in at least eight hexadecimal digits, its size, and `X` / `W`
/// for executable / writable (`-` otherwise).
pub open spec fn section_line_text(s: crate::binary::sections::SectionInfo) -> Seq<char> {
    "    "@ + pad_right(s.name@, 40) + " addr=0x"@ + crate::text::pad_left(crate::text::hex_seq(s.virtual_addr as nat), '0', 8)
        + " size=0x"@ + crate::text::hex_seq(s.size as nat) + " "@ + (if s.is_executable { "X"@ } else { "-"@ })
        + (if s.is_writable { "W"@ } else { "-"@ })
}

/// The line `info` prints for a section.
pub fn section_line(s: &crate::binary::sections::SectionInfo) -> (r: String)
    ensures
        r@ == section_line_text(*s),
{
    let mut out = owned("    ");
    crate::text::push_str(&mut out, s.name.as_str());
    let n = s.name.as_str().unicode_len();
    if n < 40 {
        crate::text::push_repeated(&mut out, ' ', 40 - n);
    }
    assert(out@ =~= "    "@ + pad_right(s.name@, 40));
    crate::text::push_str(&mut out, " addr=0x");
    let mut digits = String::new();
    crate::text::push_hex(&mut digits, s.virtual_addr);
    let d = digits.as_str().unicode_len();
    if d < 8 {
        crate::text::push_repeated(&mut out, '0', 8 - d);
    }
    crate::text::push_str(&mut out, digits.as_str());
    crate::text::push_str(&mut out, " size=0x");
    crate::text::push_hex(&mut out, s.size);
    crate::text::push_str(&mut out, " ");
    crate::text::push_str(&mut out, if s.is_executable { "X" } else { "-" });
    crate::text::push_str(&mut out, if s.is_writable { "W" } else { "-" });
    assert(out@ =~= section_line_text(*s));
    out
}
} // verus!
