use super::ast::{MastBlock, MastCastKind, MastExpr, MastExprKind};
use crate::utils::Span;
use crate::parser::ast::{BinaryOperator, DataLiteralKind, Expr, ExprKind, StructFieldInit, UnaryOperator};
use crate::utils::{concat3, symbol_text, text_eq, Interner, SymbolId};
use crate::parser::escape::{chars_of, string_of};
use crate::sema::typeck::const_eval::spec_primitive_size;
use crate::sema::typeck::const_eval::primitive_size;
use crate::sema::ty::{refs_below, PrimitiveType, TypeId, TypeKind, TypeRegistry, TypeShape};
use vstd::prelude::*;

verus! {

// Pieces of lowering to the monomorphized AST: the LLVM kind of a cast and
// the constraint string of inline assembly.

/// The stored shape is a pointer or a volatile pointer.
pub open spec fn is_pointer_type(reg: &TypeRegistry, id: TypeId) -> bool {
    reg@[id.0 as int] is Pointer || reg@[id.0 as int] is VolatilePtr
}

/// Size in bytes of an integer type (the size of its primitive).
pub open spec fn int_size(reg: &TypeRegistry, id: TypeId, pointer_size: u64) -> u64 {
    match reg.normalized_shape(id) {
        TypeShape::Primitive(p) => spec_primitive_size(p, pointer_size),
        _ => 0,
    }
}

/// The integer type is signed.
pub open spec fn is_signed_int(reg: &TypeRegistry, id: TypeId) -> bool {
    match reg@[id.0 as int] {
        TypeShape::Primitive(p) => p == PrimitiveType::I8 || p == PrimitiveType::I16 || p
            == PrimitiveType::I32 || p == PrimitiveType::I64 || p == PrimitiveType::I128 || p
            == PrimitiveType::ISize,
        _ => false,
    }
}

/// The conversion between two integer types: narrowing truncates, widening
/// extends by the sign of the target, equal sizes keep the bits.
pub open spec fn int_cast_kind(reg: &TypeRegistry, from: TypeId, to: TypeId, pointer_size: u64) -> MastCastKind {
    let fs = int_size(reg, from, pointer_size);
    let ts = int_size(reg, to, pointer_size);
    if fs > ts {
        MastCastKind::Trunc
    } else if fs < ts {
        if is_signed_int(reg, to) {
            MastCastKind::SignExt
        } else {
            MastCastKind::ZeroExt
        }
    } else {
        MastCastKind::Bitcast
    }
}

/// The LLVM conversion that an `as` between `from` and `to` becomes:
/// between pointers a bitcast, between pointers and integers the matching
/// conversion, between integers by their sizes, and a bitcast otherwise.
pub open spec fn cast_kind(reg: &TypeRegistry, from: TypeId, to: TypeId, pointer_size: u64) -> MastCastKind {
    let f = reg.spec_normalize(from);
    let t = reg.spec_normalize(to);
    let fi = reg.spec_is_integer(f);
    let ti = reg.spec_is_integer(t);
    let fp = is_pointer_type(reg, f);
    let tp = is_pointer_type(reg, t);
    if fp && tp {
        MastCastKind::Bitcast
    } else if fi && tp {
        MastCastKind::IntToPtr
    } else if fp && ti {
        MastCastKind::PtrToInt
    } else if fi && ti {
        int_cast_kind(reg, f, t, pointer_size)
    } else {
        MastCastKind::Bitcast
    }
}

fn is_pointer_kind(reg: &TypeRegistry, id: TypeId) -> (r: bool)
    requires
        reg.contains(id),
    ensures
        r == is_pointer_type(reg, id),
{
    match reg.get(id) {
        TypeKind::Pointer(_) | TypeKind::VolatilePtr(_) => true,
        _ => false,
    }
}

fn type_int_size(reg: &TypeRegistry, id: TypeId, pointer_size: u64) -> (r: u64)
    requires
        reg.wf(),
        reg.contains(id),
    ensures
        r == int_size(reg, id, pointer_size),
{
    let n = reg.normalize(id);
    match reg.get(n) {
        TypeKind::Primitive(p) => primitive_size(*p, pointer_size),
        _ => 0,
    }
}

/// The conversion between two integer types.
pub fn determine_int_cast_kind(reg: &TypeRegistry, from: TypeId, to: TypeId, pointer_size: u64) -> (r: MastCastKind)
    requires
        reg.wf(),
        reg.contains(from),
        reg.contains(to),
    ensures
        r == int_cast_kind(reg, from, to, pointer_size),
{
    let fs = type_int_size(reg, from, pointer_size);
    let ts = type_int_size(reg, to, pointer_size);
    if fs > ts {
        MastCastKind::Trunc
    } else if fs < ts {
        let signed = match reg.get(to) {
            TypeKind::Primitive(p) => match p {
                PrimitiveType::I8 | PrimitiveType::I16 | PrimitiveType::I32 | PrimitiveType::I64
                | PrimitiveType::I128 | PrimitiveType::ISize => true,
                _ => false,
            },
            _ => false,
        };
        if signed {
            MastCastKind::SignExt
        } else {
            MastCastKind::ZeroExt
        }
    } else {
        MastCastKind::Bitcast
    }
}

/// The LLVM conversion of the cast `from as to` on a target with the given
/// pointer size.
pub fn determine_cast_kind(reg: &TypeRegistry, from: TypeId, to: TypeId, pointer_size: u64) -> (r: MastCastKind)
    requires
        reg.wf(),
        reg.contains(from),
        reg.contains(to),
    ensures
        r == cast_kind(reg, from, to, pointer_size),
{
    let f = reg.normalize(from);
    let t = reg.normalize(to);
    let fi = reg.is_integer(f);
    let ti = reg.is_integer(t);
    let fp = is_pointer_kind(reg, f);
    let tp = is_pointer_kind(reg, t);
    if fp && tp {
        return MastCastKind::Bitcast;
    }
    if fi && tp {
        return MastCastKind::IntToPtr;
    }
    if fp && ti {
        return MastCastKind::PtrToInt;
    }
    if fi && ti {
        return determine_int_cast_kind(reg, f, t, pointer_size);
    }
    MastCastKind::Bitcast
}

/// The constraint of an assembly output in register `reg`: `=r` for any
/// general register, `=f` for any float register, `={name}` for a named one.
pub open spec fn output_constraint(reg: Seq<char>) -> Seq<char> {
    if reg == "reg"@ {
        "=r"@
    } else if reg == "freg"@ {
        "=f"@
    } else {
        "={"@ + reg + "}"@
    }
}

/// The constraint of an assembly input in register `reg`: `r`, `f` or
/// `{name}`.
pub open spec fn input_constraint(reg: Seq<char>) -> Seq<char> {
    if reg == "reg"@ {
        "r"@
    } else if reg == "freg"@ {
        "f"@
    } else {
        "{"@ + reg + "}"@
    }
}

/// The constraint that says the assembly clobbers `what`.
pub open spec fn clobber_constraint(what: Seq<char>) -> Seq<char> {
    "~{"@ + what + "}"@
}

/// The parts with `sep` between each two.
pub open spec fn join(parts: Seq<Seq<char>>, sep: Seq<char>) -> Seq<char>
    decreases parts.len(),
{
    if parts.len() == 0 {
        Seq::empty()
    } else if parts.len() == 1 {
        parts[0]
    } else {
        join(parts.drop_last(), sep) + sep + parts.last()
    }
}

/// The constraint string of an assembly block: the outputs, then the
/// inputs, then the clobbers, separated by commas.
pub open spec fn asm_constraints(outputs: Seq<Seq<char>>, inputs: Seq<Seq<char>>, clobbers: Seq<Seq<char>>) -> Seq<char> {
    join(
        outputs.map_values(|r: Seq<char>| output_constraint(r)) + inputs.map_values(
            |r: Seq<char>| input_constraint(r),
        ) + clobbers.map_values(|c: Seq<char>| clobber_constraint(c)),
        ","@,
    )
}

/// The views of a list of strings.
pub open spec fn texts(v: Seq<String>) -> Seq<Seq<char>> {
    v.map_values(|s: String| s@)
}

pub fn asm_output_constraint(reg: &str) -> (r: String)
    ensures
        r@ == output_constraint(reg@),
{
    if text_eq(reg, "reg") {
        "=r".to_owned()
    } else if text_eq(reg, "freg") {
        "=f".to_owned()
    } else {
        concat3("={", reg, "}")
    }
}

pub fn asm_input_constraint(reg: &str) -> (r: String)
    ensures
        r@ == input_constraint(reg@),
{
    if text_eq(reg, "reg") {
        "r".to_owned()
    } else if text_eq(reg, "freg") {
        "f".to_owned()
    } else {
        concat3("{", reg, "}")
    }
}

pub fn asm_clobber_constraint(what: &str) -> (r: String)
    ensures
        r@ == clobber_constraint(what@),
{
    concat3("~{", what, "}")
}

/// The parts with `sep` between each two.
pub fn join_strings(parts: &Vec<String>, sep: &str) -> (r: String)
    ensures
        r@ == join(texts(parts@), sep@),
{
    let sep_chars = chars_of(sep);
    let mut out: Vec<char> = Vec::new();
    let mut i: usize = 0;
    while i < parts.len()
        invariant
            0 <= i <= parts.len(),
            sep_chars@ == sep@,
            out@ == join(texts(parts@).take(i as int), sep@),
        decreases parts.len() - i,
    {
        let ghost before = texts(parts@).take(i as int);
        let mut piece = chars_of(parts[i].as_str());
        if i > 0 {
            let mut s = chars_of(sep);
            out.append(&mut s);
        }
        out.append(&mut piece);
        proof {
            let after = texts(parts@).take(i + 1);
            assert(after.drop_last() =~= before);
            assert(after.last() == parts@[i as int]@);
            if i == 0 {
                assert(after.len() == 1);
                assert(out@ =~= after[0]);
            }
        }
        i = i + 1;
    }
    proof {
        assert(texts(parts@).take(parts@.len() as int) =~= texts(parts@));
    }
    string_of(&out)
}

/// The constraint string of an assembly block from the registers of its
/// outputs and inputs and the names of what it clobbers.
pub fn asm_constraint_string(outputs: &Vec<String>, inputs: &Vec<String>, clobbers: &Vec<String>) -> (r: String)
    ensures
        r@ == asm_constraints(texts(outputs@), texts(inputs@), texts(clobbers@)),
{
    let mut all: Vec<String> = Vec::new();
    let mut i: usize = 0;
    while i < outputs.len()
        invariant
            0 <= i <= outputs.len(),
            texts(all@) == texts(outputs@).take(i as int).map_values(|r: Seq<char>| output_constraint(r)),
        decreases outputs.len() - i,
    {
        let c = asm_output_constraint(outputs[i].as_str());
        let ghost before = all@;
        let ghost cv = c@;
        all.push(c);
        proof {
            let f = |r: Seq<char>| output_constraint(r);
            let src = texts(outputs@);
            assert(texts(all@) =~= texts(before).push(cv));
            assert(src.take(i + 1) =~= src.take(i as int).push(src[i as int]));
            assert(src.take(i + 1).map_values(f) =~= src.take(i as int).map_values(f).push(f(src[i as int])));
        }
        i = i + 1;
    }
    let ghost outs = texts(all@);
    let mut j: usize = 0;
    while j < inputs.len()
        invariant
            0 <= j <= inputs.len(),
            texts(all@) == outs + texts(inputs@).take(j as int).map_values(|r: Seq<char>| input_constraint(r)),
        decreases inputs.len() - j,
    {
        let c = asm_input_constraint(inputs[j].as_str());
        let ghost before = all@;
        let ghost cv = c@;
        all.push(c);
        proof {
            let f = |r: Seq<char>| input_constraint(r);
            let src = texts(inputs@);
            assert(texts(all@) =~= texts(before).push(cv));
            assert(src.take(j + 1) =~= src.take(j as int).push(src[j as int]));
            assert(src.take(j + 1).map_values(f) =~= src.take(j as int).map_values(f).push(f(src[j as int])));
            assert(texts(all@) =~= outs + src.take(j + 1).map_values(f));
        }
        j = j + 1;
    }
    let ghost ins = texts(all@);
    let mut k: usize = 0;
    while k < clobbers.len()
        invariant
            0 <= k <= clobbers.len(),
            texts(all@) == ins + texts(clobbers@).take(k as int).map_values(|c: Seq<char>| clobber_constraint(c)),
        decreases clobbers.len() - k,
    {
        let c = asm_clobber_constraint(clobbers[k].as_str());
        let ghost before = all@;
        let ghost cv = c@;
        all.push(c);
        proof {
            let f = |c: Seq<char>| clobber_constraint(c);
            let src = texts(clobbers@);
            assert(texts(all@) =~= texts(before).push(cv));
            assert(src.take(k + 1) =~= src.take(k as int).push(src[k as int]));
            assert(src.take(k + 1).map_values(f) =~= src.take(k as int).map_values(f).push(f(src[k as int])));
            assert(texts(all@) =~= ins + src.take(k + 1).map_values(f));
        }
        k = k + 1;
    }
    proof {
        assert(texts(outputs@).take(outputs@.len() as int) =~= texts(outputs@));
        assert(texts(inputs@).take(inputs@.len() as int) =~= texts(inputs@));
        assert(texts(clobbers@).take(clobbers@.len() as int) =~= texts(clobbers@));
        assert(texts(all@) =~= texts(outputs@).map_values(|r: Seq<char>| output_constraint(r)) + texts(inputs@).map_values(
            |r: Seq<char>| input_constraint(r),
        ) + texts(clobbers@).map_values(|c: Seq<char>| clobber_constraint(c)));
    }
    join_strings(&all, ",")
}

/// The string literals among `elems`, in order.
pub open spec fn string_lines(elems: Seq<Expr>) -> Seq<Seq<char>>
    decreases elems.len(),
{
    if elems.len() == 0 {
        Seq::empty()
    } else {
        match elems.last().kind {
            ExprKind::String(s) => string_lines(elems.drop_last()).push(s@),
            _ => string_lines(elems.drop_last()),
        }
    }
}

/// An operand of an assembly block: its register and where its expression
/// stands (the field of the configuration and the entry in that field).
pub struct AsmOperand {
    pub register: String,
    pub field: usize,
    pub entry: usize,
}

impl AsmOperand {
    pub open spec fn view(&self) -> (Seq<char>, int, int) {
        (self.register@, self.field as int, self.entry as int)
    }
}

pub open spec fn operand_views(v: Seq<AsmOperand>) -> Seq<(Seq<char>, int, int)> {
    v.map_values(|o: AsmOperand| o.view())
}

/// The operands that the register entries `regs` of field `field` give.
pub open spec fn operands_of(names: Seq<Seq<char>>, regs: Seq<StructFieldInit>, field: int) -> Seq<(Seq<char>, int, int)> {
    Seq::new(regs.len(), |j: int| (symbol_text(names, regs[j].name), field, j))
}

/// What the configuration of an `@asm` call says: the template, whether it
/// is volatile, the output and input operands and what it clobbers.
pub struct AsmSpec {
    pub template: Seq<char>,
    pub is_volatile: bool,
    pub outputs: Seq<(Seq<char>, int, int)>,
    pub inputs: Seq<(Seq<char>, int, int)>,
    pub clobbers: Seq<Seq<char>>,
}

/// Reading one field of the configuration. `asm` sets the template (a
/// string, or lines joined by newlines), `volatile` the flag; `outputs`
/// and `inputs` add their register entries, `clobbers` its strings; other
/// fields are ignored.
pub open spec fn asm_step(st: AsmSpec, names: Seq<Seq<char>>, f: StructFieldInit, i: int) -> AsmSpec {
    let n = symbol_text(names, f.name);
    if n == "asm"@ {
        match f.value.kind {
            ExprKind::String(s) => AsmSpec { template: s@, ..st },
            ExprKind::DataInit { literal: DataLiteralKind::Array(elems), .. } => AsmSpec {
                template: join(string_lines(elems@), seq!['\n']),
                ..st
            },
            _ => st,
        }
    } else if n == "volatile"@ {
        match f.value.kind {
            ExprKind::Bool(b) => AsmSpec { is_volatile: b, ..st },
            _ => st,
        }
    } else if n == "outputs"@ {
        match f.value.kind {
            ExprKind::DataInit { literal: DataLiteralKind::Struct(regs), .. } => AsmSpec {
                outputs: st.outputs + operands_of(names, regs@, i),
                ..st
            },
            _ => st,
        }
    } else if n == "inputs"@ {
        match f.value.kind {
            ExprKind::DataInit { literal: DataLiteralKind::Struct(regs), .. } => AsmSpec {
                inputs: st.inputs + operands_of(names, regs@, i),
                ..st
            },
            _ => st,
        }
    } else if n == "clobbers"@ {
        match f.value.kind {
            ExprKind::DataInit { literal: DataLiteralKind::Array(elems), .. } => AsmSpec {
                clobbers: st.clobbers + string_lines(elems@),
                ..st
            },
            _ => st,
        }
    } else {
        st
    }
}

/// Reading the fields of the configuration in order.
pub open spec fn asm_fold(names: Seq<Seq<char>>, fields: Seq<StructFieldInit>) -> AsmSpec
    decreases fields.len(),
{
    if fields.len() == 0 {
        AsmSpec {
            template: Seq::empty(),
            is_volatile: false,
            outputs: Seq::empty(),
            inputs: Seq::empty(),
            clobbers: Seq::empty(),
        }
    } else {
        asm_step(asm_fold(names, fields.drop_last()), names, fields.last(), fields.len() - 1)
    }
}

/// Every `asm` field is a string or a list: the type checker allows no
/// other form.
pub open spec fn asm_fields_checked(names: Seq<Seq<char>>, fields: Seq<StructFieldInit>) -> bool {
    forall|i: int|
        0 <= i < fields.len() && symbol_text(names, #[trigger] fields[i].name) == "asm"@ ==> (
        fields[i].value.kind is String || (fields[i].value.kind matches ExprKind::DataInit {
            literal: DataLiteralKind::Array(_),
            ..
        }))
}

/// The configuration of an `@asm` call, read.
pub struct AsmConfig {
    pub template: String,
    pub is_volatile: bool,
    pub outputs: Vec<AsmOperand>,
    pub inputs: Vec<AsmOperand>,
    /// What the block clobbers, such as `memory`.
    pub clobbers: Vec<String>,
}

impl AsmConfig {
    pub open spec fn matches(&self, s: AsmSpec) -> bool {
        &&& self.template@ == s.template
        &&& self.is_volatile == s.is_volatile
        &&& operand_views(self.outputs@) == s.outputs
        &&& operand_views(self.inputs@) == s.inputs
        &&& texts(self.clobbers@) == s.clobbers
    }
}

/// The string literals among `elems`.
fn string_elements(elems: &Vec<Expr>) -> (r: Vec<String>)
    ensures
        texts(r@) == string_lines(elems@),
{
    let mut out: Vec<String> = Vec::new();
    let mut i: usize = 0;
    while i < elems.len()
        invariant
            0 <= i <= elems.len(),
            texts(out@) == string_lines(elems@.take(i as int)),
        decreases elems.len() - i,
    {
        proof {
            assert(elems@.take(i + 1).drop_last() =~= elems@.take(i as int));
            assert(elems@.take(i + 1).last() == elems@[i as int]);
        }
        match &elems[i].kind {
            ExprKind::String(s) => {
                let ghost before = out@;
                out.push(s.clone());
                proof {
                    assert(texts(out@) =~= texts(before).push(s@));
                }
            },
            _ => {},
        }
        i = i + 1;
    }
    proof {
        assert(elems@.take(elems@.len() as int) =~= elems@);
    }
    out
}

/// The text of a symbol, `<unknown>` where it was never interned.
fn symbol_string(interner: &Interner, sym: SymbolId) -> (r: String)
    ensures
        r@ == symbol_text(interner@, sym),
{
    match interner.resolve(sym) {
        Some(t) => t.to_owned(),
        None => "<unknown>".to_owned(),
    }
}

/// Append the operands of the register entries `regs` of field `field`.
fn push_operands(interner: &Interner, regs: &Vec<StructFieldInit>, field: usize, out: &mut Vec<AsmOperand>)
    ensures
        operand_views(final(out)@) == operand_views(old(out)@) + operands_of(interner@, regs@, field as int),
{
    let ghost start = operand_views(out@);
    let mut j: usize = 0;
    while j < regs.len()
        invariant
            0 <= j <= regs.len(),
            operand_views(out@) == start + operands_of(interner@, regs@, field as int).take(j as int),
        decreases regs.len() - j,
    {
        let register = symbol_string(interner, regs[j].name);
        let ghost before = out@;
        out.push(AsmOperand { register, field, entry: j });
        proof {
            let ops = operands_of(interner@, regs@, field as int);
            assert(ops.take(j + 1) =~= ops.take(j as int).push(ops[j as int]));
            assert(operand_views(out@) =~= operand_views(before).push(ops[j as int]));
        }
        j = j + 1;
    }
    proof {
        let ops = operands_of(interner@, regs@, field as int);
        assert(ops.take(regs@.len() as int) =~= ops);
    }
}

/// Read the fields of the configuration literal of an `@asm` call.
pub fn read_asm_config(interner: &Interner, fields: &Vec<StructFieldInit>) -> (r: AsmConfig)
    requires
        asm_fields_checked(interner@, fields@),
    ensures
        r.matches(asm_fold(interner@, fields@)),
{
    let mut cfg = AsmConfig {
        template: String::new(),
        is_volatile: false,
        outputs: Vec::new(),
        inputs: Vec::new(),
        clobbers: Vec::new(),
    };
    let mut i: usize = 0;
    proof {
        assert(fields@.take(0) =~= Seq::<StructFieldInit>::empty());
        assert(operand_views(cfg.outputs@) =~= Seq::<(Seq<char>, int, int)>::empty());
        assert(operand_views(cfg.inputs@) =~= Seq::<(Seq<char>, int, int)>::empty());
        assert(texts(cfg.clobbers@) =~= Seq::<Seq<char>>::empty());
    }
    while i < fields.len()
        invariant
            0 <= i <= fields.len(),
            asm_fields_checked(interner@, fields@),
            cfg.matches(asm_fold(interner@, fields@.take(i as int))),
        decreases fields.len() - i,
    {
        let ghost st = asm_fold(interner@, fields@.take(i as int));
        proof {
            assert(fields@.take(i + 1).drop_last() =~= fields@.take(i as int));
            assert(fields@.take(i + 1).last() == fields@[i as int]);
        }
        let f = &fields[i];
        let name = symbol_string(interner, f.name);
        if text_eq(name.as_str(), "asm") {
            match &f.value.kind {
                ExprKind::String(s) => {
                    cfg.template = s.clone();
                    assert(cfg.matches(asm_step(st, interner@, fields@[i as int], i as int)));
                },
                ExprKind::DataInit { literal: DataLiteralKind::Array(elems), .. } => {
                    let lines = string_elements(elems);
                    cfg.template = join_strings(&lines, "\n");
                    proof {
                        reveal_strlit("\n");
                        assert("\n"@ =~= seq!['\n']);
                    }
                    assert(cfg.matches(asm_step(st, interner@, fields@[i as int], i as int)));
                },
                _ => {
                    proof {
                        assert(symbol_text(interner@, fields@[i as int].name) == "asm"@);
                    }
                },
            }
        } else if text_eq(name.as_str(), "volatile") {
            match &f.value.kind {
                ExprKind::Bool(b) => {
                    cfg.is_volatile = *b;
                },
                _ => {},
            }
        } else if text_eq(name.as_str(), "outputs") {
            match &f.value.kind {
                ExprKind::DataInit { literal: DataLiteralKind::Struct(regs), .. } => {
                    push_operands(interner, regs, i, &mut cfg.outputs);
                    assert(cfg.matches(asm_step(st, interner@, fields@[i as int], i as int)));
                },
                _ => {},
            }
        } else if text_eq(name.as_str(), "inputs") {
            match &f.value.kind {
                ExprKind::DataInit { literal: DataLiteralKind::Struct(regs), .. } => {
                    push_operands(interner, regs, i, &mut cfg.inputs);
                },
                _ => {},
            }
        } else if text_eq(name.as_str(), "clobbers") {
            match &f.value.kind {
                ExprKind::DataInit { literal: DataLiteralKind::Array(elems), .. } => {
                    let ghost before = cfg.clobbers@;
                    let mut more = string_elements(elems);
                    let ghost added = more@;
                    cfg.clobbers.append(&mut more);
                    proof {
                        assert(texts(cfg.clobbers@) =~= texts(before) + texts(added));
                    }
                    assert(cfg.matches(asm_step(st, interner@, fields@[i as int], i as int)));
                },
                _ => {},
            }
        }
        proof {
            assert(asm_fold(interner@, fields@.take(i + 1)) == asm_step(st, interner@, fields@[i as int], i as int));
            assert(cfg.matches(asm_step(st, interner@, fields@[i as int], i as int)));
        }
        i = i + 1;
    }
    proof {
        assert(fields@.take(fields@.len() as int) =~= fields@);
    }
    cfg
}

/// The constraint string of a read configuration.
pub fn asm_config_constraints(cfg: &AsmConfig) -> (r: String)
    ensures
        r@ == asm_constraints(
            operand_views(cfg.outputs@).map_values(|o: (Seq<char>, int, int)| o.0),
            operand_views(cfg.inputs@).map_values(|o: (Seq<char>, int, int)| o.0),
            texts(cfg.clobbers@),
        ),
{
    let mut outs: Vec<String> = Vec::new();
    let mut i: usize = 0;
    while i < cfg.outputs.len()
        invariant
            0 <= i <= cfg.outputs.len(),
            texts(outs@) == operand_views(cfg.outputs@).map_values(|o: (Seq<char>, int, int)| o.0).take(i as int),
        decreases cfg.outputs.len() - i,
    {
        let ghost before = outs@;
        outs.push(cfg.outputs[i].register.clone());
        proof {
            let all = operand_views(cfg.outputs@).map_values(|o: (Seq<char>, int, int)| o.0);
            assert(all.take(i + 1) =~= all.take(i as int).push(all[i as int]));
            assert(texts(outs@) =~= texts(before).push(cfg.outputs@[i as int].register@));
        }
        i = i + 1;
    }
    let mut ins: Vec<String> = Vec::new();
    let mut j: usize = 0;
    while j < cfg.inputs.len()
        invariant
            0 <= j <= cfg.inputs.len(),
            texts(ins@) == operand_views(cfg.inputs@).map_values(|o: (Seq<char>, int, int)| o.0).take(j as int),
        decreases cfg.inputs.len() - j,
    {
        let ghost before = ins@;
        ins.push(cfg.inputs[j].register.clone());
        proof {
            let all = operand_views(cfg.inputs@).map_values(|o: (Seq<char>, int, int)| o.0);
            assert(all.take(j + 1) =~= all.take(j as int).push(all[j as int]));
            assert(texts(ins@) =~= texts(before).push(cfg.inputs@[j as int].register@));
        }
        j = j + 1;
    }
    proof {
        let a = operand_views(cfg.outputs@).map_values(|o: (Seq<char>, int, int)| o.0);
        let b = operand_views(cfg.inputs@).map_values(|o: (Seq<char>, int, int)| o.0);
        assert(a.take(a.len() as int) =~= a);
        assert(b.take(b.len() as int) =~= b);
    }
    asm_constraint_string(&outs, &ins, &cfg.clobbers)
}

/// The type under all aliases and `mut` layers of `ty`.
pub open spec fn without_mut(reg: &TypeRegistry, ty: TypeId) -> TypeId
    decreases ty.0,
{
    let n = reg.spec_normalize(ty);
    match reg@[n.0 as int] {
        TypeShape::Mut(inner) => if inner.0 < ty.0 {
            without_mut(reg, inner)
        } else {
            n
        },
        _ => n,
    }
}

/// Strip every alias and `mut` layer off `ty`.
pub fn strip_mut_modifier(reg: &TypeRegistry, ty: TypeId) -> (r: TypeId)
    requires
        reg.wf(),
        reg.contains(ty),
    ensures
        r == without_mut(reg, ty),
        reg.contains(r),
{
    let mut cur = ty;
    loop
        invariant
            reg.wf(),
            reg.contains(cur),
            without_mut(reg, cur) == without_mut(reg, ty),
        decreases cur.0,
    {
        proof {
            reg.lemma_normalize(cur);
        }
        let n = reg.normalize(cur);
        proof {
            assert(refs_below(reg@[n.0 as int], n.0 as nat));
        }
        match reg.get(n) {
            TypeKind::Mut(inner) => {
                cur = *inner;
            },
            _ => {
                return n;
            },
        }
    }
}

/// A value of type `concrete` used where `expected` is wanted: an array
/// where a slice is expected is wrapped in the array-to-slice conversion;
/// the expression then has the expected type.
pub fn apply_implicit_cast(
    reg: &TypeRegistry,
    kind: MastExprKind,
    concrete_ty: TypeId,
    exp_ty: TypeId,
    span: Span,
) -> (e: MastExpr)
    requires
        reg.wf(),
        reg.contains(concrete_ty),
        reg.contains(exp_ty),
    ensures
        e.ty == exp_ty,
        e.span == span,
        if reg@[without_mut(reg, exp_ty).0 as int] is Slice && reg@[without_mut(
            reg,
            concrete_ty,
        ).0 as int] is Array {
            e.kind == MastExprKind::Cast {
                kind: MastCastKind::ArrayToSlice,
                operand: Box::new(MastExpr { ty: concrete_ty, span, kind }),
            }
        } else {
            e.kind == kind
        },
{
    let conc_base = strip_mut_modifier(reg, concrete_ty);
    let exp_base = strip_mut_modifier(reg, exp_ty);
    let is_slice = match reg.get(exp_base) {
        TypeKind::Slice(_) => true,
        _ => false,
    };
    let is_array = match reg.get(conc_base) {
        TypeKind::Array { .. } => true,
        _ => false,
    };
    if is_slice && is_array {
        let inner = MastExpr::new(concrete_ty, kind, span);
        MastExpr::new(
            exp_ty,
            MastExprKind::Cast { kind: MastCastKind::ArrayToSlice, operand: Box::new(inner) },
            span,
        )
    } else {
        MastExpr::new(exp_ty, kind, span)
    }
}

/// `b` is a block whose value is `e`, with nothing else in it.
pub open spec fn is_value_block(b: MastBlock, e: MastExpr) -> bool {
    b.stmts@.len() == 0 && b.defers@.len() == 0 && b.result == Some(Box::new(e))
}

fn value_block(e: MastExpr) -> (b: MastBlock)
    ensures
        is_value_block(b, e),
{
    MastBlock { stmts: Vec::new(), result: Some(Box::new(e)), defers: Vec::new() }
}

/// The `bool` constant `b`.
pub open spec fn bool_literal(b: bool, span: Span) -> MastExpr {
    MastExpr { ty: TypeId::spec_primitive(PrimitiveType::Bool), span, kind: MastExprKind::Bool(b) }
}

/// The plain binary node.
pub open spec fn binary_node(op: BinaryOperator, l: MastExpr, r: MastExpr) -> MastExprKind {
    MastExprKind::Binary { op, lhs: Box::new(l), rhs: Box::new(r) }
}

/// `k` is `if cond { then_value } else { else_value }`.
pub open spec fn short_circuit(k: MastExprKind, cond: MastExpr, then_value: MastExpr, else_value: MastExpr) -> bool {
    match k {
        MastExprKind::If { cond: c, then_branch, else_branch: Some(e) } => *c == cond && is_value_block(
            then_branch,
            then_value,
        ) && is_value_block(e, else_value),
        _ => false,
    }
}

/// The node of a binary operation on the lowered operands `l` and `r`.
/// `and` and `or` become conditionals so that the right side is only
/// evaluated where the left does not decide: `l and r` is
/// `if l { r } else { false }`, `l or r` is `if l { true } else { r }`.
pub fn lower_binary_node(op: BinaryOperator, l: MastExpr, r: MastExpr, span: Span) -> (k: MastExprKind)
    ensures
        op == BinaryOperator::LogicalAnd ==> short_circuit(k, l, r, bool_literal(false, span)),
        op == BinaryOperator::LogicalOr ==> short_circuit(k, l, bool_literal(true, span), r),
        op != BinaryOperator::LogicalAnd && op != BinaryOperator::LogicalOr ==> k == binary_node(
            op,
            l,
            r,
        ),
{
    let bool_ty = TypeId::primitive(PrimitiveType::Bool);
    if op == BinaryOperator::LogicalAnd {
        let f = MastExpr::new(bool_ty, MastExprKind::Bool(false), span);
        MastExprKind::If {
            cond: Box::new(l),
            then_branch: value_block(r),
            else_branch: Some(value_block(f)),
        }
    } else if op == BinaryOperator::LogicalOr {
        let t = MastExpr::new(bool_ty, MastExprKind::Bool(true), span);
        MastExprKind::If {
            cond: Box::new(l),
            then_branch: value_block(t),
            else_branch: Some(value_block(r)),
        }
    } else {
        MastExprKind::Binary { op, lhs: Box::new(l), rhs: Box::new(r) }
    }
}

/// The node of a unary operator applied to `operand`.
pub open spec fn unary_node(op: UnaryOperator, operand: MastExpr) -> MastExprKind {
    match op {
        UnaryOperator::AddressOf => MastExprKind::AddressOf(Box::new(operand)),
        UnaryOperator::PointerDeRef => MastExprKind::Deref(Box::new(operand)),
        _ => MastExprKind::Unary { op, operand: Box::new(operand) },
    }
}

/// The node of a unary operation on the lowered operand: `&` and `*`
/// become address-of and dereference nodes, the others stay operators.
pub fn lower_unary_node(op: UnaryOperator, operand: MastExpr) -> (k: MastExprKind)
    ensures
        k == unary_node(op, operand),
{
    match op {
        UnaryOperator::AddressOf => MastExprKind::AddressOf(Box::new(operand)),
        UnaryOperator::PointerDeRef => MastExprKind::Deref(Box::new(operand)),
        _ => MastExprKind::Unary { op, operand: Box::new(operand) },
    }
}

/// The type a vtable is built for: `ty` with every alias, pointer and
/// `mut` layer taken off.
pub open spec fn vtable_base(reg: &TypeRegistry, ty: TypeId) -> TypeId
    decreases ty.0,
{
    let n = reg.spec_normalize(ty);
    match reg@[n.0 as int] {
        TypeShape::Pointer(inner) | TypeShape::VolatilePtr(inner) | TypeShape::Mut(inner) => if inner.0
            < ty.0 {
            vtable_base(reg, inner)
        } else {
            n
        },
        _ => n,
    }
}

/// The generic arguments of a definition or ADT type; none for others.
pub open spec fn type_args(reg: &TypeRegistry, ty: TypeId) -> Seq<TypeId> {
    match reg@[ty.0 as int] {
        TypeShape::Def(_, a) | TypeShape::Adt(_, a) => a,
        _ => Seq::empty(),
    }
}

/// The type a vtable for a value of type `source_ty` is built for, and
/// that type's generic arguments.
pub fn resolve_vtable_source_base(reg: &TypeRegistry, source_ty: TypeId) -> (r: (TypeId, Vec<TypeId>))
    requires
        reg.wf(),
        reg.contains(source_ty),
    ensures
        r.0 == vtable_base(reg, source_ty),
        r.1@ == type_args(reg, r.0),
        reg.contains(r.0),
{
    let mut base_ty = source_ty;
    loop
        invariant
            reg.wf(),
            reg.contains(base_ty),
            vtable_base(reg, base_ty) == vtable_base(reg, source_ty),
        ensures
            base_ty == vtable_base(reg, source_ty),
            reg.contains(base_ty),
        decreases base_ty.0,
    {
        proof {
            reg.lemma_normalize(base_ty);
        }
        let n = reg.normalize(base_ty);
        proof {
            assert(refs_below(reg@[n.0 as int], n.0 as nat));
        }
        match reg.get(n) {
            TypeKind::Pointer(inner) | TypeKind::VolatilePtr(inner) | TypeKind::Mut(inner) => {
                base_ty = *inner;
            },
            _ => {
                base_ty = n;
                break;
            },
        }
    }
    let args = match reg.get(base_ty) {
        TypeKind::Def(_, a) | TypeKind::Adt(_, a) => crate::sema::ty::copy_ids(a),
        _ => Vec::new(),
    };
    (base_ty, args)
}

/// The width in bits of an integer primitive on a target whose pointers
/// take `ptr` bytes.
pub open spec fn int_bits(p: PrimitiveType, ptr: u64) -> int {
    match p {
        PrimitiveType::I8 | PrimitiveType::U8 => 8,
        PrimitiveType::I16 | PrimitiveType::U16 => 16,
        PrimitiveType::I32 | PrimitiveType::U32 => 32,
        PrimitiveType::I64 | PrimitiveType::U64 => 64,
        PrimitiveType::I128 | PrimitiveType::U128 => 128,
        _ => 8 * ptr,
    }
}

/// A cast between two integer types narrows by truncation, widens by
/// extending the sign for a signed target and with zeros for an unsigned
/// one, and keeps the bits between types of one width; a cast between
/// pointers keeps the bits, and between pointers and integers converts.
pub proof fn law_integer_cast_kinds(reg: &TypeRegistry, from: TypeId, to: TypeId, ptr: u64)
    requires
        reg.wf(),
        reg.contains(from),
        reg.contains(to),
    ensures
        (reg@[from.0 as int] matches TypeShape::Primitive(pf) && (reg@[to.0 as int] matches TypeShape::Primitive(pt)
            && (pf.is_integer() && pt.is_integer()))) ==> {
            let pf = reg@[from.0 as int]->Primitive_0;
            let pt = reg@[to.0 as int]->Primitive_0;
            let k = cast_kind(reg, from, to, ptr);
            let signed_target = pt == PrimitiveType::I8 || pt == PrimitiveType::I16 || pt == PrimitiveType::I32
                || pt == PrimitiveType::I64 || pt == PrimitiveType::I128 || pt == PrimitiveType::ISize;
            &&& (k == MastCastKind::Trunc <==> int_bits(pf, ptr) > int_bits(pt, ptr))
            &&& (k == MastCastKind::Bitcast <==> int_bits(pf, ptr) == int_bits(pt, ptr))
            &&& (k == MastCastKind::SignExt <==> int_bits(pf, ptr) < int_bits(pt, ptr) && signed_target)
            &&& (k == MastCastKind::ZeroExt <==> int_bits(pf, ptr) < int_bits(pt, ptr) && !signed_target)
        },
        (reg@[from.0 as int] is Pointer && reg@[to.0 as int] is Pointer) ==> cast_kind(reg, from, to, ptr)
            == MastCastKind::Bitcast,
        (reg@[from.0 as int] is Pointer && (reg@[to.0 as int] matches TypeShape::Primitive(pt) && pt.is_integer()))
            ==> cast_kind(reg, from, to, ptr) == MastCastKind::PtrToInt,
        ((reg@[from.0 as int] matches TypeShape::Primitive(pf) && pf.is_integer()) && reg@[to.0 as int] is Pointer)
            ==> cast_kind(reg, from, to, ptr) == MastCastKind::IntToPtr,
{
    if !(reg@[from.0 as int] is Alias) {
        assert(reg.spec_normalize(from) == from);
    }
    if !(reg@[to.0 as int] is Alias) {
        assert(reg.spec_normalize(to) == to);
    }
}

} // verus!
