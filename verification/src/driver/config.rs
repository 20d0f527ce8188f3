use crate::utils::StringMap;
use std::str::FromStr;
use vstd::prelude::*;

verus! {

#[derive(Debug, Clone, Copy, PartialEq, Eq, Structural)]
pub enum OptLevel {
    O0,
    O1,
    O2,
    O3,
}

/// `Triple::from_str` of `target_lexicon` accepts the text.
pub uninterp spec fn triple_accepts(text: Seq<char>) -> bool;

/// The `Display` text of the triple that `Triple::from_str` parses from
/// the text.
pub uninterp spec fn triple_canonical(text: Seq<char>) -> Seq<char>;

/// The `Display` text of the architecture of the parsed triple.
pub uninterp spec fn triple_arch(text: Seq<char>) -> Seq<char>;

/// The `Display` text of the operating system of the parsed triple.
pub uninterp spec fn triple_os(text: Seq<char>) -> Seq<char>;

/// `Triple::pointer_width` of the parsed triple in bytes, `None` where it
/// reports no width.
pub uninterp spec fn triple_pointer_bytes(text: Seq<char>) -> Option<u8>;

/// The `Display` text of the `ParseError` that `Triple::from_str` reports.
pub uninterp spec fn triple_parse_error(text: Seq<char>) -> Seq<char>;

/// What the compiler reads of a target triple.
#[derive(Debug, Clone)]
pub struct TripleFacts {
    /// The triple's canonical text.
    pub text: String,
    pub arch: String,
    pub os: String,
    /// Size of a pointer in bytes, if the triple fixes one.
    pub pointer_bytes: Option<u8>,
}

/// Parses `s` with `target_lexicon::Triple::from_str` and reads off the
/// triple's text, architecture, operating system (their `Display` texts)
/// and `pointer_width().bytes()`, or the text of the `ParseError`. The
/// contract says only that these are the named functions of `s`, and that
/// a pointer width, where there is one, is 2, 4 or 8 bytes
/// (`PointerWidth::bytes`); what the names are on a given text is not
/// stated.
#[verifier::external_body]
fn parse_target_triple(s: &str) -> (r: Result<TripleFacts, String>)
    ensures
        r is Ok <==> triple_accepts(s@),
        r matches Ok(f) ==> {
            &&& f.text@ == triple_canonical(s@)
            &&& f.arch@ == triple_arch(s@)
            &&& f.os@ == triple_os(s@)
            &&& f.pointer_bytes == triple_pointer_bytes(s@)
            &&& f.pointer_bytes matches Some(b) ==> (b == 2 || b == 4 || b == 8)
        },
        r matches Err(e) ==> e@ == triple_parse_error(s@),
{
    match target_lexicon::Triple::from_str(s) {
        Ok(t) => Ok(TripleFacts {
            text: t.to_string(),
            arch: t.architecture.to_string(),
            os: t.operating_system.to_string(),
            pointer_bytes: match t.pointer_width() {
                Ok(w) => Some(w.bytes()),
                Err(_) => None,
            },
        }),
        Err(e) => Err(e.to_string()),
    }
}

/// Reads the same facts off `target_lexicon::Triple::host()`, the triple of
/// the machine the compiler was built for. Nothing is stated of them but
/// that a pointer width, where there is one, is 2, 4 or 8 bytes.
#[verifier::external_body]
fn host_target_triple() -> (f: TripleFacts)
    ensures
        f.pointer_bytes matches Some(b) ==> (b == 2 || b == 4 || b == 8),
{
    let t = target_lexicon::Triple::host();
    TripleFacts {
        text: t.to_string(),
        arch: t.architecture.to_string(),
        os: t.operating_system.to_string(),
        pointer_bytes: match t.pointer_width() {
            Ok(w) => Some(w.bytes()),
            Err(_) => None,
        },
    }
}

/// Pointer size in bytes for a reported width; 8 where there is none.
pub open spec fn pointer_size_of(bytes: Option<u8>) -> u64 {
    match bytes {
        Some(b) => b as u64,
        None => 8,
    }
}

/// The target the compiler generates code for.
#[derive(Debug, Clone)]
pub struct TargetMachine {
    /// Canonical text of the target triple.
    pub triple: String,
    /// The triple's architecture, as `target_lexicon` prints it.
    pub arch: String,
    /// The triple's operating system, as `target_lexicon` prints it.
    pub os: String,
    /// Size of a pointer in bytes.
    pub pointer_size: u64,
}

fn machine_from_facts(f: TripleFacts) -> (m: TargetMachine)
    ensures
        m.triple@ == f.text@,
        m.arch@ == f.arch@,
        m.os@ == f.os@,
        m.pointer_size == pointer_size_of(f.pointer_bytes),
{
    let pointer_size: u64 = match f.pointer_bytes {
        Some(b) => b as u64,
        None => 8,
    };
    TargetMachine { triple: f.text, arch: f.arch, os: f.os, pointer_size }
}

impl TargetMachine {
    /// A copy naming the same target.
    pub fn duplicate(&self) -> (r: Self)
        ensures
            r.triple@ == self.triple@,
            r.arch@ == self.arch@,
            r.os@ == self.os@,
            r.pointer_size == self.pointer_size,
    {
        TargetMachine {
            triple: self.triple.clone(),
            arch: self.arch.clone(),
            os: self.os.clone(),
            pointer_size: self.pointer_size,
        }
    }

    /// The target named by a triple such as `x86_64-unknown-linux-gnu`; a
    /// triple that `target_lexicon` rejects gives its error text. Where the
    /// triple fixes no pointer width, 64 bits are assumed.
    pub fn new(triple_str: &str) -> (r: Result<Self, String>)
        ensures
            r is Ok <==> triple_accepts(triple_str@),
            r matches Ok(m) ==> {
                &&& m.triple@ == triple_canonical(triple_str@)
                &&& m.arch@ == triple_arch(triple_str@)
                &&& m.os@ == triple_os(triple_str@)
                &&& m.pointer_size == pointer_size_of(triple_pointer_bytes(triple_str@))
            },
            r matches Err(e) ==> e@ == triple_parse_error(triple_str@),
    {
        match parse_target_triple(triple_str) {
            Ok(f) => Ok(machine_from_facts(f)),
            Err(e) => Err(e),
        }
    }
}

impl Default for TargetMachine {
    /// The machine the compiler runs on.
    fn default() -> (m: Self)
        ensures
            m.pointer_size == 2 || m.pointer_size == 4 || m.pointer_size == 8,
    {
        machine_from_facts(host_target_triple())
    }
}

#[derive(Debug, Clone, Copy, PartialEq, Eq, Structural)]
pub enum AsmDialect {
    Intel,
    Att,
}

impl Default for AsmDialect {
    fn default() -> (d: Self)
        ensures
            d == AsmDialect::Intel,
    {
        AsmDialect::Intel
    }
}

/// Everything the command line decides about a compilation.
#[derive(Debug, Clone)]
pub struct CompileOptions {
    pub input_file: String,
    pub output_file: String,
    pub target: TargetMachine,
    pub opt_level: OptLevel,
    pub emit_llvm_ir: bool,
    /// Variables for conditional compilation, from `-D key=value`.
    pub custom_defines: StringMap,
    /// Module name to directory, from `-M name=path`.
    pub module_aliases: StringMap,
    pub asm_dialect: AsmDialect,
    pub link_libc: bool,
    pub linker_cmd: String,
}

impl CompileOptions {
    /// Both maps keep their keys distinct.
    pub open spec fn wf(&self) -> bool {
        self.custom_defines.wf() && self.module_aliases.wf()
    }
}

impl Default for CompileOptions {
    fn default() -> (o: Self)
        ensures
            o.wf(),
            o.input_file@ == Seq::<char>::empty(),
            o.output_file@ == "a.out"@,
            o.target.pointer_size == 2 || o.target.pointer_size == 4 || o.target.pointer_size == 8,
            o.opt_level == OptLevel::O0,
            !o.emit_llvm_ir,
            o.custom_defines.to_map() == Map::<Seq<char>, Seq<char>>::empty(),
            o.module_aliases.to_map() == Map::<Seq<char>, Seq<char>>::empty(),
            o.asm_dialect == AsmDialect::Intel,
            !o.link_libc,
            o.linker_cmd@ == "cc"@,
    {
        CompileOptions {
            input_file: String::new(),
            output_file: "a.out".to_owned(),
            target: TargetMachine::default(),
            opt_level: OptLevel::O0,
            emit_llvm_ir: false,
            custom_defines: StringMap::new(),
            module_aliases: StringMap::new(),
            asm_dialect: AsmDialect::default(),
            link_libc: false,
            linker_cmd: "cc".to_owned(),
        }
    }
}

} // verus!
