use super::config::{
    triple_accepts, triple_canonical, triple_arch, triple_os, triple_parse_error,
    triple_pointer_bytes, pointer_size_of, AsmDialect, CompileOptions, OptLevel, TargetMachine,
};
use crate::parser::escape::{chars_of, first_index_of, lemma_first_index_of, string_of};
use crate::utils::{text_eq, StringMap};
use vstd::prelude::*;

verus! {

/// An option that must be followed by a value.
#[derive(Debug, Clone, Copy, PartialEq, Eq, Structural)]
pub enum ValueOption {
    /// `-o <file>`
    Output,
    /// `--target <triple>`
    Target,
    /// `--asm-dialect <dialect>`
    AsmDialect,
    /// `--cc <command>`
    Cc,
    /// `-D <key=value>`
    Define,
    /// `-M <name=path>`
    ModuleMap,
}

impl ValueOption {
    /// What the command line was missing.
    pub fn message(&self) -> (r: &'static str)
        ensures
            r@ == (match *self {
                ValueOption::Output => "Expected file name after `-o`"@,
                ValueOption::Target => "Expected target triple after `--target`"@,
                ValueOption::AsmDialect => "Expected dialect after `--asm-dialect`"@,
                ValueOption::Cc => "Expected command after `--cc`"@,
                ValueOption::Define => "Expected `key=value` after `-D`"@,
                ValueOption::ModuleMap => "Expected `name=path` after `-M`"@,
            }),
    {
        match self {
            ValueOption::Output => "Expected file name after `-o`",
            ValueOption::Target => "Expected target triple after `--target`",
            ValueOption::AsmDialect => "Expected dialect after `--asm-dialect`",
            ValueOption::Cc => "Expected command after `--cc`",
            ValueOption::Define => "Expected `key=value` after `-D`",
            ValueOption::ModuleMap => "Expected `name=path` after `-M`",
        }
    }
}

/// Why a command line was rejected.
#[derive(Debug, Clone, PartialEq, Eq)]
pub enum CliError {
    /// The option came last, without its value.
    MissingValue(ValueOption),
    /// `target_lexicon` rejected the triple, with this error text.
    InvalidTarget(String),
    /// The dialect was neither `intel` nor `att`.
    InvalidAsmDialect,
    /// The value of `-D` had no `=`.
    InvalidDefine,
    /// The value of `-M` had no `=`.
    InvalidModuleMap,
    /// An argument starting with `-` that is no known option.
    UnrecognizedOption(String),
    /// A second input file.
    MultipleInputs,
    /// No input file at all.
    NoInput,
}

/// What the command line asks for.
#[derive(Debug, Clone)]
pub enum CliAction {
    /// `-h` or `--help`: print the usage text.
    Help,
    /// `-v` or `--version`: print the version.
    Version,
    /// Compile with these options.
    Compile(CompileOptions),
}

/// The options as the command line has set them so far.
pub struct CliState {
    pub input: Option<Seq<char>>,
    pub output: Seq<char>,
    pub opt_level: OptLevel,
    pub emit_llvm_ir: bool,
    pub link_libc: bool,
    /// The text of the last `--target`, if any.
    pub target: Option<Seq<char>>,
    pub asm_dialect: AsmDialect,
    pub linker_cmd: Seq<char>,
    pub defines: Map<Seq<char>, Seq<char>>,
    pub aliases: Map<Seq<char>, Seq<char>>,
}

/// [`CliError`] over mathematical strings.
pub enum CliFailure {
    MissingValue(ValueOption),
    InvalidTarget(Seq<char>),
    InvalidAsmDialect,
    InvalidDefine,
    InvalidModuleMap,
    UnrecognizedOption(Seq<char>),
    MultipleInputs,
    NoInput,
}

/// How reading a command line ends.
pub enum CliOutcome {
    Help,
    Version,
    Run(CliState),
    Fail(CliFailure),
}

impl CliError {
    pub open spec fn failure(&self) -> CliFailure {
        match *self {
            CliError::MissingValue(o) => CliFailure::MissingValue(o),
            CliError::InvalidTarget(e) => CliFailure::InvalidTarget(e@),
            CliError::InvalidAsmDialect => CliFailure::InvalidAsmDialect,
            CliError::InvalidDefine => CliFailure::InvalidDefine,
            CliError::InvalidModuleMap => CliFailure::InvalidModuleMap,
            CliError::UnrecognizedOption(a) => CliFailure::UnrecognizedOption(a@),
            CliError::MultipleInputs => CliFailure::MultipleInputs,
            CliError::NoInput => CliFailure::NoInput,
        }
    }
}

/// The text before and after the first `=`, if there is one.
pub open spec fn split_pair(s: Seq<char>) -> Option<(Seq<char>, Seq<char>)> {
    match first_index_of(s, '=') {
        Some(k) => Some((s.take(k), s.skip(k + 1))),
        None => None,
    }
}

/// The state before any argument is read; `cc_env` is the value of the
/// `CC` environment variable, if set, which replaces the default linker.
pub open spec fn initial_state(cc_env: Option<Seq<char>>) -> CliState {
    CliState {
        input: None,
        output: "a.out"@,
        opt_level: OptLevel::O0,
        emit_llvm_ir: false,
        link_libc: false,
        target: None,
        asm_dialect: AsmDialect::Intel,
        linker_cmd: match cc_env {
            Some(c) => c,
            None => "cc"@,
        },
        defines: Map::empty(),
        aliases: Map::empty(),
    }
}

/// Reading the arguments from position `i` on, in state `st`. Each option
/// acts in order; help and version end the reading at once, and so does
/// the first error.
pub open spec fn read_args(args: Seq<Seq<char>>, i: int, st: CliState) -> CliOutcome
    decreases args.len() - i,
{
    if i < 0 || i >= args.len() {
        if st.input is None {
            CliOutcome::Fail(CliFailure::NoInput)
        } else {
            CliOutcome::Run(st)
        }
    } else {
        let a = args[i];
        let has_value = i + 1 < args.len();
        let v = args[i + 1];
        if a == "-h"@ || a == "--help"@ {
            CliOutcome::Help
        } else if a == "-v"@ || a == "--version"@ {
            CliOutcome::Version
        } else if a == "-o"@ {
            if has_value {
                read_args(args, i + 2, CliState { output: v, ..st })
            } else {
                CliOutcome::Fail(CliFailure::MissingValue(ValueOption::Output))
            }
        } else if a == "-O0"@ {
            read_args(args, i + 1, CliState { opt_level: OptLevel::O0, ..st })
        } else if a == "-O1"@ {
            read_args(args, i + 1, CliState { opt_level: OptLevel::O1, ..st })
        } else if a == "-O2"@ {
            read_args(args, i + 1, CliState { opt_level: OptLevel::O2, ..st })
        } else if a == "-O3"@ {
            read_args(args, i + 1, CliState { opt_level: OptLevel::O3, ..st })
        } else if a == "--emit-llvm"@ {
            read_args(args, i + 1, CliState { emit_llvm_ir: true, ..st })
        } else if a == "--link-libc"@ {
            read_args(args, i + 1, CliState { link_libc: true, ..st })
        } else if a == "--target"@ {
            if !has_value {
                CliOutcome::Fail(CliFailure::MissingValue(ValueOption::Target))
            } else if triple_accepts(v) {
                read_args(args, i + 2, CliState { target: Some(v), ..st })
            } else {
                CliOutcome::Fail(CliFailure::InvalidTarget(triple_parse_error(v)))
            }
        } else if a == "--asm-dialect"@ {
            if !has_value {
                CliOutcome::Fail(CliFailure::MissingValue(ValueOption::AsmDialect))
            } else if v == "intel"@ {
                read_args(args, i + 2, CliState { asm_dialect: AsmDialect::Intel, ..st })
            } else if v == "att"@ {
                read_args(args, i + 2, CliState { asm_dialect: AsmDialect::Att, ..st })
            } else {
                CliOutcome::Fail(CliFailure::InvalidAsmDialect)
            }
        } else if a == "--cc"@ {
            if has_value {
                read_args(args, i + 2, CliState { linker_cmd: v, ..st })
            } else {
                CliOutcome::Fail(CliFailure::MissingValue(ValueOption::Cc))
            }
        } else if a == "-D"@ {
            if !has_value {
                CliOutcome::Fail(CliFailure::MissingValue(ValueOption::Define))
            } else {
                match split_pair(v) {
                    Some(kv) => read_args(
                        args,
                        i + 2,
                        CliState { defines: st.defines.insert(kv.0, kv.1), ..st },
                    ),
                    None => CliOutcome::Fail(CliFailure::InvalidDefine),
                }
            }
        } else if a == "-M"@ {
            if !has_value {
                CliOutcome::Fail(CliFailure::MissingValue(ValueOption::ModuleMap))
            } else {
                match split_pair(v) {
                    Some(kv) => read_args(
                        args,
                        i + 2,
                        CliState { aliases: st.aliases.insert(kv.0, kv.1), ..st },
                    ),
                    None => CliOutcome::Fail(CliFailure::InvalidModuleMap),
                }
            }
        } else if a.len() > 0 && a[0] == '-' {
            CliOutcome::Fail(CliFailure::UnrecognizedOption(a))
        } else if st.input is Some {
            CliOutcome::Fail(CliFailure::MultipleInputs)
        } else {
            read_args(args, i + 1, CliState { input: Some(a), ..st })
        }
    }
}

/// The options hold what the state says.
pub open spec fn options_match(o: CompileOptions, st: CliState) -> bool {
    &&& o.wf()
    &&& o.input_file@ == (match st.input {
        Some(f) => f,
        None => Seq::<char>::empty(),
    })
    &&& o.output_file@ == st.output
    &&& o.opt_level == st.opt_level
    &&& o.emit_llvm_ir == st.emit_llvm_ir
    &&& o.link_libc == st.link_libc
    &&& o.asm_dialect == st.asm_dialect
    &&& o.linker_cmd@ == st.linker_cmd
    &&& o.custom_defines.to_map() == st.defines
    &&& o.module_aliases.to_map() == st.aliases
    &&& match st.target {
        Some(t) => {
            &&& o.target.triple@ == triple_canonical(t)
            &&& o.target.arch@ == triple_arch(t)
            &&& o.target.os@ == triple_os(t)
            &&& o.target.pointer_size == pointer_size_of(triple_pointer_bytes(t))
        },
        None => o.target.pointer_size == 2 || o.target.pointer_size == 4
            || o.target.pointer_size == 8,
    }
}

/// The views of the arguments.
pub open spec fn arg_texts(args: Seq<String>) -> Seq<Seq<char>> {
    args.map_values(|a: String| a@)
}

/// The text of an optional string.
pub open spec fn text_of(s: Option<String>) -> Option<Seq<char>> {
    match s {
        Some(t) => Some(t@),
        None => None,
    }
}

/// The text before and after the first `=` of `s`, if it has one.
fn split_at_eq(s: &String) -> (r: Option<(String, String)>)
    ensures
        match (r, split_pair(s@)) {
            (Some(p), Some(q)) => p.0@ == q.0 && p.1@ == q.1,
            (None, None) => true,
            _ => false,
        },
{
    let cs = chars_of(s.as_str());
    let mut i: usize = 0;
    while i < cs.len()
        invariant
            cs@ == s@,
            0 <= i <= cs.len(),
            forall|j: int| 0 <= j < i ==> cs@[j] != '=',
        decreases cs.len() - i,
    {
        if cs[i] == '=' {
            let mut before: Vec<char> = Vec::new();
            let mut after: Vec<char> = Vec::new();
            let mut j: usize = 0;
            while j < i
                invariant
                    0 <= j <= i < cs.len(),
                    before@ == cs@.take(j as int),
                decreases i - j,
            {
                before.push(cs[j]);
                j = j + 1;
                assert(before@ =~= cs@.take(j as int));
            }
            let mut k: usize = i + 1;
            while k < cs.len()
                invariant
                    i + 1 <= k <= cs.len(),
                    after@ == cs@.subrange(i + 1, k as int),
                decreases cs.len() - k,
            {
                after.push(cs[k]);
                k = k + 1;
                assert(after@ =~= cs@.subrange(i + 1, k as int));
            }
            proof {
                lemma_first_index_of(s@, '=');
                match first_index_of(s@, '=') {
                    Some(m) => {
                        assert(m == i as int);
                    },
                    None => {
                        assert(s@[i as int] == '=');
                    },
                }
                assert(cs@.subrange(i + 1, cs@.len() as int) =~= s@.skip(i + 1));
            }
            return Some((string_of(&before), string_of(&after)));
        }
        i = i + 1;
    }
    proof {
        lemma_first_index_of(s@, '=');
        match first_index_of(s@, '=') {
            Some(m) => {
                assert(s@[m] == '=');
            },
            None => {},
        }
    }
    None
}

/// The argument starts with `-`.
fn starts_with_dash(a: &String) -> (b: bool)
    ensures
        b == (a@.len() > 0 && a@[0] == '-'),
{
    let cs = chars_of(a.as_str());
    cs.len() > 0 && cs[0] == '-'
}

/// Read the command line: `args` are the arguments after the program's
/// name and `cc_env` is the value of `CC`, if set. The result is what
/// [`read_args`] says, from the start with [`initial_state`].
pub fn parse_args(args: &Vec<String>, cc_env: Option<String>) -> (r: Result<CliAction, CliError>)
    ensures
        match (r, read_args(arg_texts(args@), 0, initial_state(text_of(cc_env)))) {
            (Ok(CliAction::Help), CliOutcome::Help) => true,
            (Ok(CliAction::Version), CliOutcome::Version) => true,
            (Ok(CliAction::Compile(o)), CliOutcome::Run(st)) => options_match(o, st),
            (Err(e), CliOutcome::Fail(f)) => e.failure() == f,
            _ => false,
        },
{
    let ghost texts = arg_texts(args@);
    let ghost cc_view = text_of(cc_env);
    let ghost goal = read_args(texts, 0, initial_state(cc_view));
    let mut options = CompileOptions::default();
    match cc_env {
        Some(c) => {
            options.linker_cmd = c;
        },
        None => {},
    }
    let ghost mut st = initial_state(cc_view);
    let mut input_set = false;
    let mut i: usize = 0;
    assert(options.custom_defines.to_map() =~= st.defines);
    assert(options.module_aliases.to_map() =~= st.aliases);
    while i < args.len()
        invariant
            texts == arg_texts(args@),
            texts.len() == args@.len(),
            0 <= i <= args.len(),
            options_match(options, st),
            input_set == st.input is Some,
            read_args(texts, i as int, st) == goal,
            goal == read_args(arg_texts(args@), 0, initial_state(text_of(cc_env))),
        decreases args.len() - i,
    {
        let a = &args[i];
        assert(texts[i as int] == a@);
        let has_value = i + 1 < args.len();
        if has_value {
            assert(texts[i + 1] == args@[i + 1]@);
        }
        if text_eq(a.as_str(), "-h") || text_eq(a.as_str(), "--help") {
            assert(read_args(texts, i as int, st) == CliOutcome::Help);
            return Ok(CliAction::Help);
        } else if text_eq(a.as_str(), "-v") || text_eq(a.as_str(), "--version") {
            assert(read_args(texts, i as int, st) == CliOutcome::Version);
            return Ok(CliAction::Version);
        } else if text_eq(a.as_str(), "-o") {
            if !has_value {
                return Err(CliError::MissingValue(ValueOption::Output));
            }
            options.output_file = args[i + 1].clone();
            proof {
                st = CliState { output: texts[i + 1], ..st };
            }
            i = i + 2;
        } else if text_eq(a.as_str(), "-O0") {
            options.opt_level = OptLevel::O0;
            proof {
                st = CliState { opt_level: OptLevel::O0, ..st };
            }
            i = i + 1;
        } else if text_eq(a.as_str(), "-O1") {
            options.opt_level = OptLevel::O1;
            proof {
                st = CliState { opt_level: OptLevel::O1, ..st };
            }
            i = i + 1;
        } else if text_eq(a.as_str(), "-O2") {
            options.opt_level = OptLevel::O2;
            proof {
                st = CliState { opt_level: OptLevel::O2, ..st };
            }
            i = i + 1;
        } else if text_eq(a.as_str(), "-O3") {
            options.opt_level = OptLevel::O3;
            proof {
                st = CliState { opt_level: OptLevel::O3, ..st };
            }
            i = i + 1;
        } else if text_eq(a.as_str(), "--emit-llvm") {
            options.emit_llvm_ir = true;
            proof {
                st = CliState { emit_llvm_ir: true, ..st };
            }
            i = i + 1;
        } else if text_eq(a.as_str(), "--link-libc") {
            options.link_libc = true;
            proof {
                st = CliState { link_libc: true, ..st };
            }
            i = i + 1;
        } else if text_eq(a.as_str(), "--target") {
            if !has_value {
                return Err(CliError::MissingValue(ValueOption::Target));
            }
            match TargetMachine::new(args[i + 1].as_str()) {
                Ok(t) => {
                    options.target = t;
                    proof {
                        st = CliState { target: Some(texts[i + 1]), ..st };
                    }
                },
                Err(e) => {
                    return Err(CliError::InvalidTarget(e));
                },
            }
            i = i + 2;
        } else if text_eq(a.as_str(), "--asm-dialect") {
            if !has_value {
                return Err(CliError::MissingValue(ValueOption::AsmDialect));
            }
            let v = &args[i + 1];
            if text_eq(v.as_str(), "intel") {
                options.asm_dialect = AsmDialect::Intel;
                proof {
                    st = CliState { asm_dialect: AsmDialect::Intel, ..st };
                }
            } else if text_eq(v.as_str(), "att") {
                options.asm_dialect = AsmDialect::Att;
                proof {
                    st = CliState { asm_dialect: AsmDialect::Att, ..st };
                }
            } else {
                return Err(CliError::InvalidAsmDialect);
            }
            i = i + 2;
        } else if text_eq(a.as_str(), "--cc") {
            if !has_value {
                return Err(CliError::MissingValue(ValueOption::Cc));
            }
            options.linker_cmd = args[i + 1].clone();
            proof {
                st = CliState { linker_cmd: texts[i + 1], ..st };
            }
            i = i + 2;
        } else if text_eq(a.as_str(), "-D") {
            if !has_value {
                return Err(CliError::MissingValue(ValueOption::Define));
            }
            match split_at_eq(&args[i + 1]) {
                Some((k, v)) => {
                    let ghost kv = (k@, v@);
                    options.custom_defines.insert(k, v);
                    proof {
                        st = CliState { defines: st.defines.insert(kv.0, kv.1), ..st };
                    }
                },
                None => {
                    return Err(CliError::InvalidDefine);
                },
            }
            i = i + 2;
        } else if text_eq(a.as_str(), "-M") {
            if !has_value {
                return Err(CliError::MissingValue(ValueOption::ModuleMap));
            }
            match split_at_eq(&args[i + 1]) {
                Some((k, v)) => {
                    let ghost kv = (k@, v@);
                    options.module_aliases.insert(k, v);
                    proof {
                        st = CliState { aliases: st.aliases.insert(kv.0, kv.1), ..st };
                    }
                },
                None => {
                    return Err(CliError::InvalidModuleMap);
                },
            }
            i = i + 2;
        } else if starts_with_dash(a) {
            return Err(CliError::UnrecognizedOption(a.clone()));
        } else if input_set {
            return Err(CliError::MultipleInputs);
        } else {
            options.input_file = a.clone();
            input_set = true;
            proof {
                st = CliState { input: Some(texts[i as int]), ..st };
            }
            i = i + 1;
        }
    }
    if !input_set {
        return Err(CliError::NoInput);
    }
    Ok(CliAction::Compile(options))
}

/// The name under which the standard library's directory is mapped.
pub open spec fn std_alias_name() -> Seq<char> {
    seq!['s', 't', 'd']
}

/// The module map once the standard library has a directory: an alias for
/// it given with `-M std=...` stays, else it maps to `default_path`.
pub open spec fn aliases_with_std(
    aliases: Map<Seq<char>, Seq<char>>,
    default_path: Seq<char>,
) -> Map<Seq<char>, Seq<char>> {
    if aliases.contains_key(std_alias_name()) {
        aliases
    } else {
        aliases.insert(std_alias_name(), default_path)
    }
}

/// Give the standard library the directory `default_path` unless the
/// command line already mapped it.
pub fn add_default_std_alias(aliases: &mut StringMap, default_path: String)
    requires
        old(aliases).wf(),
    ensures
        final(aliases).wf(),
        final(aliases).to_map() == aliases_with_std(old(aliases).to_map(), default_path@),
{
    let name = "std";
    proof {
        reveal_strlit("std");
        assert(name@ =~= std_alias_name());
    }
    if !aliases.contains_key(name) {
        aliases.insert(name.to_owned(), default_path);
    }
}

} // verus!
