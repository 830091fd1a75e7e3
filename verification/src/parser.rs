//! Recognition of `rustc` arguments and the fold that builds an [`Info`].

use vstd::prelude::*;

use crate::error::ParseError;
use crate::info::{
    lemma_same_info, same_info, words, EmitView, Emit, ExternView, Extern, Info, InfoView, LibrarySearchPath,
    LibrarySearchPathKind, LibrarySearchPathView, LinkLib, LinkLibKind, LinkLibView, empty_info,
};
use crate::text::{
    begins_with, drop_chars, lemma_first_index, owned, same_word, split_all, split_at_char,
    split_once, split_words,
};

verus! {

/// Internal representation of a parsed argument.
pub enum Arg {
    Help,
    Version,
    Verbose,
    Test,
    OptLevel,
    DebugInfo,
    CrateName(String),
    Edition(String),
    OutDir(String),
    Out(String),
    Target(String),
    Sysroot(String),
    ErrorFormat(String),
    Color(String),
    Json(String),
    CapLints(String),
    Explain(String),
    Print(String),
    Unpretty(String),
    Cfg(String),
    CheckCfg(String),
    CrateType(String),
    Emit(String),
    Extern(String),
    RemapPathPrefix(String),
    LibPath(LibrarySearchPath),
    Link(LinkLib),
    Warn(String),
    Allow(String),
    Deny(String),
    Forbid(String),
    Codegen(String),
    Z(String),
    ArgFile(String),
    Input(String),
    Unknown(String),
}

/// Model of an [`Arg`].
pub enum ArgView {
    Help,
    Version,
    Verbose,
    Test,
    OptLevel,
    DebugInfo,
    CrateName(Seq<char>),
    Edition(Seq<char>),
    OutDir(Seq<char>),
    Out(Seq<char>),
    Target(Seq<char>),
    Sysroot(Seq<char>),
    ErrorFormat(Seq<char>),
    Color(Seq<char>),
    Json(Seq<char>),
    CapLints(Seq<char>),
    Explain(Seq<char>),
    Print(Seq<char>),
    Unpretty(Seq<char>),
    Cfg(Seq<char>),
    CheckCfg(Seq<char>),
    CrateType(Seq<char>),
    Emit(Seq<char>),
    Extern(Seq<char>),
    RemapPathPrefix(Seq<char>),
    LibPath(LibrarySearchPathView),
    Link(LinkLibView),
    Warn(Seq<char>),
    Allow(Seq<char>),
    Deny(Seq<char>),
    Forbid(Seq<char>),
    Codegen(Seq<char>),
    Z(Seq<char>),
    ArgFile(Seq<char>),
    Input(Seq<char>),
    Unknown(Seq<char>),
}

impl View for Arg {
    type V = ArgView;

    open spec fn view(&self) -> ArgView {
        match self {
            Arg::Help => ArgView::Help,
            Arg::Version => ArgView::Version,
            Arg::Verbose => ArgView::Verbose,
            Arg::Test => ArgView::Test,
            Arg::OptLevel => ArgView::OptLevel,
            Arg::DebugInfo => ArgView::DebugInfo,
            Arg::CrateName(v) => ArgView::CrateName(v@),
            Arg::Edition(v) => ArgView::Edition(v@),
            Arg::OutDir(v) => ArgView::OutDir(v@),
            Arg::Out(v) => ArgView::Out(v@),
            Arg::Target(v) => ArgView::Target(v@),
            Arg::Sysroot(v) => ArgView::Sysroot(v@),
            Arg::ErrorFormat(v) => ArgView::ErrorFormat(v@),
            Arg::Color(v) => ArgView::Color(v@),
            Arg::Json(v) => ArgView::Json(v@),
            Arg::CapLints(v) => ArgView::CapLints(v@),
            Arg::Explain(v) => ArgView::Explain(v@),
            Arg::Print(v) => ArgView::Print(v@),
            Arg::Unpretty(v) => ArgView::Unpretty(v@),
            Arg::Cfg(v) => ArgView::Cfg(v@),
            Arg::CheckCfg(v) => ArgView::CheckCfg(v@),
            Arg::CrateType(v) => ArgView::CrateType(v@),
            Arg::Emit(v) => ArgView::Emit(v@),
            Arg::Extern(v) => ArgView::Extern(v@),
            Arg::RemapPathPrefix(v) => ArgView::RemapPathPrefix(v@),
            Arg::LibPath(v) => ArgView::LibPath(v@),
            Arg::Link(v) => ArgView::Link(v@),
            Arg::Warn(v) => ArgView::Warn(v@),
            Arg::Allow(v) => ArgView::Allow(v@),
            Arg::Deny(v) => ArgView::Deny(v@),
            Arg::Forbid(v) => ArgView::Forbid(v@),
            Arg::Codegen(v) => ArgView::Codegen(v@),
            Arg::Z(v) => ArgView::Z(v@),
            Arg::ArgFile(v) => ArgView::ArgFile(v@),
            Arg::Input(v) => ArgView::Input(v@),
            Arg::Unknown(v) => ArgView::Unknown(v@),
        }
    }
}

// ---------------------------------------------------------------------
// What each kind of argument means.
// ---------------------------------------------------------------------

/// The kind named before `=` in a `-L` value.
pub open spec fn spec_search_kind(k: Seq<char>) -> LibrarySearchPathKind {
    if k == "dependency"@ {
        LibrarySearchPathKind::Dep
    } else if k == "crate"@ {
        LibrarySearchPathKind::Crate
    } else if k == "native"@ {
        LibrarySearchPathKind::Native
    } else if k == "framework"@ {
        LibrarySearchPathKind::Framework
    } else {
        LibrarySearchPathKind::All
    }
}

/// `[KIND=]PATH`: a kind that is not one of the four names counts as none.
pub open spec fn spec_parse_libpath(val: Seq<char>) -> LibrarySearchPathView {
    match split_once(val, '=') {
        Some((kind, path)) => LibrarySearchPathView { kind: spec_search_kind(kind), path },
        None => LibrarySearchPathView { kind: LibrarySearchPathKind::All, path: val },
    }
}

/// The link kind with the given name, if any.
pub open spec fn spec_link_kind(k: Seq<char>) -> Option<LinkLibKind> {
    if k == "dylib"@ {
        Some(LinkLibKind::Dylib)
    } else if k == "static"@ {
        Some(LinkLibKind::Static)
    } else if k == "framework"@ {
        Some(LinkLibKind::Framework)
    } else {
        None
    }
}

/// `[KIND[:MODIFIERS]=]NAME[:RENAME]`.
pub open spec fn spec_parse_link(val: Seq<char>) -> LinkLibView {
    let (prefix, rest) = match split_once(val, '=') {
        Some((p, r)) => (Some(p), r),
        None => (None, val),
    };
    let (kind, modifiers) = match prefix {
        Some(p) => match split_once(p, ':') {
            Some((k, m)) => (spec_link_kind(k), split_all(m, ',')),
            None => (spec_link_kind(p), Seq::<Seq<char>>::empty()),
        },
        None => (None, Seq::<Seq<char>>::empty()),
    };
    match split_once(rest, ':') {
        Some((n, r)) => LinkLibView { kind, modifiers, name: n, rename: Some(r) },
        None => LinkLibView { kind, modifiers, name: rest, rename: None },
    }
}

/// One `KIND[=PATH]` piece of an `--emit` value.
pub open spec fn spec_emit_part(p: Seq<char>) -> EmitView {
    match split_once(p, '=') {
        Some((k, path)) => EmitView { kind: k, path: Some(path) },
        None => EmitView { kind: p, path: None },
    }
}

/// The comma-separated pieces of an `--emit` value.
pub open spec fn spec_parse_emit(val: Seq<char>) -> Seq<EmitView> {
    split_all(val, ',').map_values(|p: Seq<char>| spec_emit_part(p))
}

/// `NAME[=PATH]`.
pub open spec fn spec_parse_extern(val: Seq<char>) -> ExternView {
    match split_once(val, '=') {
        Some((name, path)) => ExternView { name, path: Some(path) },
        None => ExternView { name: val, path: None },
    }
}

/// `FROM=TO`; nothing without `=`.
pub open spec fn spec_parse_remap(val: Seq<char>) -> Option<(Seq<char>, Seq<char>)> {
    split_once(val, '=')
}

/// The meaning of an argument that takes a value, given its key and value;
/// nothing when the key takes no value.
#[verifier::opaque]
pub open spec fn spec_value_arg(key: Seq<char>, val: Seq<char>) -> Option<ArgView> {
    if key == "--crate-name"@ {
        Some(ArgView::CrateName(val))
    } else if key == "--edition"@ {
        Some(ArgView::Edition(val))
    } else if key == "--out-dir"@ {
        Some(ArgView::OutDir(val))
    } else if key == "-o"@ || key == "--out"@ {
        Some(ArgView::Out(val))
    } else if key == "--target"@ {
        Some(ArgView::Target(val))
    } else if key == "--sysroot"@ {
        Some(ArgView::Sysroot(val))
    } else if key == "--error-format"@ {
        Some(ArgView::ErrorFormat(val))
    } else if key == "--color"@ {
        Some(ArgView::Color(val))
    } else if key == "--json"@ {
        Some(ArgView::Json(val))
    } else if key == "--cap-lints"@ {
        Some(ArgView::CapLints(val))
    } else if key == "--explain"@ {
        Some(ArgView::Explain(val))
    } else if key == "--print"@ {
        Some(ArgView::Print(val))
    } else if key == "--unpretty"@ {
        Some(ArgView::Unpretty(val))
    } else if key == "--cfg"@ {
        Some(ArgView::Cfg(val))
    } else if key == "--check-cfg"@ {
        Some(ArgView::CheckCfg(val))
    } else if key == "--crate-type"@ {
        Some(ArgView::CrateType(val))
    } else if key == "--emit"@ {
        Some(ArgView::Emit(val))
    } else if key == "--extern"@ {
        Some(ArgView::Extern(val))
    } else if key == "--remap-path-prefix"@ {
        Some(ArgView::RemapPathPrefix(val))
    } else if key == "-W"@ || key == "--warn"@ {
        Some(ArgView::Warn(val))
    } else if key == "-A"@ || key == "--allow"@ {
        Some(ArgView::Allow(val))
    } else if key == "-D"@ || key == "--deny"@ {
        Some(ArgView::Deny(val))
    } else if key == "-F"@ || key == "--forbid"@ {
        Some(ArgView::Forbid(val))
    } else if key == "-C"@ || key == "--codegen"@ {
        Some(ArgView::Codegen(val))
    } else if key == "-Z"@ {
        Some(ArgView::Z(val))
    } else if key == "-L"@ {
        Some(ArgView::LibPath(spec_parse_libpath(val)))
    } else if key == "-l"@ {
        Some(ArgView::Link(spec_parse_link(val)))
    } else {
        None
    }
}

/// Whether `key` names an argument that takes a value.
pub open spec fn takes_value(key: Seq<char>) -> bool {
    spec_value_arg(key, seq![]) is Some
}

/// The meaning of a flag, if `arg` is one.
pub open spec fn spec_flag_arg(arg: Seq<char>) -> Option<ArgView> {
    if arg == "-h"@ || arg == "--help"@ {
        Some(ArgView::Help)
    } else if arg == "-V"@ || arg == "--version"@ {
        Some(ArgView::Version)
    } else if arg == "-v"@ || arg == "--verbose"@ {
        Some(ArgView::Verbose)
    } else if arg == "--test"@ {
        Some(ArgView::Test)
    } else if arg == "-O"@ {
        Some(ArgView::OptLevel)
    } else if arg == "-g"@ {
        Some(ArgView::DebugInfo)
    } else {
        None
    }
}

/// The meaning of a dash argument that is neither a flag nor a key: the
/// attached forms `-CVALUE`, `-ZVALUE`, `-WLINT`, `-ALINT`, `-DLINT`,
/// `-FLINT`, `-lLIB`, `-LPATH`, and otherwise an unknown argument.
pub open spec fn spec_prefix_arg(arg: Seq<char>) -> ArgView {
    let rest = arg.skip(2);
    if arg.len() >= 2 && arg[1] == 'C' {
        ArgView::Codegen(rest)
    } else if arg.len() >= 2 && arg[1] == 'Z' {
        ArgView::Z(rest)
    } else if arg.len() >= 2 && arg[1] == 'W' {
        ArgView::Warn(rest)
    } else if arg.len() >= 2 && arg[1] == 'A' {
        ArgView::Allow(rest)
    } else if arg.len() >= 2 && arg[1] == 'D' {
        ArgView::Deny(rest)
    } else if arg.len() >= 2 && arg[1] == 'F' {
        ArgView::Forbid(rest)
    } else if arg.len() >= 2 && arg[1] == 'l' {
        ArgView::Link(spec_parse_link(rest))
    } else if arg.len() >= 2 && arg[1] == 'L' {
        ArgView::LibPath(spec_parse_libpath(rest))
    } else {
        ArgView::Unknown(arg)
    }
}

/// The meaning of `arg` (followed by `next`, if any), and how many
/// arguments it takes up: two when a key is followed by its value.
#[verifier::opaque]
pub open spec fn spec_parse_arg(arg: Seq<char>, next: Option<Seq<char>>) -> (ArgView, int) {
    if arg.len() > 0 && arg[0] == '@' {
        (ArgView::ArgFile(arg.skip(1)), 1)
    } else {
        let by_eq = match split_once(arg, '=') {
            Some((k, v)) => spec_value_arg(k, v),
            None => None,
        };
        if by_eq is Some {
            (by_eq.unwrap(), 1)
        } else if spec_flag_arg(arg) is Some {
            (spec_flag_arg(arg).unwrap(), 1)
        } else if takes_value(arg) {
            match next {
                Some(v) => (spec_value_arg(arg, v).unwrap(), 2),
                None => (ArgView::Unknown(arg), 1),
            }
        } else if arg.len() > 0 && arg[0] == '-' {
            (spec_prefix_arg(arg), 1)
        } else {
            (ArgView::Input(arg), 1)
        }
    }
}

/// An argument takes up itself, or itself and the next one when there is one.
pub proof fn lemma_parse_arg_width(arg: Seq<char>, next: Option<Seq<char>>)
    ensures
        spec_parse_arg(arg, next).1 == 1 || (spec_parse_arg(arg, next).1 == 2 && next is Some),
{
    reveal(spec_parse_arg);
}

/// What an argument changes in the parsed arguments; `raw` is the argument as written.
#[verifier::opaque]
pub open spec fn spec_apply(info: InfoView, arg: ArgView, raw: Seq<char>) -> InfoView {
    match arg {
        ArgView::Help => InfoView { help: true, ..info },
        ArgView::Version => InfoView { version: true, ..info },
        ArgView::Verbose => InfoView { verbose: true, ..info },
        ArgView::Test => InfoView { test: true, ..info },
        ArgView::OptLevel => InfoView { opt_level: true, ..info },
        ArgView::DebugInfo => InfoView { debug_info: true, ..info },
        ArgView::CrateName(v) => InfoView { crate_name: Some(v), ..info },
        ArgView::Edition(v) => InfoView { edition: Some(v), ..info },
        ArgView::OutDir(v) => InfoView { out_dir: Some(v), ..info },
        ArgView::Out(v) => InfoView { out: Some(v), ..info },
        ArgView::Target(v) => InfoView { target: Some(v), ..info },
        ArgView::Sysroot(v) => InfoView { sysroot: Some(v), ..info },
        ArgView::ErrorFormat(v) => InfoView { error_format: Some(v), ..info },
        ArgView::Color(v) => InfoView { color: Some(v), ..info },
        ArgView::Json(v) => InfoView { json: Some(v), ..info },
        ArgView::CapLints(v) => InfoView { cap_lints: Some(v), ..info },
        ArgView::Explain(v) => InfoView { explain: Some(v), ..info },
        ArgView::Print(v) => InfoView { print: Some(v), ..info },
        ArgView::Unpretty(v) => InfoView { unpretty: Some(v), ..info },
        ArgView::Cfg(v) => InfoView { configs: info.configs.push(v), ..info },
        ArgView::CheckCfg(v) => InfoView { confchecks: info.confchecks.push(v), ..info },
        ArgView::CrateType(v) => InfoView { crate_types: info.crate_types.push(v), ..info },
        ArgView::LibPath(v) => InfoView { libpaths: info.libpaths.push(v), ..info },
        ArgView::Link(v) => InfoView { links: info.links.push(v), ..info },
        ArgView::Warn(v) => InfoView { warns: info.warns.push(v), ..info },
        ArgView::Allow(v) => InfoView { allows: info.allows.push(v), ..info },
        ArgView::Deny(v) => InfoView { denies: info.denies.push(v), ..info },
        ArgView::Forbid(v) => InfoView { forbids: info.forbids.push(v), ..info },
        ArgView::Codegen(v) => InfoView { codegen_opts: info.codegen_opts.push(v), ..info },
        ArgView::Z(v) => InfoView { z_opts: info.z_opts.push(v), ..info },
        ArgView::Input(v) => InfoView { inputs: info.inputs.push(v), ..info },
        ArgView::Unknown(v) => InfoView { unknown: info.unknown.push(v), ..info },
        ArgView::Extern(v) => InfoView { externs: info.externs.push(spec_parse_extern(v)), ..info },
        ArgView::ArgFile(_) => InfoView { unknown: info.unknown.push(raw), ..info },
        ArgView::Emit(v) => InfoView { emits: info.emits + spec_parse_emit(v), ..info },
        ArgView::RemapPathPrefix(v) => match spec_parse_remap(v) {
            Some(r) => InfoView { remap_path_prefixes: info.remap_path_prefixes.push(r), ..info },
            None => info,
        },
    }
}

/// What each kind of argument changes in the parsed arguments.
pub proof fn lemma_apply_effects()
    ensures
        forall|i: InfoView, raw: Seq<char>|
            #[trigger] spec_apply(i, ArgView::Help, raw) === (InfoView { help: true, ..i }),
        forall|i: InfoView, raw: Seq<char>|
            #[trigger] spec_apply(i, ArgView::Version, raw) === (InfoView { version: true, ..i }),
        forall|i: InfoView, raw: Seq<char>|
            #[trigger] spec_apply(i, ArgView::Verbose, raw) === (InfoView { verbose: true, ..i }),
        forall|i: InfoView, raw: Seq<char>|
            #[trigger] spec_apply(i, ArgView::Test, raw) === (InfoView { test: true, ..i }),
        forall|i: InfoView, raw: Seq<char>|
            #[trigger] spec_apply(i, ArgView::OptLevel, raw) === (InfoView { opt_level: true, ..i }),
        forall|i: InfoView, raw: Seq<char>|
            #[trigger] spec_apply(i, ArgView::DebugInfo, raw) === (InfoView { debug_info: true, ..i }),
        forall|i: InfoView, v: Seq<char>, raw: Seq<char>|
            #[trigger] spec_apply(i, ArgView::CrateName(v), raw) === (InfoView { crate_name: Some(v), ..i }),
        forall|i: InfoView, v: Seq<char>, raw: Seq<char>|
            #[trigger] spec_apply(i, ArgView::Edition(v), raw) === (InfoView { edition: Some(v), ..i }),
        forall|i: InfoView, v: Seq<char>, raw: Seq<char>|
            #[trigger] spec_apply(i, ArgView::OutDir(v), raw) === (InfoView { out_dir: Some(v), ..i }),
        forall|i: InfoView, v: Seq<char>, raw: Seq<char>|
            #[trigger] spec_apply(i, ArgView::Out(v), raw) === (InfoView { out: Some(v), ..i }),
        forall|i: InfoView, v: Seq<char>, raw: Seq<char>|
            #[trigger] spec_apply(i, ArgView::Target(v), raw) === (InfoView { target: Some(v), ..i }),
        forall|i: InfoView, v: Seq<char>, raw: Seq<char>|
            #[trigger] spec_apply(i, ArgView::Sysroot(v), raw) === (InfoView { sysroot: Some(v), ..i }),
        forall|i: InfoView, v: Seq<char>, raw: Seq<char>|
            #[trigger] spec_apply(i, ArgView::ErrorFormat(v), raw) === (InfoView { error_format: Some(v), ..i }),
        forall|i: InfoView, v: Seq<char>, raw: Seq<char>|
            #[trigger] spec_apply(i, ArgView::Color(v), raw) === (InfoView { color: Some(v), ..i }),
        forall|i: InfoView, v: Seq<char>, raw: Seq<char>|
            #[trigger] spec_apply(i, ArgView::Json(v), raw) === (InfoView { json: Some(v), ..i }),
        forall|i: InfoView, v: Seq<char>, raw: Seq<char>|
            #[trigger] spec_apply(i, ArgView::CapLints(v), raw) === (InfoView { cap_lints: Some(v), ..i }),
        forall|i: InfoView, v: Seq<char>, raw: Seq<char>|
            #[trigger] spec_apply(i, ArgView::Explain(v), raw) === (InfoView { explain: Some(v), ..i }),
        forall|i: InfoView, v: Seq<char>, raw: Seq<char>|
            #[trigger] spec_apply(i, ArgView::Print(v), raw) === (InfoView { print: Some(v), ..i }),
        forall|i: InfoView, v: Seq<char>, raw: Seq<char>|
            #[trigger] spec_apply(i, ArgView::Unpretty(v), raw) === (InfoView { unpretty: Some(v), ..i }),
        forall|i: InfoView, v: Seq<char>, raw: Seq<char>|
            #[trigger] spec_apply(i, ArgView::Cfg(v), raw) === (InfoView { configs: i.configs.push(v), ..i }),
        forall|i: InfoView, v: Seq<char>, raw: Seq<char>|
            #[trigger] spec_apply(i, ArgView::CheckCfg(v), raw) === (InfoView { confchecks: i.confchecks.push(v), ..i }),
        forall|i: InfoView, v: Seq<char>, raw: Seq<char>|
            #[trigger] spec_apply(i, ArgView::CrateType(v), raw) === (InfoView { crate_types: i.crate_types.push(v), ..i }),
        forall|i: InfoView, v: LibrarySearchPathView, raw: Seq<char>|
            #[trigger] spec_apply(i, ArgView::LibPath(v), raw) === (InfoView { libpaths: i.libpaths.push(v), ..i }),
        forall|i: InfoView, v: LinkLibView, raw: Seq<char>|
            #[trigger] spec_apply(i, ArgView::Link(v), raw) === (InfoView { links: i.links.push(v), ..i }),
        forall|i: InfoView, v: Seq<char>, raw: Seq<char>|
            #[trigger] spec_apply(i, ArgView::Warn(v), raw) === (InfoView { warns: i.warns.push(v), ..i }),
        forall|i: InfoView, v: Seq<char>, raw: Seq<char>|
            #[trigger] spec_apply(i, ArgView::Allow(v), raw) === (InfoView { allows: i.allows.push(v), ..i }),
        forall|i: InfoView, v: Seq<char>, raw: Seq<char>|
            #[trigger] spec_apply(i, ArgView::Deny(v), raw) === (InfoView { denies: i.denies.push(v), ..i }),
        forall|i: InfoView, v: Seq<char>, raw: Seq<char>|
            #[trigger] spec_apply(i, ArgView::Forbid(v), raw) === (InfoView { forbids: i.forbids.push(v), ..i }),
        forall|i: InfoView, v: Seq<char>, raw: Seq<char>|
            #[trigger] spec_apply(i, ArgView::Codegen(v), raw) === (InfoView { codegen_opts: i.codegen_opts.push(v), ..i }),
        forall|i: InfoView, v: Seq<char>, raw: Seq<char>|
            #[trigger] spec_apply(i, ArgView::Z(v), raw) === (InfoView { z_opts: i.z_opts.push(v), ..i }),
        forall|i: InfoView, v: Seq<char>, raw: Seq<char>|
            #[trigger] spec_apply(i, ArgView::Input(v), raw) === (InfoView { inputs: i.inputs.push(v), ..i }),
        forall|i: InfoView, v: Seq<char>, raw: Seq<char>|
            #[trigger] spec_apply(i, ArgView::Unknown(v), raw) === (InfoView { unknown: i.unknown.push(v), ..i }),
        forall|i: InfoView, v: Seq<char>, raw: Seq<char>|
            #[trigger] spec_apply(i, ArgView::Extern(v), raw) === (InfoView { externs: i.externs.push(spec_parse_extern(v)), ..i }),
        forall|i: InfoView, v: Seq<char>, raw: Seq<char>|
            #[trigger] spec_apply(i, ArgView::ArgFile(v), raw) === (InfoView { unknown: i.unknown.push(raw), ..i }),
        forall|i: InfoView, v: Seq<char>, raw: Seq<char>|
            #[trigger] spec_apply(i, ArgView::Emit(v), raw) === (InfoView { emits: i.emits + spec_parse_emit(v), ..i }),
        forall|i: InfoView, v: Seq<char>, raw: Seq<char>|
            #[trigger] spec_apply(i, ArgView::RemapPathPrefix(v), raw) === match spec_parse_remap(v) {
                Some(r) => InfoView { remap_path_prefixes: i.remap_path_prefixes.push(r), ..i },
                None => i,
            },
{
    reveal(spec_apply);
}

/// The parsed arguments after reading `rest` into `info`: `--` sends
/// itself and everything after it to the unknown arguments.
#[verifier::opaque]
pub open spec fn spec_parse_rest(rest: Seq<Seq<char>>, info: InfoView) -> InfoView
    decreases rest.len(),
{
    if rest.len() == 0 {
        info
    } else if rest[0] == "--"@ {
        InfoView { unknown: info.unknown + rest, ..info }
    } else {
        let next = if rest.len() > 1 {
            Some(rest[1])
        } else {
            None
        };
        let (a, width) = spec_parse_arg(rest[0], next);
        proof {
            lemma_parse_arg_width(rest[0], next);
        }
        spec_parse_rest(rest.skip(width), spec_apply(info, a, rest[0]))
    }
}

/// The parsed form of `<wrapper> - <rustc> <args...>`.
pub open spec fn spec_parse(args: Seq<Seq<char>>) -> InfoView
    recommends
        args.len() >= 3,
{
    spec_parse_rest(args.skip(3), InfoView { rustc: Some(args[2]), ..empty_info() })
}

// ---------------------------------------------------------------------
// Executable recognition.
// ---------------------------------------------------------------------

/// Cuts `KEY=VALUE` at its first `=`.
fn split_eq(arg: &str) -> (r: Option<(&str, &str)>)
    ensures
        match r {
            Some((k, v)) => split_once(arg@, '=') == Some((k@, v@)),
            None => split_once(arg@, '=') is None,
        },
{
    split_at_char(arg, '=')
}

fn parse_libpath(val: &str) -> (r: LibrarySearchPath)
    ensures
        r@ == spec_parse_libpath(val@),
{
    if let Some((kind, path)) = split_eq(val) {
        let k = if same_word(kind, "dependency") {
            LibrarySearchPathKind::Dep
        } else if same_word(kind, "crate") {
            LibrarySearchPathKind::Crate
        } else if same_word(kind, "native") {
            LibrarySearchPathKind::Native
        } else if same_word(kind, "framework") {
            LibrarySearchPathKind::Framework
        } else {
            LibrarySearchPathKind::All
        };
        LibrarySearchPath { kind: k, path: owned(path) }
    } else {
        LibrarySearchPath { kind: LibrarySearchPathKind::All, path: owned(val) }
    }
}

fn parse_link(val: &str) -> (r: LinkLib)
    ensures
        r@ == spec_parse_link(val@),
{
    let (prefix, rest) = match split_eq(val) {
        Some((p, r)) => (Some(p), r),
        None => (None, val),
    };
    let mut kind = None;
    let mut modifiers: Vec<String> = Vec::new();
    if let Some(p) = prefix {
        let (k_str, mods_str) = match split_at_char(p, ':') {
            Some((k, m)) => (k, Some(m)),
            None => (p, None),
        };
        kind = if same_word(k_str, "dylib") {
            Some(LinkLibKind::Dylib)
        } else if same_word(k_str, "static") {
            Some(LinkLibKind::Static)
        } else if same_word(k_str, "framework") {
            Some(LinkLibKind::Framework)
        } else {
            None
        };
        if let Some(m) = mods_str {
            modifiers = split_words(m, ',');
        }
    }
    let (name, rename) = match split_at_char(rest, ':') {
        Some((n, r)) => (owned(n), Some(owned(r))),
        None => (owned(rest), None),
    };
    let r = LinkLib { kind, modifiers, name, rename };
    assert(words(Seq::<String>::empty()) =~= Seq::<Seq<char>>::empty());
    r
}

fn parse_emit(val: &str) -> (r: Vec<Emit>)
    ensures
        r@.map_values(|e: Emit| e@) == spec_parse_emit(val@),
{
    let parts = split_words(val, ',');
    let ghost pieces = parts@.map_values(|w: String| w@);
    let mut emits: Vec<Emit> = Vec::new();
    let mut i: usize = 0;
    while i < parts.len()
        invariant
            i <= parts.len(),
            pieces == parts@.map_values(|w: String| w@),
            pieces == split_all(val@, ','),
            emits@.map_values(|e: Emit| e@) == pieces.take(i as int).map_values(
                |p: Seq<char>| spec_emit_part(p),
            ),
        decreases parts.len() - i,
    {
        let part = parts[i].as_str();
        let e = if let Some((kind, path)) = split_eq(part) {
            Emit { kind: owned(kind), path: Some(owned(path)) }
        } else {
            Emit { kind: owned(part), path: None }
        };
        let ghost before = emits@;
        emits.push(e);
        proof {
            assert(emits@.map_values(|e: Emit| e@) =~= before.map_values(|e: Emit| e@).push(e@));
            assert(pieces.take(i + 1).map_values(|p: Seq<char>| spec_emit_part(p)) =~= pieces.take(
                i as int,
            ).map_values(|p: Seq<char>| spec_emit_part(p)).push(spec_emit_part(pieces[i as int])));
        }
        i = i + 1;
    }
    assert(pieces.take(parts.len() as int) =~= pieces);
    emits
}

fn parse_extern(val: &str) -> (r: Extern)
    ensures
        r@ == spec_parse_extern(val@),
{
    if let Some((name, path)) = split_eq(val) {
        Extern { name: owned(name), path: Some(owned(path)) }
    } else {
        Extern { name: owned(val), path: None }
    }
}

fn parse_remap(val: &str) -> (r: Option<(String, String)>)
    ensures
        match r {
            Some(p) => spec_parse_remap(val@) == Some(p@),
            None => spec_parse_remap(val@) is None,
        },
{
    let (from, to) = split_eq(val)?;
    Some((owned(from), owned(to)))
}

/// The model of an optional argument.
pub open spec fn opt_arg(a: Option<Arg>) -> Option<ArgView> {
    match a {
        Some(x) => Some(x@),
        None => None,
    }
}

/// The argument that `key` with `val` stands for, when `key` takes a value.
fn value_arg(key: &str, val: &str) -> (r: Option<Arg>)
    ensures
        opt_arg(r) == spec_value_arg(key@, val@),
{
    reveal(spec_value_arg);
    if same_word(key, "--crate-name") {
        Some(Arg::CrateName(owned(val)))
    } else if same_word(key, "--edition") {
        Some(Arg::Edition(owned(val)))
    } else if same_word(key, "--out-dir") {
        Some(Arg::OutDir(owned(val)))
    } else if same_word(key, "-o") || same_word(key, "--out") {
        Some(Arg::Out(owned(val)))
    } else if same_word(key, "--target") {
        Some(Arg::Target(owned(val)))
    } else if same_word(key, "--sysroot") {
        Some(Arg::Sysroot(owned(val)))
    } else if same_word(key, "--error-format") {
        Some(Arg::ErrorFormat(owned(val)))
    } else if same_word(key, "--color") {
        Some(Arg::Color(owned(val)))
    } else if same_word(key, "--json") {
        Some(Arg::Json(owned(val)))
    } else if same_word(key, "--cap-lints") {
        Some(Arg::CapLints(owned(val)))
    } else if same_word(key, "--explain") {
        Some(Arg::Explain(owned(val)))
    } else if same_word(key, "--print") {
        Some(Arg::Print(owned(val)))
    } else if same_word(key, "--unpretty") {
        Some(Arg::Unpretty(owned(val)))
    } else if same_word(key, "--cfg") {
        Some(Arg::Cfg(owned(val)))
    } else if same_word(key, "--check-cfg") {
        Some(Arg::CheckCfg(owned(val)))
    } else if same_word(key, "--crate-type") {
        Some(Arg::CrateType(owned(val)))
    } else if same_word(key, "--emit") {
        Some(Arg::Emit(owned(val)))
    } else if same_word(key, "--extern") {
        Some(Arg::Extern(owned(val)))
    } else if same_word(key, "--remap-path-prefix") {
        Some(Arg::RemapPathPrefix(owned(val)))
    } else if same_word(key, "-W") || same_word(key, "--warn") {
        Some(Arg::Warn(owned(val)))
    } else if same_word(key, "-A") || same_word(key, "--allow") {
        Some(Arg::Allow(owned(val)))
    } else if same_word(key, "-D") || same_word(key, "--deny") {
        Some(Arg::Deny(owned(val)))
    } else if same_word(key, "-F") || same_word(key, "--forbid") {
        Some(Arg::Forbid(owned(val)))
    } else if same_word(key, "-C") || same_word(key, "--codegen") {
        Some(Arg::Codegen(owned(val)))
    } else if same_word(key, "-Z") {
        Some(Arg::Z(owned(val)))
    } else if same_word(key, "-L") {
        Some(Arg::LibPath(parse_libpath(val)))
    } else if same_word(key, "-l") {
        Some(Arg::Link(parse_link(val)))
    } else {
        None
    }
}

/// The flag that `arg` is, if any.
fn flag_arg(arg: &str) -> (r: Option<Arg>)
    ensures
        opt_arg(r) == spec_flag_arg(arg@),
{
    if same_word(arg, "-h") || same_word(arg, "--help") {
        Some(Arg::Help)
    } else if same_word(arg, "-V") || same_word(arg, "--version") {
        Some(Arg::Version)
    } else if same_word(arg, "-v") || same_word(arg, "--verbose") {
        Some(Arg::Verbose)
    } else if same_word(arg, "--test") {
        Some(Arg::Test)
    } else if same_word(arg, "-O") {
        Some(Arg::OptLevel)
    } else if same_word(arg, "-g") {
        Some(Arg::DebugInfo)
    } else {
        None
    }
}

/// The model of an optional following argument.
pub open spec fn opt_word(o: Option<&str>) -> Option<Seq<char>> {
    match o {
        Some(s) => Some(s@),
        None => None,
    }
}

fn parse_arg(arg: &str, next_arg: Option<&str>) -> (r: (Arg, usize))
    ensures
        (r.0@, r.1 as int) == spec_parse_arg(arg@, opt_word(next_arg)),
{
    reveal(spec_parse_arg);
    reveal(spec_value_arg);
    if begins_with(arg, '@') {
        return (Arg::ArgFile(owned(drop_chars(arg, 1))), 1);
    }
    if let Some((key, val)) = split_eq(arg) {
        if let Some(a) = value_arg(key, val) {
            return (a, 1);
        }
    }
    if let Some(a) = flag_arg(arg) {
        return (a, 1);
    }
    proof {
        reveal_strlit("");
    }
    if value_arg(arg, "").is_some() {
        match next_arg {
            Some(val) => {
                let a = value_arg(arg, val);
                match a {
                    Some(a) => {
                        return (a, 2);
                    },
                    None => {
                        return (Arg::Unknown(owned(arg)), 1);
                    },
                }
            },
            None => {
                return (Arg::Unknown(owned(arg)), 1);
            },
        }
    }
    if begins_with(arg, '-') {
        let n = arg.unicode_len();
        if n >= 2 {
            let c = arg.get_char(1);
            let stripped = drop_chars(arg, 2);
            if c == 'C' {
                return (Arg::Codegen(owned(stripped)), 1);
            }
            if c == 'Z' {
                return (Arg::Z(owned(stripped)), 1);
            }
            if c == 'W' {
                return (Arg::Warn(owned(stripped)), 1);
            }
            if c == 'A' {
                return (Arg::Allow(owned(stripped)), 1);
            }
            if c == 'D' {
                return (Arg::Deny(owned(stripped)), 1);
            }
            if c == 'F' {
                return (Arg::Forbid(owned(stripped)), 1);
            }
            if c == 'l' {
                return (Arg::Link(parse_link(stripped)), 1);
            }
            if c == 'L' {
                return (Arg::LibPath(parse_libpath(stripped)), 1);
            }
        }
        (Arg::Unknown(owned(arg)), 1)
    } else {
        (Arg::Input(owned(arg)), 1)
    }
}

/// Records one recognised argument in `info`; `raw` is the argument as written.
#[verifier::rlimit(30)]
fn record(info: &mut Info, parsed: Arg, raw: &str)
    ensures
        final(info)@ == spec_apply(old(info)@, parsed@, raw@),
{
    reveal(spec_apply);
    let ghost before = info@;
    let ghost p = parsed@;
    match parsed {
        Arg::Help => info.help = true,
        Arg::Version => info.version = true,
        Arg::Verbose => info.verbose = true,
        Arg::Test => info.test = true,
        Arg::OptLevel => info.opt_level = true,
        Arg::DebugInfo => info.debug_info = true,
        Arg::CrateName(v) => info.crate_name = Some(v),
        Arg::Edition(v) => info.edition = Some(v),
        Arg::OutDir(v) => info.out_dir = Some(v),
        Arg::Out(v) => info.out = Some(v),
        Arg::Target(v) => info.target = Some(v),
        Arg::Sysroot(v) => info.sysroot = Some(v),
        Arg::ErrorFormat(v) => info.error_format = Some(v),
        Arg::Color(v) => info.color = Some(v),
        Arg::Json(v) => info.json = Some(v),
        Arg::CapLints(v) => info.cap_lints = Some(v),
        Arg::Explain(v) => info.explain = Some(v),
        Arg::Print(v) => info.print = Some(v),
        Arg::Unpretty(v) => info.unpretty = Some(v),
        Arg::Cfg(v) => {
            let ghost x = v@;
            info.configs.push(v);
            assert(info@.configs =~= before.configs.push(x));
        },
        Arg::CheckCfg(v) => {
            let ghost x = v@;
            info.confchecks.push(v);
            assert(info@.confchecks =~= before.confchecks.push(x));
        },
        Arg::CrateType(v) => {
            let ghost x = v@;
            info.crate_types.push(v);
            assert(info@.crate_types =~= before.crate_types.push(x));
        },
        Arg::LibPath(v) => {
            let ghost x = v@;
            info.libpaths.push(v);
            assert(info@.libpaths =~= before.libpaths.push(x));
        },
        Arg::Link(v) => {
            let ghost x = v@;
            info.links.push(v);
            assert(info@.links =~= before.links.push(x));
        },
        Arg::Warn(v) => {
            let ghost x = v@;
            info.warns.push(v);
            assert(info@.warns =~= before.warns.push(x));
        },
        Arg::Allow(v) => {
            let ghost x = v@;
            info.allows.push(v);
            assert(info@.allows =~= before.allows.push(x));
        },
        Arg::Deny(v) => {
            let ghost x = v@;
            info.denies.push(v);
            assert(info@.denies =~= before.denies.push(x));
        },
        Arg::Forbid(v) => {
            let ghost x = v@;
            info.forbids.push(v);
            assert(info@.forbids =~= before.forbids.push(x));
        },
        Arg::Codegen(v) => {
            let ghost x = v@;
            info.codegen_opts.push(v);
            assert(info@.codegen_opts =~= before.codegen_opts.push(x));
        },
        Arg::Z(v) => {
            let ghost x = v@;
            info.z_opts.push(v);
            assert(info@.z_opts =~= before.z_opts.push(x));
        },
        Arg::Input(v) => {
            let ghost x = v@;
            info.inputs.push(v);
            assert(info@.inputs =~= before.inputs.push(x));
        },
        Arg::Unknown(v) => {
            let ghost x = v@;
            info.unknown.push(v);
            assert(info@.unknown =~= before.unknown.push(x));
        },
        Arg::Extern(v) => {
            let x = parse_extern(v.as_str());
            let ghost m = x@;
            info.externs.push(x);
            assert(info@.externs =~= before.externs.push(m));
        },
        Arg::ArgFile(_) => {
            info.unknown.push(owned(raw));
            assert(info@.unknown =~= before.unknown.push(raw@));
        },
        Arg::Emit(v) => {
            let mut es = parse_emit(v.as_str());
            let ghost added = es@;
            info.emits.append(&mut es);
            assert(info@.emits =~= before.emits + added.map_values(|e: Emit| e@));
        },
        Arg::RemapPathPrefix(v) => {
            if let Some(remap) = parse_remap(v.as_str()) {
                let ghost m = remap@;
                info.remap_path_prefixes.push(remap);
                assert(info@.remap_path_prefixes =~= before.remap_path_prefixes.push(m));
            }
        },
    }
    assert(info@ == spec_apply(before, p, raw@));
}

/// Parses the arguments of a `RUSTC_WRAPPER` invocation,
/// `<wrapper> - <rustc> <args...>`, into an [`Info`].
pub fn parse(args: &Vec<String>) -> (r: Result<Info, ParseError>)
    requires
        args.len() >= 3,
    ensures
        r matches Ok(info) && info@ == spec_parse(words(args@)),
{
    reveal(spec_parse_rest);
    let ghost all = words(args@);
    let mut info = Info::default();
    info.rustc = Some(args[2].clone());
    assert(same_info(info@, InfoView { rustc: Some(all[2]), ..empty_info() }));
    proof {
        lemma_same_info(info@, InfoView { rustc: Some(all[2]), ..empty_info() });
    }
    let n = args.len();
    let mut i: usize = 3;
    while i < n
        invariant
            3 <= i <= n,
            n == args.len(),
            all == words(args@),
            spec_parse(all) == spec_parse_rest(all.skip(i as int), info@),
        decreases n - i,
    {
        proof {
            reveal(spec_parse_rest);
        }
        let arg = args[i].as_str();
        let ghost rest = all.skip(i as int);
        assert(rest[0] == arg@);
        if same_word(arg, "--") {
            let ghost start = info@;
            let mut j = i;
            while j < n
                invariant
                    i <= j <= n,
                    n == args.len(),
                    all == words(args@),
                    info@ == (InfoView { unknown: start.unknown + all.subrange(i as int, j as int), ..start }),
                decreases n - j,
            {
                let ghost before = info.unknown@;
                info.unknown.push(args[j].clone());
                assert(words(info.unknown@) =~= words(before).push(all[j as int]));
                assert(all.subrange(i as int, j + 1) =~= all.subrange(i as int, j as int).push(all[j as int]));
                assert(start.unknown + all.subrange(i as int, j + 1) =~= (start.unknown + all.subrange(
                    i as int,
                    j as int,
                )).push(all[j as int]));
                proof {
                    lemma_same_info(info@, InfoView { unknown: start.unknown + all.subrange(i as int, j + 1), ..start });
                }
                j = j + 1;
            }
            assert(all.subrange(i as int, n as int) =~= rest);
            proof {
                lemma_same_info(info@, InfoView { unknown: start.unknown + rest, ..start });
            }
            return Ok(info);
        }
        let next_arg = if i + 1 < n {
            Some(args[i + 1].as_str())
        } else {
            None
        };
        assert(opt_word(next_arg) == (if rest.len() > 1 { Some(rest[1]) } else { None }));
        let (parsed, consumed) = parse_arg(arg, next_arg);
        proof {
            lemma_parse_arg_width(arg@, opt_word(next_arg));
        }
        record(&mut info, parsed, arg);
        assert(rest.skip(consumed as int) =~= all.skip(i + consumed));
        i = i + consumed;
    }
    assert(all.skip(n as int) =~= Seq::<Seq<char>>::empty());
    Ok(info)
}

} // verus!
