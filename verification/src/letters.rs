//! The letters of the option names, and what follows from them about
//! which words are keys and flags.

use vstd::prelude::*;

use crate::parser::{spec_flag_arg, spec_parse_libpath, spec_parse_link, spec_value_arg, takes_value, ArgView};

verus! {

/// The letters of the keys that take a value.
pub proof fn lemma_key_letters()
    ensures
        "--crate-name"@ == seq!['-', '-', 'c', 'r', 'a', 't', 'e', '-', 'n', 'a', 'm', 'e'],
        "--edition"@ == seq!['-', '-', 'e', 'd', 'i', 't', 'i', 'o', 'n'],
        "--out-dir"@ == seq!['-', '-', 'o', 'u', 't', '-', 'd', 'i', 'r'],
        "-o"@ == seq!['-', 'o'],
        "--out"@ == seq!['-', '-', 'o', 'u', 't'],
        "--target"@ == seq!['-', '-', 't', 'a', 'r', 'g', 'e', 't'],
        "--sysroot"@ == seq!['-', '-', 's', 'y', 's', 'r', 'o', 'o', 't'],
        "--error-format"@ == seq!['-', '-', 'e', 'r', 'r', 'o', 'r', '-', 'f', 'o', 'r', 'm', 'a', 't'],
        "--color"@ == seq!['-', '-', 'c', 'o', 'l', 'o', 'r'],
        "--json"@ == seq!['-', '-', 'j', 's', 'o', 'n'],
        "--cap-lints"@ == seq!['-', '-', 'c', 'a', 'p', '-', 'l', 'i', 'n', 't', 's'],
        "--explain"@ == seq!['-', '-', 'e', 'x', 'p', 'l', 'a', 'i', 'n'],
        "--print"@ == seq!['-', '-', 'p', 'r', 'i', 'n', 't'],
        "--unpretty"@ == seq!['-', '-', 'u', 'n', 'p', 'r', 'e', 't', 't', 'y'],
        "--cfg"@ == seq!['-', '-', 'c', 'f', 'g'],
        "--check-cfg"@ == seq!['-', '-', 'c', 'h', 'e', 'c', 'k', '-', 'c', 'f', 'g'],
        "--crate-type"@ == seq!['-', '-', 'c', 'r', 'a', 't', 'e', '-', 't', 'y', 'p', 'e'],
        "--emit"@ == seq!['-', '-', 'e', 'm', 'i', 't'],
        "--extern"@ == seq!['-', '-', 'e', 'x', 't', 'e', 'r', 'n'],
        "--remap-path-prefix"@ == seq!['-', '-', 'r', 'e', 'm', 'a', 'p', '-', 'p', 'a', 't', 'h', '-', 'p', 'r', 'e', 'f', 'i', 'x'],
        "-W"@ == seq!['-', 'W'],
        "--warn"@ == seq!['-', '-', 'w', 'a', 'r', 'n'],
        "-A"@ == seq!['-', 'A'],
        "--allow"@ == seq!['-', '-', 'a', 'l', 'l', 'o', 'w'],
        "-D"@ == seq!['-', 'D'],
        "--deny"@ == seq!['-', '-', 'd', 'e', 'n', 'y'],
        "-F"@ == seq!['-', 'F'],
        "--forbid"@ == seq!['-', '-', 'f', 'o', 'r', 'b', 'i', 'd'],
        "-C"@ == seq!['-', 'C'],
        "--codegen"@ == seq!['-', '-', 'c', 'o', 'd', 'e', 'g', 'e', 'n'],
        "-Z"@ == seq!['-', 'Z'],
        "-L"@ == seq!['-', 'L'],
        "-l"@ == seq!['-', 'l'],
{
    reveal_strlit("--crate-name");
    assert("--crate-name"@ =~= seq!['-', '-', 'c', 'r', 'a', 't', 'e', '-', 'n', 'a', 'm', 'e']);
    reveal_strlit("--edition");
    assert("--edition"@ =~= seq!['-', '-', 'e', 'd', 'i', 't', 'i', 'o', 'n']);
    reveal_strlit("--out-dir");
    assert("--out-dir"@ =~= seq!['-', '-', 'o', 'u', 't', '-', 'd', 'i', 'r']);
    reveal_strlit("-o");
    assert("-o"@ =~= seq!['-', 'o']);
    reveal_strlit("--out");
    assert("--out"@ =~= seq!['-', '-', 'o', 'u', 't']);
    reveal_strlit("--target");
    assert("--target"@ =~= seq!['-', '-', 't', 'a', 'r', 'g', 'e', 't']);
    reveal_strlit("--sysroot");
    assert("--sysroot"@ =~= seq!['-', '-', 's', 'y', 's', 'r', 'o', 'o', 't']);
    reveal_strlit("--error-format");
    assert("--error-format"@ =~= seq!['-', '-', 'e', 'r', 'r', 'o', 'r', '-', 'f', 'o', 'r', 'm', 'a', 't']);
    reveal_strlit("--color");
    assert("--color"@ =~= seq!['-', '-', 'c', 'o', 'l', 'o', 'r']);
    reveal_strlit("--json");
    assert("--json"@ =~= seq!['-', '-', 'j', 's', 'o', 'n']);
    reveal_strlit("--cap-lints");
    assert("--cap-lints"@ =~= seq!['-', '-', 'c', 'a', 'p', '-', 'l', 'i', 'n', 't', 's']);
    reveal_strlit("--explain");
    assert("--explain"@ =~= seq!['-', '-', 'e', 'x', 'p', 'l', 'a', 'i', 'n']);
    reveal_strlit("--print");
    assert("--print"@ =~= seq!['-', '-', 'p', 'r', 'i', 'n', 't']);
    reveal_strlit("--unpretty");
    assert("--unpretty"@ =~= seq!['-', '-', 'u', 'n', 'p', 'r', 'e', 't', 't', 'y']);
    reveal_strlit("--cfg");
    assert("--cfg"@ =~= seq!['-', '-', 'c', 'f', 'g']);
    reveal_strlit("--check-cfg");
    assert("--check-cfg"@ =~= seq!['-', '-', 'c', 'h', 'e', 'c', 'k', '-', 'c', 'f', 'g']);
    reveal_strlit("--crate-type");
    assert("--crate-type"@ =~= seq!['-', '-', 'c', 'r', 'a', 't', 'e', '-', 't', 'y', 'p', 'e']);
    reveal_strlit("--emit");
    assert("--emit"@ =~= seq!['-', '-', 'e', 'm', 'i', 't']);
    reveal_strlit("--extern");
    assert("--extern"@ =~= seq!['-', '-', 'e', 'x', 't', 'e', 'r', 'n']);
    reveal_strlit("--remap-path-prefix");
    assert("--remap-path-prefix"@ =~= seq!['-', '-', 'r', 'e', 'm', 'a', 'p', '-', 'p', 'a', 't', 'h', '-', 'p', 'r', 'e', 'f', 'i', 'x']);
    reveal_strlit("-W");
    assert("-W"@ =~= seq!['-', 'W']);
    reveal_strlit("--warn");
    assert("--warn"@ =~= seq!['-', '-', 'w', 'a', 'r', 'n']);
    reveal_strlit("-A");
    assert("-A"@ =~= seq!['-', 'A']);
    reveal_strlit("--allow");
    assert("--allow"@ =~= seq!['-', '-', 'a', 'l', 'l', 'o', 'w']);
    reveal_strlit("-D");
    assert("-D"@ =~= seq!['-', 'D']);
    reveal_strlit("--deny");
    assert("--deny"@ =~= seq!['-', '-', 'd', 'e', 'n', 'y']);
    reveal_strlit("-F");
    assert("-F"@ =~= seq!['-', 'F']);
    reveal_strlit("--forbid");
    assert("--forbid"@ =~= seq!['-', '-', 'f', 'o', 'r', 'b', 'i', 'd']);
    reveal_strlit("-C");
    assert("-C"@ =~= seq!['-', 'C']);
    reveal_strlit("--codegen");
    assert("--codegen"@ =~= seq!['-', '-', 'c', 'o', 'd', 'e', 'g', 'e', 'n']);
    reveal_strlit("-Z");
    assert("-Z"@ =~= seq!['-', 'Z']);
    reveal_strlit("-L");
    assert("-L"@ =~= seq!['-', 'L']);
    reveal_strlit("-l");
    assert("-l"@ =~= seq!['-', 'l']);
}

/// The letters of the flags, of `--`, and of the kind names.
pub proof fn lemma_flag_letters()
    ensures
        "-h"@ == seq!['-', 'h'],
        "--help"@ == seq!['-', '-', 'h', 'e', 'l', 'p'],
        "-V"@ == seq!['-', 'V'],
        "--version"@ == seq!['-', '-', 'v', 'e', 'r', 's', 'i', 'o', 'n'],
        "-v"@ == seq!['-', 'v'],
        "--verbose"@ == seq!['-', '-', 'v', 'e', 'r', 'b', 'o', 's', 'e'],
        "--test"@ == seq!['-', '-', 't', 'e', 's', 't'],
        "-O"@ == seq!['-', 'O'],
        "-g"@ == seq!['-', 'g'],
        "--"@ == seq!['-', '-'],
        "dependency"@ == seq!['d', 'e', 'p', 'e', 'n', 'd', 'e', 'n', 'c', 'y'],
        "crate"@ == seq!['c', 'r', 'a', 't', 'e'],
        "native"@ == seq!['n', 'a', 't', 'i', 'v', 'e'],
        "framework"@ == seq!['f', 'r', 'a', 'm', 'e', 'w', 'o', 'r', 'k'],
        "dylib"@ == seq!['d', 'y', 'l', 'i', 'b'],
        "static"@ == seq!['s', 't', 'a', 't', 'i', 'c'],
{
    reveal_strlit("-h");
    assert("-h"@ =~= seq!['-', 'h']);
    reveal_strlit("--help");
    assert("--help"@ =~= seq!['-', '-', 'h', 'e', 'l', 'p']);
    reveal_strlit("-V");
    assert("-V"@ =~= seq!['-', 'V']);
    reveal_strlit("--version");
    assert("--version"@ =~= seq!['-', '-', 'v', 'e', 'r', 's', 'i', 'o', 'n']);
    reveal_strlit("-v");
    assert("-v"@ =~= seq!['-', 'v']);
    reveal_strlit("--verbose");
    assert("--verbose"@ =~= seq!['-', '-', 'v', 'e', 'r', 'b', 'o', 's', 'e']);
    reveal_strlit("--test");
    assert("--test"@ =~= seq!['-', '-', 't', 'e', 's', 't']);
    reveal_strlit("-O");
    assert("-O"@ =~= seq!['-', 'O']);
    reveal_strlit("-g");
    assert("-g"@ =~= seq!['-', 'g']);
    reveal_strlit("--");
    assert("--"@ =~= seq!['-', '-']);
    reveal_strlit("dependency");
    assert("dependency"@ =~= seq!['d', 'e', 'p', 'e', 'n', 'd', 'e', 'n', 'c', 'y']);
    reveal_strlit("crate");
    assert("crate"@ =~= seq!['c', 'r', 'a', 't', 'e']);
    reveal_strlit("native");
    assert("native"@ =~= seq!['n', 'a', 't', 'i', 'v', 'e']);
    reveal_strlit("framework");
    assert("framework"@ =~= seq!['f', 'r', 'a', 'm', 'e', 'w', 'o', 'r', 'k']);
    reveal_strlit("dylib");
    assert("dylib"@ =~= seq!['d', 'y', 'l', 'i', 'b']);
    reveal_strlit("static");
    assert("static"@ =~= seq!['s', 't', 'a', 't', 'i', 'c']);
}

/// The letters of the key prefixes that `to_args` writes.
pub proof fn lemma_written_letters()
    ensures
        "--crate-name="@ == seq!['-', '-', 'c', 'r', 'a', 't', 'e', '-', 'n', 'a', 'm', 'e', '='],
        "--edition="@ == seq!['-', '-', 'e', 'd', 'i', 't', 'i', 'o', 'n', '='],
        "--out-dir="@ == seq!['-', '-', 'o', 'u', 't', '-', 'd', 'i', 'r', '='],
        "--target="@ == seq!['-', '-', 't', 'a', 'r', 'g', 'e', 't', '='],
        "--sysroot="@ == seq!['-', '-', 's', 'y', 's', 'r', 'o', 'o', 't', '='],
        "--error-format="@ == seq!['-', '-', 'e', 'r', 'r', 'o', 'r', '-', 'f', 'o', 'r', 'm', 'a', 't', '='],
        "--color="@ == seq!['-', '-', 'c', 'o', 'l', 'o', 'r', '='],
        "--json="@ == seq!['-', '-', 'j', 's', 'o', 'n', '='],
        "--cap-lints="@ == seq!['-', '-', 'c', 'a', 'p', '-', 'l', 'i', 'n', 't', 's', '='],
        "--explain="@ == seq!['-', '-', 'e', 'x', 'p', 'l', 'a', 'i', 'n', '='],
        "--print="@ == seq!['-', '-', 'p', 'r', 'i', 'n', 't', '='],
        "--unpretty="@ == seq!['-', '-', 'u', 'n', 'p', 'r', 'e', 't', 't', 'y', '='],
        "--cfg="@ == seq!['-', '-', 'c', 'f', 'g', '='],
        "--check-cfg="@ == seq!['-', '-', 'c', 'h', 'e', 'c', 'k', '-', 'c', 'f', 'g', '='],
        "--crate-type="@ == seq!['-', '-', 'c', 'r', 'a', 't', 'e', '-', 't', 'y', 'p', 'e', '='],
        "--emit="@ == seq!['-', '-', 'e', 'm', 'i', 't', '='],
        "--extern="@ == seq!['-', '-', 'e', 'x', 't', 'e', 'r', 'n', '='],
        "--remap-path-prefix="@ == seq!['-', '-', 'r', 'e', 'm', 'a', 'p', '-', 'p', 'a', 't', 'h', '-', 'p', 'r', 'e', 'f', 'i', 'x', '='],
        "dependency="@ == seq!['d', 'e', 'p', 'e', 'n', 'd', 'e', 'n', 'c', 'y', '='],
        "crate="@ == seq!['c', 'r', 'a', 't', 'e', '='],
        "native="@ == seq!['n', 'a', 't', 'i', 'v', 'e', '='],
        "framework="@ == seq!['f', 'r', 'a', 'm', 'e', 'w', 'o', 'r', 'k', '='],
{
    reveal_strlit("--crate-name=");
    assert("--crate-name="@ =~= seq!['-', '-', 'c', 'r', 'a', 't', 'e', '-', 'n', 'a', 'm', 'e', '=']);
    reveal_strlit("--edition=");
    assert("--edition="@ =~= seq!['-', '-', 'e', 'd', 'i', 't', 'i', 'o', 'n', '=']);
    reveal_strlit("--out-dir=");
    assert("--out-dir="@ =~= seq!['-', '-', 'o', 'u', 't', '-', 'd', 'i', 'r', '=']);
    reveal_strlit("--target=");
    assert("--target="@ =~= seq!['-', '-', 't', 'a', 'r', 'g', 'e', 't', '=']);
    reveal_strlit("--sysroot=");
    assert("--sysroot="@ =~= seq!['-', '-', 's', 'y', 's', 'r', 'o', 'o', 't', '=']);
    reveal_strlit("--error-format=");
    assert("--error-format="@ =~= seq!['-', '-', 'e', 'r', 'r', 'o', 'r', '-', 'f', 'o', 'r', 'm', 'a', 't', '=']);
    reveal_strlit("--color=");
    assert("--color="@ =~= seq!['-', '-', 'c', 'o', 'l', 'o', 'r', '=']);
    reveal_strlit("--json=");
    assert("--json="@ =~= seq!['-', '-', 'j', 's', 'o', 'n', '=']);
    reveal_strlit("--cap-lints=");
    assert("--cap-lints="@ =~= seq!['-', '-', 'c', 'a', 'p', '-', 'l', 'i', 'n', 't', 's', '=']);
    reveal_strlit("--explain=");
    assert("--explain="@ =~= seq!['-', '-', 'e', 'x', 'p', 'l', 'a', 'i', 'n', '=']);
    reveal_strlit("--print=");
    assert("--print="@ =~= seq!['-', '-', 'p', 'r', 'i', 'n', 't', '=']);
    reveal_strlit("--unpretty=");
    assert("--unpretty="@ =~= seq!['-', '-', 'u', 'n', 'p', 'r', 'e', 't', 't', 'y', '=']);
    reveal_strlit("--cfg=");
    assert("--cfg="@ =~= seq!['-', '-', 'c', 'f', 'g', '=']);
    reveal_strlit("--check-cfg=");
    assert("--check-cfg="@ =~= seq!['-', '-', 'c', 'h', 'e', 'c', 'k', '-', 'c', 'f', 'g', '=']);
    reveal_strlit("--crate-type=");
    assert("--crate-type="@ =~= seq!['-', '-', 'c', 'r', 'a', 't', 'e', '-', 't', 'y', 'p', 'e', '=']);
    reveal_strlit("--emit=");
    assert("--emit="@ =~= seq!['-', '-', 'e', 'm', 'i', 't', '=']);
    reveal_strlit("--extern=");
    assert("--extern="@ =~= seq!['-', '-', 'e', 'x', 't', 'e', 'r', 'n', '=']);
    reveal_strlit("--remap-path-prefix=");
    assert("--remap-path-prefix="@ =~= seq!['-', '-', 'r', 'e', 'm', 'a', 'p', '-', 'p', 'a', 't', 'h', '-', 'p', 'r', 'e', 'f', 'i', 'x', '=']);
    reveal_strlit("dependency=");
    assert("dependency="@ =~= seq!['d', 'e', 'p', 'e', 'n', 'd', 'e', 'n', 'c', 'y', '=']);
    reveal_strlit("crate=");
    assert("crate="@ =~= seq!['c', 'r', 'a', 't', 'e', '=']);
    reveal_strlit("native=");
    assert("native="@ =~= seq!['n', 'a', 't', 'i', 'v', 'e', '=']);
    reveal_strlit("framework=");
    assert("framework="@ =~= seq!['f', 'r', 'a', 'm', 'e', 'w', 'o', 'r', 'k', '=']);
}

/// Every key that takes a value starts with `-`, is at least two letters
/// long, has no `=` in it, and is neither `--` nor a flag.
pub proof fn lemma_key_shape(key: Seq<char>)
    requires
        takes_value(key),
    ensures
        key.len() >= 2,
        key[0] == '-',
        !key.contains('='),
        key != "--"@,
        spec_flag_arg(key) is None,
        key.len() >= 3 ==> key[1] == '-',
{
    reveal(spec_value_arg);
    lemma_key_letters();
    lemma_flag_letters();
    assert(key.len() == 2 ==> key[1] != '-');
    if key == "--"@ {
        assert(key[1] == '-');
    }
}

/// Every flag starts with `-`, is at least two letters long, has `-` as its
/// second letter when longer, has no `=` in it, and is not `--`.
pub proof fn lemma_flag_shape(f: Seq<char>)
    requires
        spec_flag_arg(f) is Some,
    ensures
        f.len() >= 2,
        f[0] == '-',
        f.len() >= 3 ==> f[1] == '-',
        !f.contains('='),
        f != "--"@,
{
    lemma_flag_letters();
    assert(f.len() == 2 ==> f[1] != '-');
    if f == "--"@ {
        assert(f[1] == '-');
    }
}

/// Whether a key takes a value does not depend on the value.
pub proof fn lemma_takes_value(key: Seq<char>, val: Seq<char>)
    ensures
        (spec_value_arg(key, val) is Some) == takes_value(key),
{
    reveal(spec_value_arg);
}


/// The letters of the attached forms `to_args` writes.
pub proof fn lemma_attached_letters()
    ensures
        "-W"@ == seq!['-', 'W'],
        "-A"@ == seq!['-', 'A'],
        "-D"@ == seq!['-', 'D'],
        "-F"@ == seq!['-', 'F'],
        "-C"@ == seq!['-', 'C'],
        "-Z"@ == seq!['-', 'Z'],
{
    reveal_strlit("-W");
    assert("-W"@ =~= seq!['-', 'W']);
    reveal_strlit("-A");
    assert("-A"@ =~= seq!['-', 'A']);
    reveal_strlit("-D");
    assert("-D"@ =~= seq!['-', 'D']);
    reveal_strlit("-F");
    assert("-F"@ =~= seq!['-', 'F']);
    reveal_strlit("-C");
    assert("-C"@ =~= seq!['-', 'C']);
    reveal_strlit("-Z");
    assert("-Z"@ =~= seq!['-', 'Z']);
}

/// What each key that `to_args` writes with `=` stands for.
pub proof fn lemma_value_keys()
    ensures
        forall|v: Seq<char>| #[trigger] spec_value_arg("--crate-name"@, v) == Some(ArgView::CrateName(v)),
        forall|v: Seq<char>| #[trigger] spec_value_arg("--edition"@, v) == Some(ArgView::Edition(v)),
        forall|v: Seq<char>| #[trigger] spec_value_arg("--out-dir"@, v) == Some(ArgView::OutDir(v)),
        forall|v: Seq<char>| #[trigger] spec_value_arg("-o"@, v) == Some(ArgView::Out(v)),
        forall|v: Seq<char>| #[trigger] spec_value_arg("--target"@, v) == Some(ArgView::Target(v)),
        forall|v: Seq<char>| #[trigger] spec_value_arg("--sysroot"@, v) == Some(ArgView::Sysroot(v)),
        forall|v: Seq<char>| #[trigger] spec_value_arg("--error-format"@, v) == Some(ArgView::ErrorFormat(v)),
        forall|v: Seq<char>| #[trigger] spec_value_arg("--color"@, v) == Some(ArgView::Color(v)),
        forall|v: Seq<char>| #[trigger] spec_value_arg("--json"@, v) == Some(ArgView::Json(v)),
        forall|v: Seq<char>| #[trigger] spec_value_arg("--cap-lints"@, v) == Some(ArgView::CapLints(v)),
        forall|v: Seq<char>| #[trigger] spec_value_arg("--explain"@, v) == Some(ArgView::Explain(v)),
        forall|v: Seq<char>| #[trigger] spec_value_arg("--print"@, v) == Some(ArgView::Print(v)),
        forall|v: Seq<char>| #[trigger] spec_value_arg("--unpretty"@, v) == Some(ArgView::Unpretty(v)),
        forall|v: Seq<char>| #[trigger] spec_value_arg("--cfg"@, v) == Some(ArgView::Cfg(v)),
        forall|v: Seq<char>| #[trigger] spec_value_arg("--check-cfg"@, v) == Some(ArgView::CheckCfg(v)),
        forall|v: Seq<char>| #[trigger] spec_value_arg("--crate-type"@, v) == Some(ArgView::CrateType(v)),
        forall|v: Seq<char>| #[trigger] spec_value_arg("--emit"@, v) == Some(ArgView::Emit(v)),
        forall|v: Seq<char>| #[trigger] spec_value_arg("--extern"@, v) == Some(ArgView::Extern(v)),
        forall|v: Seq<char>| #[trigger] spec_value_arg("--remap-path-prefix"@, v) == Some(ArgView::RemapPathPrefix(v)),
{
    reveal(spec_value_arg);
    lemma_key_letters();
}

/// What each one-letter key that `to_args` writes stands for.
pub proof fn lemma_letter_keys()
    ensures
        forall|v: Seq<char>| #[trigger] spec_value_arg("-W"@, v) == Some(ArgView::Warn(v)),
        forall|v: Seq<char>| #[trigger] spec_value_arg("-A"@, v) == Some(ArgView::Allow(v)),
        forall|v: Seq<char>| #[trigger] spec_value_arg("-D"@, v) == Some(ArgView::Deny(v)),
        forall|v: Seq<char>| #[trigger] spec_value_arg("-F"@, v) == Some(ArgView::Forbid(v)),
        forall|v: Seq<char>| #[trigger] spec_value_arg("-C"@, v) == Some(ArgView::Codegen(v)),
        forall|v: Seq<char>| #[trigger] spec_value_arg("-Z"@, v) == Some(ArgView::Z(v)),
        forall|v: Seq<char>|
            #[trigger] spec_value_arg("-L"@, v) == Some(ArgView::LibPath(spec_parse_libpath(v))),
        forall|v: Seq<char>|
            #[trigger] spec_value_arg("-l"@, v) == Some(ArgView::Link(spec_parse_link(v))),
{
    reveal(spec_value_arg);
    lemma_key_letters();
}

/// The prefixes that `to_args` writes are the keys followed by `=`.
pub proof fn lemma_written_keys()
    ensures
        "--crate-name="@ == "--crate-name"@ + seq!['='],
        "--edition="@ == "--edition"@ + seq!['='],
        "--out-dir="@ == "--out-dir"@ + seq!['='],
        "--target="@ == "--target"@ + seq!['='],
        "--sysroot="@ == "--sysroot"@ + seq!['='],
        "--error-format="@ == "--error-format"@ + seq!['='],
        "--color="@ == "--color"@ + seq!['='],
        "--json="@ == "--json"@ + seq!['='],
        "--cap-lints="@ == "--cap-lints"@ + seq!['='],
        "--explain="@ == "--explain"@ + seq!['='],
        "--print="@ == "--print"@ + seq!['='],
        "--unpretty="@ == "--unpretty"@ + seq!['='],
        "--cfg="@ == "--cfg"@ + seq!['='],
        "--check-cfg="@ == "--check-cfg"@ + seq!['='],
        "--crate-type="@ == "--crate-type"@ + seq!['='],
        "--emit="@ == "--emit"@ + seq!['='],
        "--extern="@ == "--extern"@ + seq!['='],
        "--remap-path-prefix="@ == "--remap-path-prefix"@ + seq!['='],
{
    lemma_key_letters();
    lemma_written_letters();
    assert("--crate-name="@ =~= "--crate-name"@ + seq!['=']);
    assert("--edition="@ =~= "--edition"@ + seq!['=']);
    assert("--out-dir="@ =~= "--out-dir"@ + seq!['=']);
    assert("--target="@ =~= "--target"@ + seq!['=']);
    assert("--sysroot="@ =~= "--sysroot"@ + seq!['=']);
    assert("--error-format="@ =~= "--error-format"@ + seq!['=']);
    assert("--color="@ =~= "--color"@ + seq!['=']);
    assert("--json="@ =~= "--json"@ + seq!['=']);
    assert("--cap-lints="@ =~= "--cap-lints"@ + seq!['=']);
    assert("--explain="@ =~= "--explain"@ + seq!['=']);
    assert("--print="@ =~= "--print"@ + seq!['=']);
    assert("--unpretty="@ =~= "--unpretty"@ + seq!['=']);
    assert("--cfg="@ =~= "--cfg"@ + seq!['=']);
    assert("--check-cfg="@ =~= "--check-cfg"@ + seq!['=']);
    assert("--crate-type="@ =~= "--crate-type"@ + seq!['=']);
    assert("--emit="@ =~= "--emit"@ + seq!['=']);
    assert("--extern="@ =~= "--extern"@ + seq!['=']);
    assert("--remap-path-prefix="@ =~= "--remap-path-prefix"@ + seq!['=']);
}

} // verus!
