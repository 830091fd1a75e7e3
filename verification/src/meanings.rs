//! What each flag and each one-letter option means, spelled out word by
//! word: which field reading a flag sets, and the exact words `to_args`
//! writes for the lint and option lists.

use vstd::prelude::*;

use crate::info::{
    attachable, attached_item, attached_words, empty_info, lemma_attached_words_push,
    lemma_libpath_words_push, lemma_link_words_push, libpath_item, libpath_words, link_item,
    link_words, spec_to_args, EmitView, ExternView, InfoView,
    LibrarySearchPathKind, LibrarySearchPathView, LinkLibKind, LinkLibView,
};
use crate::letters::{lemma_flag_letters, lemma_key_letters, lemma_written_letters};
use crate::parser::{
    lemma_apply_effects, spec_apply, spec_flag_arg, spec_parse, spec_parse_arg, spec_parse_rest,
    spec_emit_part, spec_parse_emit, spec_parse_extern, spec_parse_libpath, spec_parse_link,
    spec_parse_remap, spec_prefix_arg,
    spec_value_arg, takes_value, ArgView,
};
use crate::text::{lemma_split_once_after, lemma_split_once_none, split_all, split_once};
use crate::reading::{lemma_attached_arg, lemma_flag_read, lemma_read_first, lemma_read_pair};

verus! {

/// Reading a flag sets what the flag stands for, whatever surrounds it.
proof fn lemma_read_flag_then(f: Seq<char>, rest: Seq<Seq<char>>, info: InfoView)
    requires
        spec_flag_arg(f) is Some,
    ensures
        spec_parse_rest(seq![f] + rest, info) == spec_parse_rest(
            rest,
            spec_apply(info, spec_flag_arg(f).unwrap(), f),
        ),
{
    lemma_flag_read(f);
    lemma_read_first(f, rest, info);
}

/// Each flag, short or long, sets exactly its own field and nothing else,
/// wherever it stands: `-h`/`--help` the help flag, `-V`/`--version` the
/// version flag, `-v`/`--verbose` the verbose flag, `--test` the test flag,
/// `-O` the optimisation flag and `-g` the debug-info flag.
pub proof fn lemma_flag_meanings(rest: Seq<Seq<char>>, info: InfoView)
    ensures
        spec_parse_rest(seq!["-h"@] + rest, info) == spec_parse_rest(rest, InfoView { help: true, ..info }),
        spec_parse_rest(seq!["--help"@] + rest, info) == spec_parse_rest(rest, InfoView { help: true, ..info }),
        spec_parse_rest(seq!["-V"@] + rest, info) == spec_parse_rest(rest, InfoView { version: true, ..info }),
        spec_parse_rest(seq!["--version"@] + rest, info) == spec_parse_rest(
            rest,
            InfoView { version: true, ..info },
        ),
        spec_parse_rest(seq!["-v"@] + rest, info) == spec_parse_rest(rest, InfoView { verbose: true, ..info }),
        spec_parse_rest(seq!["--verbose"@] + rest, info) == spec_parse_rest(
            rest,
            InfoView { verbose: true, ..info },
        ),
        spec_parse_rest(seq!["--test"@] + rest, info) == spec_parse_rest(rest, InfoView { test: true, ..info }),
        spec_parse_rest(seq!["-O"@] + rest, info) == spec_parse_rest(
            rest,
            InfoView { opt_level: true, ..info },
        ),
        spec_parse_rest(seq!["-g"@] + rest, info) == spec_parse_rest(
            rest,
            InfoView { debug_info: true, ..info },
        ),
{
    lemma_flag_letters();
    lemma_apply_effects();
    assert(spec_flag_arg("-h"@) == Some(ArgView::Help));
    lemma_read_flag_then("-h"@, rest, info);
    assert(spec_flag_arg("--help"@) == Some(ArgView::Help));
    lemma_read_flag_then("--help"@, rest, info);
    assert(spec_flag_arg("-V"@) == Some(ArgView::Version));
    lemma_read_flag_then("-V"@, rest, info);
    assert(spec_flag_arg("--version"@) == Some(ArgView::Version));
    lemma_read_flag_then("--version"@, rest, info);
    assert(spec_flag_arg("-v"@) == Some(ArgView::Verbose));
    lemma_read_flag_then("-v"@, rest, info);
    assert(spec_flag_arg("--verbose"@) == Some(ArgView::Verbose));
    lemma_read_flag_then("--verbose"@, rest, info);
    assert(spec_flag_arg("--test"@) == Some(ArgView::Test));
    lemma_read_flag_then("--test"@, rest, info);
    assert(spec_flag_arg("-O"@) == Some(ArgView::OptLevel));
    lemma_read_flag_then("-O"@, rest, info);
    assert(spec_flag_arg("-g"@) == Some(ArgView::DebugInfo));
    lemma_read_flag_then("-g"@, rest, info);
}

/// A line with one short flag after the wrapper, the marker and `rustc`
/// parses to the empty parsed arguments with that `rustc` and that one flag
/// set: `-h` sets help only, `-V` version only, `-v` verbose only.
pub proof fn lemma_short_flag_alone(wrapper: Seq<char>, marker: Seq<char>, rustc: Seq<char>)
    ensures
        spec_parse(seq![wrapper, marker, rustc, "-h"@]) == (InfoView {
            rustc: Some(rustc),
            help: true,
            ..empty_info()
        }),
        spec_parse(seq![wrapper, marker, rustc, "-V"@]) == (InfoView {
            rustc: Some(rustc),
            version: true,
            ..empty_info()
        }),
        spec_parse(seq![wrapper, marker, rustc, "-v"@]) == (InfoView {
            rustc: Some(rustc),
            verbose: true,
            ..empty_info()
        }),
{
    let start = InfoView { rustc: Some(rustc), ..empty_info() };
    let none = Seq::<Seq<char>>::empty();
    lemma_flag_meanings(none, start);
    reveal(spec_parse_rest);
    assert(seq![wrapper, marker, rustc, "-h"@].skip(3) =~= seq!["-h"@] + none);
    assert(seq![wrapper, marker, rustc, "-V"@].skip(3) =~= seq!["-V"@] + none);
    assert(seq![wrapper, marker, rustc, "-v"@].skip(3) =~= seq!["-v"@] + none);
}

/// Reading a key followed by its value as the next word applies what the
/// key stands for with that value, whatever surrounds it.
proof fn lemma_read_key_then(key: Seq<char>, v: Seq<char>, rest: Seq<Seq<char>>, info: InfoView)
    requires
        takes_value(key),
    ensures
        spec_parse_rest(seq![key, v] + rest, info) == spec_parse_rest(
            rest,
            spec_apply(info, spec_value_arg(key, v).unwrap(), key),
        ),
{
    lemma_read_pair(key, v, info);
    let pair = seq![key, v];
    assert(spec_parse_rest(pair + rest, info) == spec_parse_rest(
        rest,
        spec_apply(info, spec_value_arg(key, v).unwrap(), key),
    ));
}

/// Each key of a single value sets exactly its own field to the value that
/// follows it, and nothing else: `--crate-name` the crate name, `--edition`
/// the edition, `--out-dir` the output directory, `-o`/`--out` the output
/// path, `--target` the target, `--sysroot` the sysroot, `--error-format`,
/// `--color`, `--json`, `--cap-lints`, `--explain`, `--print` and
/// `--unpretty` their own fields.
#[verifier::rlimit(40)]
pub proof fn lemma_single_value_meanings(v: Seq<char>, rest: Seq<Seq<char>>, info: InfoView)
    ensures
        spec_parse_rest(seq!["--crate-name"@, v] + rest, info) == spec_parse_rest(rest, InfoView { crate_name: Some(v), ..info }),
        spec_parse_rest(seq!["--edition"@, v] + rest, info) == spec_parse_rest(rest, InfoView { edition: Some(v), ..info }),
        spec_parse_rest(seq!["--out-dir"@, v] + rest, info) == spec_parse_rest(rest, InfoView { out_dir: Some(v), ..info }),
        spec_parse_rest(seq!["-o"@, v] + rest, info) == spec_parse_rest(rest, InfoView { out: Some(v), ..info }),
        spec_parse_rest(seq!["--out"@, v] + rest, info) == spec_parse_rest(rest, InfoView { out: Some(v), ..info }),
        spec_parse_rest(seq!["--target"@, v] + rest, info) == spec_parse_rest(rest, InfoView { target: Some(v), ..info }),
        spec_parse_rest(seq!["--sysroot"@, v] + rest, info) == spec_parse_rest(rest, InfoView { sysroot: Some(v), ..info }),
        spec_parse_rest(seq!["--error-format"@, v] + rest, info) == spec_parse_rest(rest, InfoView { error_format: Some(v), ..info }),
        spec_parse_rest(seq!["--color"@, v] + rest, info) == spec_parse_rest(rest, InfoView { color: Some(v), ..info }),
        spec_parse_rest(seq!["--json"@, v] + rest, info) == spec_parse_rest(rest, InfoView { json: Some(v), ..info }),
        spec_parse_rest(seq!["--cap-lints"@, v] + rest, info) == spec_parse_rest(rest, InfoView { cap_lints: Some(v), ..info }),
        spec_parse_rest(seq!["--explain"@, v] + rest, info) == spec_parse_rest(rest, InfoView { explain: Some(v), ..info }),
        spec_parse_rest(seq!["--print"@, v] + rest, info) == spec_parse_rest(rest, InfoView { print: Some(v), ..info }),
        spec_parse_rest(seq!["--unpretty"@, v] + rest, info) == spec_parse_rest(rest, InfoView { unpretty: Some(v), ..info }),
{
    reveal(spec_value_arg);
    lemma_key_letters();
    lemma_apply_effects();
    lemma_read_key_then("--crate-name"@, v, rest, info);
    lemma_read_key_then("--edition"@, v, rest, info);
    lemma_read_key_then("--out-dir"@, v, rest, info);
    lemma_read_key_then("-o"@, v, rest, info);
    assert("--out"@.len() == 5);
    assert("--out"@ != "--crate-name"@);
    assert("--out"@ != "--edition"@);
    assert("--out"@ != "--out-dir"@);
    assert(spec_value_arg("--out"@, v) == Some(ArgView::Out(v)));
    lemma_read_key_then("--out"@, v, rest, info);
    lemma_read_key_then("--target"@, v, rest, info);
    lemma_read_key_then("--sysroot"@, v, rest, info);
    lemma_read_key_then("--error-format"@, v, rest, info);
    lemma_read_key_then("--color"@, v, rest, info);
    lemma_read_key_then("--json"@, v, rest, info);
    lemma_read_key_then("--cap-lints"@, v, rest, info);
    lemma_read_key_then("--explain"@, v, rest, info);
    lemma_read_key_then("--print"@, v, rest, info);
    lemma_read_key_then("--unpretty"@, v, rest, info);
}

/// Each list key adds the value that follows it to the end of its own list,
/// and changes nothing else: `--cfg` the configurations, `--check-cfg` the
/// configuration checks, `--crate-type` the crate types, `-W`/`--warn` the
/// warned lints, `-A`/`--allow` the allowed ones, `-D`/`--deny` the denied
/// ones, `-F`/`--forbid` the forbidden ones, `-C`/`--codegen` the codegen
/// options and `-Z` the unstable options.
#[verifier::rlimit(40)]
pub proof fn lemma_list_value_meanings(v: Seq<char>, rest: Seq<Seq<char>>, info: InfoView)
    ensures
        spec_parse_rest(seq!["--cfg"@, v] + rest, info) == spec_parse_rest(rest, InfoView { configs: info.configs.push(v), ..info }),
        spec_parse_rest(seq!["--check-cfg"@, v] + rest, info) == spec_parse_rest(rest, InfoView { confchecks: info.confchecks.push(v), ..info }),
        spec_parse_rest(seq!["--crate-type"@, v] + rest, info) == spec_parse_rest(rest, InfoView { crate_types: info.crate_types.push(v), ..info }),
        spec_parse_rest(seq!["-W"@, v] + rest, info) == spec_parse_rest(rest, InfoView { warns: info.warns.push(v), ..info }),
        spec_parse_rest(seq!["--warn"@, v] + rest, info) == spec_parse_rest(rest, InfoView { warns: info.warns.push(v), ..info }),
        spec_parse_rest(seq!["-A"@, v] + rest, info) == spec_parse_rest(rest, InfoView { allows: info.allows.push(v), ..info }),
        spec_parse_rest(seq!["--allow"@, v] + rest, info) == spec_parse_rest(rest, InfoView { allows: info.allows.push(v), ..info }),
        spec_parse_rest(seq!["-D"@, v] + rest, info) == spec_parse_rest(rest, InfoView { denies: info.denies.push(v), ..info }),
        spec_parse_rest(seq!["--deny"@, v] + rest, info) == spec_parse_rest(rest, InfoView { denies: info.denies.push(v), ..info }),
        spec_parse_rest(seq!["-F"@, v] + rest, info) == spec_parse_rest(rest, InfoView { forbids: info.forbids.push(v), ..info }),
        spec_parse_rest(seq!["--forbid"@, v] + rest, info) == spec_parse_rest(rest, InfoView { forbids: info.forbids.push(v), ..info }),
        spec_parse_rest(seq!["-C"@, v] + rest, info) == spec_parse_rest(rest, InfoView { codegen_opts: info.codegen_opts.push(v), ..info }),
        spec_parse_rest(seq!["--codegen"@, v] + rest, info) == spec_parse_rest(rest, InfoView { codegen_opts: info.codegen_opts.push(v), ..info }),
        spec_parse_rest(seq!["-Z"@, v] + rest, info) == spec_parse_rest(rest, InfoView { z_opts: info.z_opts.push(v), ..info }),
{
    reveal(spec_value_arg);
    lemma_key_letters();
    lemma_apply_effects();
    lemma_read_key_then("--cfg"@, v, rest, info);
    lemma_read_key_then("--check-cfg"@, v, rest, info);
    lemma_read_key_then("--crate-type"@, v, rest, info);
    lemma_read_key_then("-W"@, v, rest, info);
    lemma_read_key_then("--warn"@, v, rest, info);
    lemma_read_key_then("-A"@, v, rest, info);
    lemma_read_key_then("--allow"@, v, rest, info);
    lemma_read_key_then("-D"@, v, rest, info);
    lemma_read_key_then("--deny"@, v, rest, info);
    lemma_read_key_then("-F"@, v, rest, info);
    lemma_read_key_then("--forbid"@, v, rest, info);
    lemma_read_key_then("-C"@, v, rest, info);
    lemma_read_key_then("--codegen"@, v, rest, info);
    lemma_read_key_then("-Z"@, v, rest, info);
}

/// A one-letter list key with its value attached in the same word means
/// what the key followed by the value means: `-WLINT` warns of `LINT`,
/// `-ALINT` allows it, `-DLINT` denies it, `-FLINT` forbids it, `-COPT`
/// adds a codegen option and `-ZOPT` an unstable option, when the value is
/// not empty and does not start with `=`; `-LPATH` adds the search path
/// and `-lLIB` the library that the value describes.
#[verifier::rlimit(40)]
pub proof fn lemma_attached_meanings(v: Seq<char>, rest: Seq<Seq<char>>, info: InfoView)
    requires
        v.len() > 0,
        v[0] != '=',
    ensures
        spec_parse_rest(seq!["-W"@ + v] + rest, info) == spec_parse_rest(
            rest,
            InfoView { warns: info.warns.push(v), ..info },
        ),
        spec_parse_rest(seq!["-A"@ + v] + rest, info) == spec_parse_rest(
            rest,
            InfoView { allows: info.allows.push(v), ..info },
        ),
        spec_parse_rest(seq!["-D"@ + v] + rest, info) == spec_parse_rest(
            rest,
            InfoView { denies: info.denies.push(v), ..info },
        ),
        spec_parse_rest(seq!["-F"@ + v] + rest, info) == spec_parse_rest(
            rest,
            InfoView { forbids: info.forbids.push(v), ..info },
        ),
        spec_parse_rest(seq!["-C"@ + v] + rest, info) == spec_parse_rest(
            rest,
            InfoView { codegen_opts: info.codegen_opts.push(v), ..info },
        ),
        spec_parse_rest(seq!["-Z"@ + v] + rest, info) == spec_parse_rest(
            rest,
            InfoView { z_opts: info.z_opts.push(v), ..info },
        ),
        spec_parse_rest(seq!["-L"@ + v] + rest, info) == spec_parse_rest(
            rest,
            InfoView { libpaths: info.libpaths.push(spec_parse_libpath(v)), ..info },
        ),
        spec_parse_rest(seq!["-l"@ + v] + rest, info) == spec_parse_rest(
            rest,
            InfoView { links: info.links.push(spec_parse_link(v)), ..info },
        ),
{
    lemma_key_letters();
    lemma_apply_effects();
    lemma_read_attached_then('W', v, rest, info);
    lemma_read_attached_then('A', v, rest, info);
    lemma_read_attached_then('D', v, rest, info);
    lemma_read_attached_then('F', v, rest, info);
    lemma_read_attached_then('C', v, rest, info);
    lemma_read_attached_then('Z', v, rest, info);
    lemma_read_attached_then('L', v, rest, info);
    lemma_read_attached_then('l', v, rest, info);
}

/// Reading `-X` with a value attached, for a letter `X` that is not `-`.
proof fn lemma_read_attached_then(letter: char, v: Seq<char>, rest: Seq<Seq<char>>, info: InfoView)
    requires
        letter != '-',
        letter != '=',
        v.len() > 0,
        v[0] != '=',
    ensures
        spec_parse_rest(seq![seq!['-', letter] + v] + rest, info) == spec_parse_rest(
            rest,
            spec_apply(info, spec_prefix_arg(seq!['-', letter] + v), seq!['-', letter] + v),
        ),
        (seq!['-', letter] + v).skip(2) == v,
        (seq!['-', letter] + v)[1] == letter,
        (seq!['-', letter] + v).len() >= 2,
{
    let w = seq!['-', letter] + v;
    assert(w[0] == '-' && w[1] == letter && w[2] == v[0]);
    assert(w.skip(2) =~= v);
    lemma_attached_arg(w);
    lemma_read_first(w, rest, info);
}

/// Each flag is written as its long form, or `-O` and `-g`: parsed
/// arguments with only that flag set are written as that one word.
#[verifier::rlimit(40)]
pub proof fn lemma_flag_words()
    ensures
        spec_to_args(InfoView { help: true, ..empty_info() }) == seq!["--help"@],
        spec_to_args(InfoView { version: true, ..empty_info() }) == seq!["--version"@],
        spec_to_args(InfoView { verbose: true, ..empty_info() }) == seq!["--verbose"@],
        spec_to_args(InfoView { test: true, ..empty_info() }) == seq!["--test"@],
        spec_to_args(InfoView { opt_level: true, ..empty_info() }) == seq!["-O"@],
        spec_to_args(InfoView { debug_info: true, ..empty_info() }) == seq!["-g"@],
{
    lemma_empty_writes_nothing();
    let e = empty_info();
    assert(spec_to_args(InfoView { help: true, ..e }) =~= seq!["--help"@]);
    assert(spec_to_args(InfoView { version: true, ..e }) =~= seq!["--version"@]);
    assert(spec_to_args(InfoView { verbose: true, ..e }) =~= seq!["--verbose"@]);
    assert(spec_to_args(InfoView { test: true, ..e }) =~= seq!["--test"@]);
    assert(spec_to_args(InfoView { opt_level: true, ..e }) =~= seq!["-O"@]);
    assert(spec_to_args(InfoView { debug_info: true, ..e }) =~= seq!["-g"@]);
}

/// Each single value is written in one word after its long key and `=`,
/// except the output path, which is written as `-o` and the path: parsed
/// arguments with only that value set are written as those words.
#[verifier::rlimit(40)]
pub proof fn lemma_single_value_words(v: Seq<char>)
    ensures
        spec_to_args(InfoView { out: Some(v), ..empty_info() }) == seq!["-o"@, v],
        spec_to_args(InfoView { crate_name: Some(v), ..empty_info() }) == seq!["--crate-name="@ + v],
        spec_to_args(InfoView { edition: Some(v), ..empty_info() }) == seq!["--edition="@ + v],
        spec_to_args(InfoView { out_dir: Some(v), ..empty_info() }) == seq!["--out-dir="@ + v],
        spec_to_args(InfoView { target: Some(v), ..empty_info() }) == seq!["--target="@ + v],
        spec_to_args(InfoView { sysroot: Some(v), ..empty_info() }) == seq!["--sysroot="@ + v],
        spec_to_args(InfoView { error_format: Some(v), ..empty_info() }) == seq!["--error-format="@ + v],
        spec_to_args(InfoView { color: Some(v), ..empty_info() }) == seq!["--color="@ + v],
        spec_to_args(InfoView { json: Some(v), ..empty_info() }) == seq!["--json="@ + v],
        spec_to_args(InfoView { cap_lints: Some(v), ..empty_info() }) == seq!["--cap-lints="@ + v],
        spec_to_args(InfoView { explain: Some(v), ..empty_info() }) == seq!["--explain="@ + v],
        spec_to_args(InfoView { print: Some(v), ..empty_info() }) == seq!["--print="@ + v],
        spec_to_args(InfoView { unpretty: Some(v), ..empty_info() }) == seq!["--unpretty="@ + v],
{
    lemma_empty_writes_nothing();
    let e = empty_info();
    assert(spec_to_args(InfoView { out: Some(v), ..e }) =~= seq!["-o"@, v]);
    assert(spec_to_args(InfoView { crate_name: Some(v), ..e }) =~= seq!["--crate-name="@ + v]);
    assert(spec_to_args(InfoView { edition: Some(v), ..e }) =~= seq!["--edition="@ + v]);
    assert(spec_to_args(InfoView { out_dir: Some(v), ..e }) =~= seq!["--out-dir="@ + v]);
    assert(spec_to_args(InfoView { target: Some(v), ..e }) =~= seq!["--target="@ + v]);
    assert(spec_to_args(InfoView { sysroot: Some(v), ..e }) =~= seq!["--sysroot="@ + v]);
    assert(spec_to_args(InfoView { error_format: Some(v), ..e }) =~= seq!["--error-format="@ + v]);
    assert(spec_to_args(InfoView { color: Some(v), ..e }) =~= seq!["--color="@ + v]);
    assert(spec_to_args(InfoView { json: Some(v), ..e }) =~= seq!["--json="@ + v]);
    assert(spec_to_args(InfoView { cap_lints: Some(v), ..e }) =~= seq!["--cap-lints="@ + v]);
    assert(spec_to_args(InfoView { explain: Some(v), ..e }) =~= seq!["--explain="@ + v]);
    assert(spec_to_args(InfoView { print: Some(v), ..e }) =~= seq!["--print="@ + v]);
    assert(spec_to_args(InfoView { unpretty: Some(v), ..e }) =~= seq!["--unpretty="@ + v]);
}

/// The configurations, configuration checks and crate types are written one
/// word each, after `--cfg=`, `--check-cfg=` and `--crate-type=`; inputs and
/// unknown arguments are written as they are.
#[verifier::rlimit(40)]
pub proof fn lemma_list_words(vs: Seq<Seq<char>>)
    ensures
        spec_to_args(InfoView { configs: vs, ..empty_info() }) == vs.map_values(|x: Seq<char>| "--cfg="@ + x),
        spec_to_args(InfoView { confchecks: vs, ..empty_info() }) == vs.map_values(|x: Seq<char>| "--check-cfg="@ + x),
        spec_to_args(InfoView { crate_types: vs, ..empty_info() }) == vs.map_values(|x: Seq<char>| "--crate-type="@ + x),
        spec_to_args(InfoView { inputs: vs, ..empty_info() }) == vs,
        spec_to_args(InfoView { unknown: vs, ..empty_info() }) == vs,
{
    lemma_empty_writes_nothing();
    let e = empty_info();
    let none = Seq::<Seq<char>>::empty();
    assert(crate::info::prefixed("--cfg="@, none) =~= none);
    assert(crate::info::prefixed("--check-cfg="@, none) =~= none);
    assert(crate::info::prefixed("--crate-type="@, none) =~= none);
    assert(spec_to_args(InfoView { configs: vs, ..e }) =~= vs.map_values(|x: Seq<char>| "--cfg="@ + x));
    assert(spec_to_args(InfoView { confchecks: vs, ..e }) =~= vs.map_values(|x: Seq<char>| "--check-cfg="@ + x));
    assert(spec_to_args(InfoView { crate_types: vs, ..e }) =~= vs.map_values(|x: Seq<char>| "--crate-type="@ + x));
    assert(spec_to_args(InfoView { inputs: vs, ..e }) =~= vs);
    assert(spec_to_args(InfoView { unknown: vs, ..e }) =~= vs);
}

/// The keys whose values have parts: `-L` adds the search path its value
/// describes, `-l` the library, `--emit` every emission of its list,
/// `--extern` the extern, and `--remap-path-prefix` the remapping when the
/// value has a `=`; nothing else changes.
#[verifier::rlimit(40)]
pub proof fn lemma_structured_value_meanings(v: Seq<char>, rest: Seq<Seq<char>>, info: InfoView)
    ensures
        spec_parse_rest(seq!["-L"@, v] + rest, info) == spec_parse_rest(
            rest,
            InfoView { libpaths: info.libpaths.push(spec_parse_libpath(v)), ..info },
        ),
        spec_parse_rest(seq!["-l"@, v] + rest, info) == spec_parse_rest(
            rest,
            InfoView { links: info.links.push(spec_parse_link(v)), ..info },
        ),
        spec_parse_rest(seq!["--emit"@, v] + rest, info) == spec_parse_rest(
            rest,
            InfoView { emits: info.emits + spec_parse_emit(v), ..info },
        ),
        spec_parse_rest(seq!["--extern"@, v] + rest, info) == spec_parse_rest(
            rest,
            InfoView { externs: info.externs.push(spec_parse_extern(v)), ..info },
        ),
        spec_parse_rest(seq!["--remap-path-prefix"@, v] + rest, info) == spec_parse_rest(
            rest,
            match split_once(v, '=') {
                Some(r) => InfoView { remap_path_prefixes: info.remap_path_prefixes.push(r), ..info },
                None => info,
            },
        ),
{
    reveal(spec_value_arg);
    lemma_key_letters();
    lemma_apply_effects();
    lemma_read_key_then("-L"@, v, rest, info);
    lemma_read_key_then("-l"@, v, rest, info);
    lemma_read_key_then("--emit"@, v, rest, info);
    lemma_read_key_then("--extern"@, v, rest, info);
    lemma_read_key_then("--remap-path-prefix"@, v, rest, info);
}

/// A `-L` value names its kind before the first `=`: `dependency`,
/// `crate`, `native` and `framework` give those kinds with the rest as the
/// path; a value without `=` is a path of every kind.
pub proof fn lemma_libpath_kinds(p: Seq<char>)
    ensures
        spec_parse_libpath("dependency="@ + p) == (LibrarySearchPathView { kind: LibrarySearchPathKind::Dep, path: p }),
        spec_parse_libpath("crate="@ + p) == (LibrarySearchPathView { kind: LibrarySearchPathKind::Crate, path: p }),
        spec_parse_libpath("native="@ + p) == (LibrarySearchPathView { kind: LibrarySearchPathKind::Native, path: p }),
        spec_parse_libpath("framework="@ + p) == (LibrarySearchPathView {
            kind: LibrarySearchPathKind::Framework,
            path: p,
        }),
        !p.contains('=') ==> spec_parse_libpath(p) == (LibrarySearchPathView {
            kind: LibrarySearchPathKind::All,
            path: p,
        }),
{
    lemma_flag_letters();
    lemma_written_letters();
    assert("dependency="@ + p =~= "dependency"@ + seq!['='] + p);
    lemma_split_once_after("dependency"@, p, '=');
    assert("crate="@ + p =~= "crate"@ + seq!['='] + p);
    lemma_split_once_after("crate"@, p, '=');
    assert("native="@ + p =~= "native"@ + seq!['='] + p);
    lemma_split_once_after("native"@, p, '=');
    assert("framework="@ + p =~= "framework"@ + seq!['='] + p);
    lemma_split_once_after("framework"@, p, '=');
    if !p.contains('=') {
        lemma_split_once_none(p, '=');
    }
}

/// A `-l` value names its kind before the first `=`: `dylib`, `static` and
/// `framework` give those kinds with the rest as the name; a value without
/// `=` or `:` is a name with no kind, no modifiers and no rename.
pub proof fn lemma_link_kinds(n: Seq<char>)
    requires
        !n.contains(':'),
    ensures
        spec_parse_link("dylib="@ + n) == (LinkLibView {
            kind: Some(LinkLibKind::Dylib),
            modifiers: seq![],
            name: n,
            rename: None,
        }),
        spec_parse_link("static="@ + n) == (LinkLibView {
            kind: Some(LinkLibKind::Static),
            modifiers: seq![],
            name: n,
            rename: None,
        }),
        spec_parse_link("framework="@ + n) == (LinkLibView {
            kind: Some(LinkLibKind::Framework),
            modifiers: seq![],
            name: n,
            rename: None,
        }),
        !n.contains('=') ==> spec_parse_link(n) == (LinkLibView {
            kind: None,
            modifiers: seq![],
            name: n,
            rename: None,
        }),
{
    lemma_flag_letters();
    lemma_split_once_none(n, ':');
    reveal_strlit("dylib=");
    reveal_strlit("static=");
    reveal_strlit("framework=");
    assert("dylib="@ + n =~= "dylib"@ + seq!['='] + n);
    lemma_split_once_after("dylib"@, n, '=');
    lemma_split_once_none("dylib"@, ':');
    assert("static="@ + n =~= "static"@ + seq!['='] + n);
    lemma_split_once_after("static"@, n, '=');
    lemma_split_once_none("static"@, ':');
    assert("framework="@ + n =~= "framework"@ + seq!['='] + n);
    lemma_split_once_after("framework"@, n, '=');
    lemma_split_once_none("framework"@, ':');
    if !n.contains('=') {
        lemma_split_once_none(n, '=');
    }
}

/// Search paths are written after `-L` with their kind and `=` in the same
/// word; a path of every kind is written right after `-L` when it is not
/// empty and has no `=`.
#[verifier::rlimit(40)]
pub proof fn lemma_libpath_words_text(p: Seq<char>)
    ensures
        spec_to_args(InfoView {
            libpaths: seq![LibrarySearchPathView { kind: LibrarySearchPathKind::Dep, path: p }],
            ..empty_info()
        }) == seq!["-Ldependency="@ + p],
        spec_to_args(InfoView {
            libpaths: seq![LibrarySearchPathView { kind: LibrarySearchPathKind::Crate, path: p }],
            ..empty_info()
        }) == seq!["-Lcrate="@ + p],
        spec_to_args(InfoView {
            libpaths: seq![LibrarySearchPathView { kind: LibrarySearchPathKind::Native, path: p }],
            ..empty_info()
        }) == seq!["-Lnative="@ + p],
        spec_to_args(InfoView {
            libpaths: seq![LibrarySearchPathView { kind: LibrarySearchPathKind::Framework, path: p }],
            ..empty_info()
        }) == seq!["-Lframework="@ + p],
        p.len() > 0 && !p.contains('=') ==> spec_to_args(InfoView {
            libpaths: seq![LibrarySearchPathView { kind: LibrarySearchPathKind::All, path: p }],
            ..empty_info()
        }) == seq!["-L"@ + p],
{
    lemma_empty_writes_nothing();
    lemma_written_letters();
    lemma_key_letters();
    reveal_strlit("-Ldependency=");
    reveal_strlit("-Lcrate=");
    reveal_strlit("-Lnative=");
    reveal_strlit("-Lframework=");
    lemma_libpath_words_push();
    let e = empty_info();
    let none = Seq::<LibrarySearchPathView>::empty();
    let kinds = seq![
        LibrarySearchPathKind::Dep,
        LibrarySearchPathKind::Crate,
        LibrarySearchPathKind::Native,
        LibrarySearchPathKind::Framework,
        LibrarySearchPathKind::All,
    ];
    assert forall|j: int| 0 <= j < 5 implies #[trigger] libpath_words(
        seq![LibrarySearchPathView { kind: kinds[j], path: p }],
    ) == libpath_item(LibrarySearchPathView { kind: kinds[j], path: p }) by {
        let l = LibrarySearchPathView { kind: kinds[j], path: p };
        assert(none.push(l) =~= seq![l]);
        assert(libpath_words(none.push(l)) == libpath_words(none) + libpath_item(l));
        assert(libpath_words(none) == Seq::<Seq<char>>::empty());
        assert(libpath_words(seq![l]) =~= libpath_item(l));
    }
    let d = LibrarySearchPathView { kind: LibrarySearchPathKind::Dep, path: p };
    assert(kinds[0] == LibrarySearchPathKind::Dep);
    assert(libpath_words(seq![d]) == libpath_item(d));
    assert("-Ldependency="@ + p =~= "-L"@ + "dependency="@ + p);
    assert(spec_to_args(InfoView { libpaths: seq![d], ..e }) =~= seq!["-Ldependency="@ + p]);
    let c = LibrarySearchPathView { kind: LibrarySearchPathKind::Crate, path: p };
    assert(kinds[1] == LibrarySearchPathKind::Crate);
    assert(libpath_words(seq![c]) == libpath_item(c));
    assert("-Lcrate="@ + p =~= "-L"@ + "crate="@ + p);
    assert(spec_to_args(InfoView { libpaths: seq![c], ..e }) =~= seq!["-Lcrate="@ + p]);
    let n = LibrarySearchPathView { kind: LibrarySearchPathKind::Native, path: p };
    assert(kinds[2] == LibrarySearchPathKind::Native);
    assert(libpath_words(seq![n]) == libpath_item(n));
    assert("-Lnative="@ + p =~= "-L"@ + "native="@ + p);
    assert(spec_to_args(InfoView { libpaths: seq![n], ..e }) =~= seq!["-Lnative="@ + p]);
    let f = LibrarySearchPathView { kind: LibrarySearchPathKind::Framework, path: p };
    assert(kinds[3] == LibrarySearchPathKind::Framework);
    assert(libpath_words(seq![f]) == libpath_item(f));
    assert("-Lframework="@ + p =~= "-L"@ + "framework="@ + p);
    assert(spec_to_args(InfoView { libpaths: seq![f], ..e }) =~= seq!["-Lframework="@ + p]);
    if p.len() > 0 && !p.contains('=') {
        let a = LibrarySearchPathView { kind: LibrarySearchPathKind::All, path: p };
        assert(kinds[4] == LibrarySearchPathKind::All);
        assert(libpath_words(seq![a]) == libpath_item(a));
        assert(spec_to_args(InfoView { libpaths: seq![a], ..e }) =~= seq!["-L"@ + p]);
    }
}

/// Externs, remappings, emissions and linked libraries are written one
/// word each: `--extern=NAME[=PATH]`, `--remap-path-prefix=FROM=TO`,
/// `--emit=KIND[=PATH]`, and `-lKIND=NAME` or `-lNAME`.
#[verifier::rlimit(60)]
pub proof fn lemma_part_words_text(n: Seq<char>, p: Seq<char>)
    ensures
        spec_to_args(InfoView { externs: seq![ExternView { name: n, path: None }], ..empty_info() })
            == seq!["--extern="@ + n],
        spec_to_args(InfoView { externs: seq![ExternView { name: n, path: Some(p) }], ..empty_info() })
            == seq!["--extern="@ + n + seq!['='] + p],
        spec_to_args(InfoView { remap_path_prefixes: seq![(n, p)], ..empty_info() })
            == seq!["--remap-path-prefix="@ + n + seq!['='] + p],
        spec_to_args(InfoView { emits: seq![EmitView { kind: n, path: None }], ..empty_info() })
            == seq!["--emit="@ + n],
        spec_to_args(InfoView { emits: seq![EmitView { kind: n, path: Some(p) }], ..empty_info() })
            == seq!["--emit="@ + n + seq!['='] + p],
        spec_to_args(InfoView {
            links: seq![LinkLibView { kind: Some(LinkLibKind::Dylib), modifiers: seq![], name: n, rename: None }],
            ..empty_info()
        }) == seq!["-ldylib="@ + n],
        spec_to_args(InfoView {
            links: seq![LinkLibView { kind: Some(LinkLibKind::Static), modifiers: seq![], name: n, rename: None }],
            ..empty_info()
        }) == seq!["-lstatic="@ + n],
        spec_to_args(InfoView {
            links: seq![LinkLibView { kind: Some(LinkLibKind::Framework), modifiers: seq![], name: n, rename: None }],
            ..empty_info()
        }) == seq!["-lframework="@ + n],
        n.len() > 0 && !n.contains('=') ==> spec_to_args(InfoView {
            links: seq![LinkLibView { kind: None, modifiers: seq![], name: n, rename: None }],
            ..empty_info()
        }) == seq!["-l"@ + n],
{
    lemma_empty_writes_nothing();
    lemma_flag_letters();
    lemma_key_letters();
    reveal_strlit("-ldylib=");
    reveal_strlit("-lstatic=");
    reveal_strlit("-lframework=");
    reveal_strlit("--extern=");
    reveal_strlit("--emit=");
    reveal_strlit("--remap-path-prefix=");
    lemma_link_words_push();
    let e = empty_info();
    let x1 = ExternView { name: n, path: None };
    assert(spec_to_args(InfoView { externs: seq![x1], ..e }) =~= seq!["--extern="@ + n]);
    let x2 = ExternView { name: n, path: Some(p) };
    assert(spec_to_args(InfoView { externs: seq![x2], ..e }) =~= seq!["--extern="@ + n + seq!['='] + p]);
    assert(spec_to_args(InfoView { remap_path_prefixes: seq![(n, p)], ..e }) =~= seq![
        "--remap-path-prefix="@ + n + seq!['='] + p,
    ]);
    let m1 = EmitView { kind: n, path: None };
    assert(seq![m1].map_values(|x: EmitView| crate::info::emit_text(x)) =~= seq![n]);
    assert(spec_to_args(InfoView { emits: seq![m1], ..e }) =~= seq!["--emit="@ + n]);
    let m2 = EmitView { kind: n, path: Some(p) };
    assert(seq![m2].map_values(|x: EmitView| crate::info::emit_text(x)) =~= seq![n + seq!['='] + p]);
    assert(crate::text::join(seq![n + seq!['='] + p], ',') == n + seq!['='] + p);
    assert("--emit="@ + (n + seq!['='] + p) =~= "--emit="@ + n + seq!['='] + p);
    assert(spec_to_args(InfoView { emits: seq![m2], ..e }) =~= seq!["--emit="@ + n + seq!['='] + p]);
    let none = Seq::<LinkLibView>::empty();
    assert(link_words(none) == Seq::<Seq<char>>::empty());
    let l1 = LinkLibView { kind: Some(LinkLibKind::Dylib), modifiers: seq![], name: n, rename: None };
    assert(none.push(l1) =~= seq![l1]);
    assert(link_words(seq![l1]) =~= link_item(l1));
    assert("-ldylib="@ + n =~= "-l"@ + ("dylib"@ + seq![] + seq!['=']) + n + seq![]);
    assert(spec_to_args(InfoView { links: seq![l1], ..e }) =~= seq!["-ldylib="@ + n]);
    let l2 = LinkLibView { kind: Some(LinkLibKind::Static), modifiers: seq![], name: n, rename: None };
    assert(none.push(l2) =~= seq![l2]);
    assert(link_words(seq![l2]) =~= link_item(l2));
    assert("-lstatic="@ + n =~= "-l"@ + ("static"@ + seq![] + seq!['=']) + n + seq![]);
    assert(spec_to_args(InfoView { links: seq![l2], ..e }) =~= seq!["-lstatic="@ + n]);
    let l3 = LinkLibView { kind: Some(LinkLibKind::Framework), modifiers: seq![], name: n, rename: None };
    assert(none.push(l3) =~= seq![l3]);
    assert(link_words(seq![l3]) =~= link_item(l3));
    assert("-lframework="@ + n =~= "-l"@ + ("framework"@ + seq![] + seq!['=']) + n + seq![]);
    assert(spec_to_args(InfoView { links: seq![l3], ..e }) =~= seq!["-lframework="@ + n]);
    if n.len() > 0 && !n.contains('=') {
        let l4 = LinkLibView { kind: None, modifiers: seq![], name: n, rename: None };
        assert(none.push(l4) =~= seq![l4]);
        assert(link_words(seq![l4]) =~= link_item(l4));
        assert(spec_to_args(InfoView { links: seq![l4], ..e }) =~= seq!["-l"@ + n]);
    }
}

/// How the values with parts are read: an extern is `NAME[=PATH]` and a
/// remapping `FROM=TO`, cut at the first `=`; an emission list is cut at
/// every `,`, each piece being `KIND[=PATH]`; a library with a kind may
/// carry `:MODIFIERS` after the kind and `:RENAME` after the name.
pub proof fn lemma_part_meanings(n: Seq<char>, p: Seq<char>, m: Seq<char>, r: Seq<char>)
    requires
        !n.contains('='),
        !n.contains(','),
        !n.contains(':'),
        !p.contains(','),
        !m.contains(','),
        !m.contains('='),
    ensures
        spec_parse_extern(n) == (ExternView { name: n, path: None }),
        spec_parse_extern(n + seq!['='] + p) == (ExternView { name: n, path: Some(p) }),
        spec_parse_remap(n + seq!['='] + p) == Some((n, p)),
        spec_parse_remap(n) is None,
        spec_parse_emit(n) == seq![EmitView { kind: n, path: None }],
        spec_parse_emit(n + seq!['='] + p) == seq![EmitView { kind: n, path: Some(p) }],
        spec_parse_emit(n + seq![','] + n + seq!['='] + p) == seq![
            EmitView { kind: n, path: None },
            EmitView { kind: n, path: Some(p) },
        ],
        spec_parse_link("static:"@ + m + seq!['='] + n + seq![':'] + r) == (LinkLibView {
            kind: Some(LinkLibKind::Static),
            modifiers: seq![m],
            name: n,
            rename: Some(r),
        }),
{
    lemma_flag_letters();
    lemma_split_once_none(n, '=');
    lemma_split_once_after(n, p, '=');
    lemma_split_once_none(n, ',');
    let np = n + seq!['='] + p;
    assert(!np.contains(',')) by {
        crate::text::lemma_concat_lacks(n, seq!['='], ',');
        crate::text::lemma_concat_lacks(n + seq!['='], p, ',');
    }
    lemma_split_once_none(np, ',');
    let both = n + seq![','] + np;
    assert(both =~= n + seq![','] + n + seq!['='] + p);
    lemma_split_once_after(n, np, ',');
    crate::text::lemma_first_index(both, ',');
    assert(split_all(both, ',') == seq![n] + split_all(np, ','));
    assert(split_all(both, ',') =~= seq![n, np]);
    assert(spec_parse_emit(both) =~= seq![spec_emit_part(n), spec_emit_part(np)]);
    assert(spec_parse_emit(n) =~= seq![spec_emit_part(n)]);
    assert(spec_parse_emit(np) =~= seq![spec_emit_part(np)]);
    reveal_strlit("static:");
    let head = "static"@ + seq![':'] + m;
    assert("static:"@ + m =~= head);
    assert(!head.contains('=')) by {
        crate::text::lemma_concat_lacks("static"@, seq![':'], '=');
        crate::text::lemma_concat_lacks("static"@ + seq![':'], m, '=');
    }
    let tail = n + seq![':'] + r;
    let whole = "static:"@ + m + seq!['='] + n + seq![':'] + r;
    assert(whole =~= head + seq!['='] + tail);
    lemma_split_once_after(head, tail, '=');
    lemma_split_once_after("static"@, m, ':');
    lemma_split_once_after(n, r, ':');
    lemma_split_once_none(m, ',');
}

/// A word that starts with `@` is kept as written among the unknown
/// arguments, and a word that starts with neither `-` nor `@` is an input;
/// nothing else changes.
pub proof fn lemma_word_meanings(x: Seq<char>, rest: Seq<Seq<char>>, info: InfoView)
    ensures
        x.len() > 0 && x[0] == '@' ==> spec_parse_rest(seq![x] + rest, info) == spec_parse_rest(
            rest,
            InfoView { unknown: info.unknown.push(x), ..info },
        ),
        x.len() > 0 && x[0] != '-' && x[0] != '@' ==> spec_parse_rest(seq![x] + rest, info)
            == spec_parse_rest(rest, InfoView { inputs: info.inputs.push(x), ..info }),
{
    lemma_apply_effects();
    lemma_flag_letters();
    let s = seq![x] + rest;
    assert(s[0] == x);
    assert(s.skip(1) =~= rest);
    if x.len() > 0 && x[0] == '@' {
        reveal(spec_parse_rest);
        reveal(spec_parse_arg);
        assert(x != "--"@);
        let next = if s.len() > 1 { Some(s[1]) } else { None };
        assert(spec_parse_arg(x, next) == (ArgView::ArgFile(x.skip(1)), 1int));
    }
    if x.len() > 0 && x[0] != '-' && x[0] != '@' {
        crate::reading::lemma_plain_arg(x);
        lemma_read_first(x, rest, info);
    }
}

/// Values that can be attached are written after their key in one word.
proof fn lemma_attached_words_plain(key: Seq<char>, vals: Seq<Seq<char>>)
    requires
        forall|j: int| 0 <= j < vals.len() ==> (#[trigger] vals[j]).len() > 0 && vals[j][0] != '=',
    ensures
        attached_words(key, vals) == vals.map_values(|l: Seq<char>| key + l),
    decreases vals.len(),
{
    if vals.len() > 0 {
        let init = vals.drop_last();
        assert forall|j: int| 0 <= j < init.len() implies (#[trigger] init[j]).len() > 0 && init[j][0]
            != '=' by {
            assert(init[j] == vals[j]);
        }
        lemma_attached_words_plain(key, init);
        assert(attachable(vals.last()));
        assert(vals.map_values(|l: Seq<char>| key + l) =~= init.map_values(|l: Seq<char>| key + l).push(
            key + vals.last(),
        ));
    } else {
        assert(vals.map_values(|l: Seq<char>| key + l) =~= Seq::<Seq<char>>::empty());
    }
}

/// `to_args` writes each value of the lint and option lists in the same word
/// as its one-letter key, with nothing between them, when the value is not
/// empty and does not start with `=`: for parsed arguments that hold only
/// such a list, the written words are `-W` (or `-A`, `-D`, `-F`, `-C`, `-Z`)
/// followed directly by each value, in order.
#[verifier::rlimit(40)]
pub proof fn lemma_lint_words(vals: Seq<Seq<char>>)
    requires
        forall|j: int| 0 <= j < vals.len() ==> (#[trigger] vals[j]).len() > 0 && vals[j][0] != '=',
    ensures
        spec_to_args(InfoView { warns: vals, ..empty_info() }) == vals.map_values(|l: Seq<char>| "-W"@ + l),
        spec_to_args(InfoView { allows: vals, ..empty_info() }) == vals.map_values(|l: Seq<char>| "-A"@ + l),
        spec_to_args(InfoView { denies: vals, ..empty_info() }) == vals.map_values(|l: Seq<char>| "-D"@ + l),
        spec_to_args(InfoView { forbids: vals, ..empty_info() }) == vals.map_values(
            |l: Seq<char>| "-F"@ + l,
        ),
        spec_to_args(InfoView { codegen_opts: vals, ..empty_info() }) == vals.map_values(
            |l: Seq<char>| "-C"@ + l,
        ),
        spec_to_args(InfoView { z_opts: vals, ..empty_info() }) == vals.map_values(|l: Seq<char>| "-Z"@ + l),
{
    lemma_attached_words_plain("-W"@, vals);
    lemma_attached_words_plain("-A"@, vals);
    lemma_attached_words_plain("-D"@, vals);
    lemma_attached_words_plain("-F"@, vals);
    lemma_attached_words_plain("-C"@, vals);
    lemma_attached_words_plain("-Z"@, vals);
    lemma_nothing_else_written(vals);
}

/// A value that is empty or starts with `=` is written as a word of its own
/// after its one-letter key, so that it reaches `rustc` unchanged.
pub proof fn lemma_lint_words_apart(l: Seq<char>)
    requires
        l.len() == 0 || l[0] == '=',
    ensures
        spec_to_args(InfoView { warns: seq![l], ..empty_info() }) == seq!["-W"@, l],
        spec_to_args(InfoView { allows: seq![l], ..empty_info() }) == seq!["-A"@, l],
        spec_to_args(InfoView { denies: seq![l], ..empty_info() }) == seq!["-D"@, l],
        spec_to_args(InfoView { forbids: seq![l], ..empty_info() }) == seq!["-F"@, l],
        spec_to_args(InfoView { codegen_opts: seq![l], ..empty_info() }) == seq!["-C"@, l],
        spec_to_args(InfoView { z_opts: seq![l], ..empty_info() }) == seq!["-Z"@, l],
{
    let one = seq![l];
    assert(Seq::<Seq<char>>::empty().push(l) =~= one);
    assert(one.drop_last() =~= Seq::<Seq<char>>::empty());
    assert(!attachable(l));
    lemma_empty_writes_nothing();
    lemma_attached_words_push("-W"@);
    assert(attached_words("-W"@, Seq::<Seq<char>>::empty().push(l)) == attached_words("-W"@, Seq::<Seq<char>>::empty()) + attached_item("-W"@, l));
    assert(attached_words("-W"@, one) =~= attached_item("-W"@, l));
    lemma_attached_words_push("-A"@);
    assert(attached_words("-A"@, Seq::<Seq<char>>::empty().push(l)) == attached_words("-A"@, Seq::<Seq<char>>::empty()) + attached_item("-A"@, l));
    assert(attached_words("-A"@, one) =~= attached_item("-A"@, l));
    lemma_attached_words_push("-D"@);
    assert(attached_words("-D"@, Seq::<Seq<char>>::empty().push(l)) == attached_words("-D"@, Seq::<Seq<char>>::empty()) + attached_item("-D"@, l));
    assert(attached_words("-D"@, one) =~= attached_item("-D"@, l));
    lemma_attached_words_push("-F"@);
    assert(attached_words("-F"@, Seq::<Seq<char>>::empty().push(l)) == attached_words("-F"@, Seq::<Seq<char>>::empty()) + attached_item("-F"@, l));
    assert(attached_words("-F"@, one) =~= attached_item("-F"@, l));
    lemma_attached_words_push("-C"@);
    assert(attached_words("-C"@, Seq::<Seq<char>>::empty().push(l)) == attached_words("-C"@, Seq::<Seq<char>>::empty()) + attached_item("-C"@, l));
    assert(attached_words("-C"@, one) =~= attached_item("-C"@, l));
    lemma_attached_words_push("-Z"@);
    assert(attached_words("-Z"@, Seq::<Seq<char>>::empty().push(l)) == attached_words("-Z"@, Seq::<Seq<char>>::empty()) + attached_item("-Z"@, l));
    assert(attached_words("-Z"@, one) =~= attached_item("-Z"@, l));
    lemma_nothing_else_written(one);
}

/// With only one of the lint and option lists set, `to_args` writes the
/// words of that list and nothing else.
proof fn lemma_nothing_else_written(vals: Seq<Seq<char>>)
    ensures
        spec_to_args(InfoView { warns: vals, ..empty_info() }) == attached_words("-W"@, vals),
        spec_to_args(InfoView { allows: vals, ..empty_info() }) == attached_words("-A"@, vals),
        spec_to_args(InfoView { denies: vals, ..empty_info() }) == attached_words("-D"@, vals),
        spec_to_args(InfoView { forbids: vals, ..empty_info() }) == attached_words("-F"@, vals),
        spec_to_args(InfoView { codegen_opts: vals, ..empty_info() }) == attached_words("-C"@, vals),
        spec_to_args(InfoView { z_opts: vals, ..empty_info() }) == attached_words("-Z"@, vals),
{
    let e = empty_info();
    lemma_empty_writes_nothing();
    assert(spec_to_args(InfoView { warns: vals, ..e }) =~= attached_words("-W"@, vals));
    assert(spec_to_args(InfoView { allows: vals, ..e }) =~= attached_words("-A"@, vals));
    assert(spec_to_args(InfoView { denies: vals, ..e }) =~= attached_words("-D"@, vals));
    assert(spec_to_args(InfoView { forbids: vals, ..e }) =~= attached_words("-F"@, vals));
    assert(spec_to_args(InfoView { codegen_opts: vals, ..e }) =~= attached_words("-C"@, vals));
    assert(spec_to_args(InfoView { z_opts: vals, ..e }) =~= attached_words("-Z"@, vals));
}

/// Empty parsed arguments are written as no words at all.
proof fn lemma_empty_writes_nothing()
    ensures
        crate::info::written_collections(empty_info()) == Seq::<Seq<char>>::empty(),
        forall|k: Seq<char>| #[trigger] attached_words(k, Seq::<Seq<char>>::empty()) == Seq::<Seq<char>>::empty(),
{
    let e = empty_info();
    assert(crate::info::libpath_words(e.libpaths) == Seq::<Seq<char>>::empty());
    assert(crate::info::link_words(e.links) == Seq::<Seq<char>>::empty());
    assert(crate::info::written_collections(e) =~= Seq::<Seq<char>>::empty());
}

} // verus!
