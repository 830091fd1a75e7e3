//! Properties of the parser and of the reconstruction that hold for all
//! inputs: the two spellings of a key with its value, and reading back
//! what `to_args` writes.

use vstd::prelude::*;

use crate::info::{
    attached_words, lemma_same_info, same_info, empty_info, emit_words, extern_word, flag_word,
    libpath_words, link_words, option_args, prefixed, remap_word, spaced_words, spec_to_args,
    value_word, written_collections, written_crate_options, written_flags, written_values,
    EmitView, ExternView, InfoView, LinkLibView,
};
use crate::letters::{
    lemma_attached_letters, lemma_flag_letters, lemma_key_letters, lemma_key_shape, lemma_letter_keys,
    lemma_value_keys, lemma_written_keys,
};
use crate::parser::{lemma_apply_effects, lemma_parse_arg_width, spec_apply, spec_parse, spec_parse_arg, spec_parse_rest, spec_value_arg, takes_value, ArgView};
use crate::reading::{
    all_alone, lemma_alone_reads_to, lemma_read_attached_items, lemma_read_each_concat,
    lemma_reads_to_concat, lemma_read_spaced_value, lemma_reads_to_then_alone, reads_to,
    lemma_joined_arg, lemma_spaced_arg, lemma_read_emits, lemma_read_externs, lemma_read_flag,
    lemma_read_joined_list, lemma_read_libpath_items, lemma_read_link_items, lemma_read_remaps,
    lemma_read_inputs, lemma_read_alone, lemma_read_unknown, lemma_read_value, read_each,
    stands_alone,
};
use crate::parsed::{lemma_next_unused, lemma_parse_rest_fits, parsing_fits};
use crate::text::{lemma_split_once_after, lemma_split_once_none};

verus! {

/// Whether the value of a key is given after `=` or as the next argument
/// does not matter: `KEY=VALUE` means what `KEY VALUE` means, whatever
/// comes after.
pub proof fn lemma_joined_and_spaced_agree(
    key: Seq<char>,
    val: Seq<char>,
    rest: Seq<Seq<char>>,
    info: InfoView,
)
    requires
        takes_value(key),
    ensures
        spec_parse_rest(seq![key + seq!['='] + val] + rest, info) == spec_parse_rest(
            seq![key, val] + rest,
            info,
        ),
{
    reveal(spec_parse_arg);
    reveal(spec_parse_rest);
    reveal(spec_apply);
    reveal(spec_value_arg);
    lemma_key_shape(key);
    let joined = key + seq!['='] + val;
    lemma_split_once_after(key, val, '=');
    lemma_split_once_none(key, '=');
    assert(joined[0] == key[0]);
    assert(joined.len() > 2);
    let a = spec_value_arg(key, val).unwrap();
    assert(spec_value_arg(key, val) is Some);
    let left = seq![joined] + rest;
    let right = seq![key, val] + rest;
    assert(left[0] == joined);
    assert(right[0] == key);
    assert(right[1] == val);
    assert(joined != "--"@) by {
        assert(joined[key.len() as int] == '=');
        if joined == "--"@ {
            lemma_flag_letters();
        }
    }
    let next_left = if left.len() > 1 { Some(left[1]) } else { None };
    assert(spec_parse_arg(joined, next_left) == (a, 1int));
    assert(spec_parse_arg(key, Some(val)) == (a, 2int));
    assert(left.skip(1) =~= rest);
    assert(right.skip(2) =~= rest);
    assert(!(a is ArgFile));
    assert(spec_apply(info, a, joined) == spec_apply(info, a, key));
}

/// For a key that takes a value, `KEY=VALUE` is read as the same argument
/// as `KEY VALUE`: the first takes up one argument, whatever follows it,
/// the second takes up the key and its value.
pub proof fn lemma_parse_arg_joined_and_spaced(key: Seq<char>, val: Seq<char>, next: Option<Seq<char>>)
    requires
        takes_value(key),
    ensures
        spec_parse_arg(key + seq!['='] + val, next) == (spec_parse_arg(key, Some(val)).0, 1int),
        spec_parse_arg(key, Some(val)).1 == 2,
{
    lemma_joined_arg(key, val);
    lemma_spaced_arg(key, val);
    let joined = key + seq!['='] + val;
    match next {
        Some(n) => {
            assert(spec_parse_arg(joined, Some(n)) == spec_parse_arg(joined, None));
        },
        None => {},
    }
}

// ---------------------------------------------------------------------
// What `to_args` writes that reads back to the same value.
// ---------------------------------------------------------------------

/// An emission whose text survives the `,`-joined `--emit=` argument.
pub open spec fn emit_fits(e: EmitView) -> bool {
    &&& !e.kind.contains(',')
    &&& !e.kind.contains('=')
    &&& e.path matches Some(p) ==> !p.contains(',')
}

/// An extern whose name has no `=`.
pub open spec fn extern_fits(x: ExternView) -> bool {
    !x.name.contains('=')
}

/// A remapping whose source has no `=`.
pub open spec fn remap_fits(r: (Seq<char>, Seq<char>)) -> bool {
    !r.0.contains('=')
}

/// A linked library as the parser leaves it: a name without `:`, and
/// modifiers without `,` or `=`.
pub open spec fn link_fits(l: LinkLibView) -> bool {
    &&& !l.name.contains(':')
    &&& forall|j: int|
        0 <= j < l.modifiers.len() ==> !(#[trigger] l.modifiers[j]).contains(',')
            && !l.modifiers[j].contains('=')
}

/// A word that reads back as an input: it starts with neither `-` nor `@`.
pub open spec fn plain(v: Seq<char>) -> bool {
    !(v.len() > 0 && (v[0] == '-' || v[0] == '@'))
}

/// A word that is read by itself and lands among the unknown arguments.
pub open spec fn stays_unknown(u: Seq<char>) -> bool {
    &&& stands_alone(u)
    &&& (spec_parse_arg(u, None).0 == ArgView::Unknown(u) || spec_parse_arg(u, None).0 is ArgFile)
}

/// A word that, read last, lands among the unknown arguments.
pub open spec fn ends_unknown(u: Seq<char>) -> bool {
    &&& u != "--"@
    &&& spec_parse_arg(u, None).1 == 1
    &&& (spec_parse_arg(u, None).0 == ArgView::Unknown(u) || spec_parse_arg(u, None).0 is ArgFile)
}

/// Unknown arguments that read back when written last: each one stays
/// unknown, up to a `--`, which takes everything after it along; the last
/// one need only stay unknown at the end of the line.
pub open spec fn unknown_fits(unk: Seq<Seq<char>>) -> bool
    decreases unk.len(),
{
    if unk.len() == 0 {
        true
    } else if unk[0] == "--"@ {
        true
    } else if unk.len() == 1 {
        ends_unknown(unk[0])
    } else {
        stays_unknown(unk[0]) && unknown_fits(unk.drop_first())
    }
}

/// The parsed arguments that `to_args` writes in a form that reads back to
/// them.
pub open spec fn reconstructible(i: InfoView) -> bool {
    &&& i.rustc is Some
    &&& forall|j: int| 0 <= j < i.emits.len() ==> emit_fits(#[trigger] i.emits[j])
    &&& forall|j: int| 0 <= j < i.externs.len() ==> extern_fits(#[trigger] i.externs[j])
    &&& forall|j: int|
        0 <= j < i.remap_path_prefixes.len() ==> remap_fits(#[trigger] i.remap_path_prefixes[j])
    &&& forall|j: int| 0 <= j < i.links.len() ==> link_fits(#[trigger] i.links[j])
    &&& forall|j: int| 0 <= j < i.inputs.len() ==> plain(#[trigger] i.inputs[j])
    &&& unknown_fits(i.unknown)
}

/// The flags of `info` on top of `start`.
spec fn after_flags(info: InfoView, start: InfoView) -> InfoView {
    InfoView {
        help: info.help,
        version: info.version,
        verbose: info.verbose,
        test: info.test,
        opt_level: info.opt_level,
        debug_info: info.debug_info,
        ..start
    }
}

/// The above and the options of `info` about the crate and its output.
spec fn after_crate_options(info: InfoView, start: InfoView) -> InfoView {
    InfoView {
        crate_name: info.crate_name,
        edition: info.edition,
        out_dir: info.out_dir,
        out: info.out,
        target: info.target,
        sysroot: info.sysroot,
        ..after_flags(info, start)
    }
}

/// The above and the options of `info` about diagnostics and printing.
spec fn after_values(info: InfoView, start: InfoView) -> InfoView {
    InfoView {
        error_format: info.error_format,
        color: info.color,
        json: info.json,
        cap_lints: info.cap_lints,
        explain: info.explain,
        print: info.print,
        unpretty: info.unpretty,
        ..after_crate_options(info, start)
    }
}

/// The above and the collections of `info` up to the linked libraries.
spec fn after_collections(info: InfoView, start: InfoView) -> InfoView {
    InfoView {
        configs: info.configs,
        confchecks: info.confchecks,
        crate_types: info.crate_types,
        emits: info.emits,
        externs: info.externs,
        remap_path_prefixes: info.remap_path_prefixes,
        libpaths: info.libpaths,
        links: info.links,
        ..after_values(info, start)
    }
}

/// Every option of `info` on top of `start`.
spec fn after_options(info: InfoView, start: InfoView) -> InfoView {
    InfoView {
        warns: info.warns,
        allows: info.allows,
        denies: info.denies,
        forbids: info.forbids,
        codegen_opts: info.codegen_opts,
        z_opts: info.z_opts,
        ..after_collections(info, start)
    }
}

/// Reading the flags that `to_args` writes.
#[verifier::rlimit(30)]
proof fn lemma_read_flags(info: InfoView, start: InfoView)
    requires
        reconstructible(info),
        start == (InfoView { rustc: info.rustc, ..empty_info() }),
    ensures
        all_alone(written_flags(info)),
        read_each(written_flags(info), start) == after_flags(info, start),
{
    lemma_apply_effects();
    lemma_flag_letters();
    let s1 = flag_word(info.help, "--help"@);
    lemma_read_flag(info.help, "--help"@, start);
    let p1 = s1;
    assert(read_each(Seq::<Seq<char>>::empty(), start) == start);
    let j1 = read_each(p1, start);
    let s2 = flag_word(info.version, "--version"@);
    lemma_read_flag(info.version, "--version"@, j1);
    let p2 = p1 + s2;
    lemma_read_each_concat(p1, s2, start);
    let j2 = read_each(p2, start);
    let s3 = flag_word(info.verbose, "--verbose"@);
    lemma_read_flag(info.verbose, "--verbose"@, j2);
    let p3 = p2 + s3;
    lemma_read_each_concat(p2, s3, start);
    let j3 = read_each(p3, start);
    let s4 = flag_word(info.test, "--test"@);
    lemma_read_flag(info.test, "--test"@, j3);
    let p4 = p3 + s4;
    lemma_read_each_concat(p3, s4, start);
    let j4 = read_each(p4, start);
    let s5 = flag_word(info.opt_level, "-O"@);
    lemma_read_flag(info.opt_level, "-O"@, j4);
    let p5 = p4 + s5;
    lemma_read_each_concat(p4, s5, start);
    let j5 = read_each(p5, start);
    let s6 = flag_word(info.debug_info, "-g"@);
    lemma_read_flag(info.debug_info, "-g"@, j5);
    let p6 = p5 + s6;
    lemma_read_each_concat(p5, s6, start);
    let j6 = read_each(p6, start);
    assert(written_flags(info) == p6);
    assert(same_info(j6, after_flags(info, start)));
    lemma_same_info(j6, after_flags(info, start));
}

/// Reading the flags and the options about the crate and its output that
/// `to_args` writes.
#[verifier::rlimit(30)]
#[verifier::spinoff_prover]
proof fn lemma_read_crate_options(info: InfoView, start: InfoView)
    requires
        reconstructible(info),
        start == (InfoView { rustc: info.rustc, ..empty_info() }),
    ensures
        reads_to(written_crate_options(info), start, after_crate_options(info, start)),
{
    lemma_apply_effects();
    lemma_value_keys();
    lemma_written_keys();
    lemma_read_flags(info, start);
    let p0 = written_flags(info);
    let j0 = read_each(p0, start);
    let s1 = value_word("--crate-name="@, info.crate_name);
    lemma_read_value(
        "--crate-name"@,
        info.crate_name,
        |x: Seq<char>| ArgView::CrateName(x),
        |i: InfoView, o: Option<Seq<char>>| InfoView {
            crate_name: if o is Some { o } else { i.crate_name },
            ..i
        },
        j0,
    );
    let p1 = p0 + s1;
    lemma_read_each_concat(p0, s1, start);
    let j1 = read_each(p1, start);
    let s2 = value_word("--edition="@, info.edition);
    lemma_read_value(
        "--edition"@,
        info.edition,
        |x: Seq<char>| ArgView::Edition(x),
        |i: InfoView, o: Option<Seq<char>>| InfoView {
            edition: if o is Some { o } else { i.edition },
            ..i
        },
        j1,
    );
    let p2 = p1 + s2;
    lemma_read_each_concat(p1, s2, start);
    let j2 = read_each(p2, start);
    let s3 = value_word("--out-dir="@, info.out_dir);
    lemma_read_value(
        "--out-dir"@,
        info.out_dir,
        |x: Seq<char>| ArgView::OutDir(x),
        |i: InfoView, o: Option<Seq<char>>| InfoView {
            out_dir: if o is Some { o } else { i.out_dir },
            ..i
        },
        j2,
    );
    let p3 = p2 + s3;
    lemma_read_each_concat(p2, s3, start);
    let j3 = read_each(p3, start);
    lemma_alone_reads_to(p3, start);
    let s4 = spaced_words("-o"@, info.out);
    let set_out = |i: InfoView, o: Option<Seq<char>>| InfoView {
        out: if o is Some { o } else { i.out },
        ..i
    };
    lemma_read_spaced_value("-o"@, info.out, |x: Seq<char>| ArgView::Out(x), set_out, j3);
    let k0 = set_out(j3, info.out);
    lemma_reads_to_concat(p3, s4, start, j3, k0);
    let q0 = Seq::<Seq<char>>::empty();
    let j4 = k0;
    assert(read_each(q0, k0) == k0);
    let s5 = value_word("--target="@, info.target);
    lemma_read_value(
        "--target"@,
        info.target,
        |x: Seq<char>| ArgView::Target(x),
        |i: InfoView, o: Option<Seq<char>>| InfoView {
            target: if o is Some { o } else { i.target },
            ..i
        },
        j4,
    );
    let q5 = q0 + s5;
    lemma_read_each_concat(q0, s5, k0);
    let j5 = read_each(q5, k0);
    let s6 = value_word("--sysroot="@, info.sysroot);
    lemma_read_value(
        "--sysroot"@,
        info.sysroot,
        |x: Seq<char>| ArgView::Sysroot(x),
        |i: InfoView, o: Option<Seq<char>>| InfoView {
            sysroot: if o is Some { o } else { i.sysroot },
            ..i
        },
        j5,
    );
    let q6 = q5 + s6;
    lemma_read_each_concat(q5, s6, k0);
    let j6 = read_each(q6, k0);
    lemma_alone_reads_to(q6, k0);
    lemma_reads_to_concat(p3 + s4, q6, start, k0, j6);
    assert(written_crate_options(info) =~= (p3 + s4) + q6);
    assert(same_info(j6, after_crate_options(info, start)));
    lemma_same_info(j6, after_crate_options(info, start));
}

/// The single-value options about diagnostics and printing, as `to_args`
/// writes them.
spec fn value_options(i: InfoView) -> Seq<Seq<char>> {
    value_word("--error-format="@, i.error_format)
        + value_word("--color="@, i.color)
        + value_word("--json="@, i.json)
        + value_word("--cap-lints="@, i.cap_lints)
        + value_word("--explain="@, i.explain)
        + value_word("--print="@, i.print)
        + value_word("--unpretty="@, i.unpretty)
}

/// Reading the options about diagnostics and printing that `to_args`
/// writes, on top of parsed arguments that have none of them yet.
#[verifier::rlimit(30)]
#[verifier::spinoff_prover]
proof fn lemma_read_value_options(info: InfoView, j0: InfoView)
    requires
        j0.error_format is None,
        j0.color is None,
        j0.json is None,
        j0.cap_lints is None,
        j0.explain is None,
        j0.print is None,
        j0.unpretty is None,
    ensures
        all_alone(value_options(info)),
        read_each(value_options(info), j0) == (InfoView {
            error_format: info.error_format,
            color: info.color,
            json: info.json,
            cap_lints: info.cap_lints,
            explain: info.explain,
            print: info.print,
            unpretty: info.unpretty,
            ..j0
        }),
{
    lemma_apply_effects();
    lemma_value_keys();
    lemma_written_keys();
    let p0 = Seq::<Seq<char>>::empty();
    assert(read_each(p0, j0) == j0);
    let s1 = value_word("--error-format="@, info.error_format);
    lemma_read_value(
        "--error-format"@,
        info.error_format,
        |x: Seq<char>| ArgView::ErrorFormat(x),
        |i: InfoView, o: Option<Seq<char>>| InfoView {
            error_format: if o is Some { o } else { i.error_format },
            ..i
        },
        j0,
    );
    let p1 = p0 + s1;
    lemma_read_each_concat(p0, s1, j0);
    let j1 = read_each(p1, j0);
    let s2 = value_word("--color="@, info.color);
    lemma_read_value(
        "--color"@,
        info.color,
        |x: Seq<char>| ArgView::Color(x),
        |i: InfoView, o: Option<Seq<char>>| InfoView {
            color: if o is Some { o } else { i.color },
            ..i
        },
        j1,
    );
    let p2 = p1 + s2;
    lemma_read_each_concat(p1, s2, j0);
    let j2 = read_each(p2, j0);
    let s3 = value_word("--json="@, info.json);
    lemma_read_value(
        "--json"@,
        info.json,
        |x: Seq<char>| ArgView::Json(x),
        |i: InfoView, o: Option<Seq<char>>| InfoView {
            json: if o is Some { o } else { i.json },
            ..i
        },
        j2,
    );
    let p3 = p2 + s3;
    lemma_read_each_concat(p2, s3, j0);
    let j3 = read_each(p3, j0);
    let s4 = value_word("--cap-lints="@, info.cap_lints);
    lemma_read_value(
        "--cap-lints"@,
        info.cap_lints,
        |x: Seq<char>| ArgView::CapLints(x),
        |i: InfoView, o: Option<Seq<char>>| InfoView {
            cap_lints: if o is Some { o } else { i.cap_lints },
            ..i
        },
        j3,
    );
    let p4 = p3 + s4;
    lemma_read_each_concat(p3, s4, j0);
    let j4 = read_each(p4, j0);
    let s5 = value_word("--explain="@, info.explain);
    lemma_read_value(
        "--explain"@,
        info.explain,
        |x: Seq<char>| ArgView::Explain(x),
        |i: InfoView, o: Option<Seq<char>>| InfoView {
            explain: if o is Some { o } else { i.explain },
            ..i
        },
        j4,
    );
    let p5 = p4 + s5;
    lemma_read_each_concat(p4, s5, j0);
    let j5 = read_each(p5, j0);
    let s6 = value_word("--print="@, info.print);
    lemma_read_value(
        "--print"@,
        info.print,
        |x: Seq<char>| ArgView::Print(x),
        |i: InfoView, o: Option<Seq<char>>| InfoView {
            print: if o is Some { o } else { i.print },
            ..i
        },
        j5,
    );
    let p6 = p5 + s6;
    lemma_read_each_concat(p5, s6, j0);
    let j6 = read_each(p6, j0);
    let s7 = value_word("--unpretty="@, info.unpretty);
    lemma_read_value(
        "--unpretty"@,
        info.unpretty,
        |x: Seq<char>| ArgView::Unpretty(x),
        |i: InfoView, o: Option<Seq<char>>| InfoView {
            unpretty: if o is Some { o } else { i.unpretty },
            ..i
        },
        j6,
    );
    let p7 = p6 + s7;
    lemma_read_each_concat(p6, s7, j0);
    let j7 = read_each(p7, j0);
    assert(value_options(info) =~= p7);
}

/// Reading the flags and single-value options that `to_args` writes.
#[verifier::rlimit(30)]
#[verifier::spinoff_prover]
proof fn lemma_read_values(info: InfoView, start: InfoView)
    requires
        reconstructible(info),
        start == (InfoView { rustc: info.rustc, ..empty_info() }),
    ensures
        reads_to(written_values(info), start, after_values(info, start)),
{
    let j0 = after_crate_options(info, start);
    lemma_read_value_options(info, j0);
    let p = value_options(info);
    let j7 = read_each(p, j0);
    lemma_read_crate_options(info, start);
    lemma_reads_to_then_alone(written_crate_options(info), p, start, j0);
    assert(written_values(info) =~= written_crate_options(info) + p);
    assert(same_info(j7, after_values(info, start)));
    lemma_same_info(j7, after_values(info, start));
}

/// Reading the options that `to_args` writes up to the linked libraries.
#[verifier::rlimit(30)]
#[verifier::spinoff_prover]
proof fn lemma_read_collections(info: InfoView, start: InfoView)
    requires
        reconstructible(info),
        start == (InfoView { rustc: info.rustc, ..empty_info() }),
    ensures
        reads_to(written_collections(info), start, after_collections(info, start)),
{
    lemma_apply_effects();
    lemma_value_keys();
    lemma_written_keys();
    let p0 = Seq::<Seq<char>>::empty();
    let j0 = after_values(info, start);
    assert(read_each(p0, j0) == j0);
    let s1 = prefixed("--cfg="@, info.configs);
    lemma_read_joined_list(
        "--cfg"@,
        info.configs,
        |v: Seq<char>| ArgView::Cfg(v),
        |i: InfoView| i.configs,
        |i: InfoView, v: Seq<Seq<char>>| InfoView { configs: v, ..i },
        j0,
    );
    let p1 = p0 + s1;
    lemma_read_each_concat(p0, s1, j0);
    let j1 = read_each(p1, j0);
    let s2 = prefixed("--check-cfg="@, info.confchecks);
    lemma_read_joined_list(
        "--check-cfg"@,
        info.confchecks,
        |v: Seq<char>| ArgView::CheckCfg(v),
        |i: InfoView| i.confchecks,
        |i: InfoView, v: Seq<Seq<char>>| InfoView { confchecks: v, ..i },
        j1,
    );
    let p2 = p1 + s2;
    lemma_read_each_concat(p1, s2, j0);
    let j2 = read_each(p2, j0);
    let s3 = prefixed("--crate-type="@, info.crate_types);
    lemma_read_joined_list(
        "--crate-type"@,
        info.crate_types,
        |v: Seq<char>| ArgView::CrateType(v),
        |i: InfoView| i.crate_types,
        |i: InfoView, v: Seq<Seq<char>>| InfoView { crate_types: v, ..i },
        j2,
    );
    let p3 = p2 + s3;
    lemma_read_each_concat(p2, s3, j0);
    let j3 = read_each(p3, j0);
    let s4 = emit_words(info.emits);
    lemma_read_emits(info.emits, j3);
    let p4 = p3 + s4;
    lemma_read_each_concat(p3, s4, j0);
    let j4 = read_each(p4, j0);
    let s5 = info.externs.map_values(|x: ExternView| extern_word(x));
    lemma_read_externs(info.externs, j4);
    let p5 = p4 + s5;
    lemma_read_each_concat(p4, s5, j0);
    let j5 = read_each(p5, j0);
    let s6 = info.remap_path_prefixes.map_values(|r: (Seq<char>, Seq<char>)| remap_word(r));
    lemma_read_remaps(info.remap_path_prefixes, j5);
    let p6 = p5 + s6;
    lemma_read_each_concat(p5, s6, j0);
    let j6 = read_each(p6, j0);
    lemma_read_values(info, start);
    lemma_reads_to_then_alone(written_values(info), p6, start, j0);
    let s7 = libpath_words(info.libpaths);
    lemma_read_libpath_items(info.libpaths, j6);
    let j7 = InfoView { libpaths: j6.libpaths + info.libpaths, ..j6 };
    lemma_reads_to_concat(written_values(info) + p6, s7, start, j6, j7);
    let s8 = link_words(info.links);
    lemma_read_link_items(info.links, j7);
    let j8 = InfoView { links: j7.links + info.links, ..j7 };
    lemma_reads_to_concat(written_values(info) + p6 + s7, s8, start, j7, j8);
    assert(written_collections(info) =~= written_values(info) + p6 + s7 + s8);
    assert(same_info(j8, after_collections(info, start)));
    lemma_same_info(j8, after_collections(info, start));
}

/// Reading every option that `to_args` writes.
#[verifier::rlimit(30)]
#[verifier::spinoff_prover]
proof fn lemma_read_options(info: InfoView, start: InfoView)
    requires
        reconstructible(info),
        start == (InfoView { rustc: info.rustc, ..empty_info() }),
    ensures
        reads_to(option_args(info), start, after_options(info, start)),
{
    lemma_apply_effects();
    lemma_attached_letters();
    lemma_letter_keys();
    lemma_key_letters();
    let j0 = after_collections(info, start);
    let p0 = written_collections(info);
    let s1 = attached_words("-W"@, info.warns);
    lemma_read_attached_items(
        "-W"@,
        'W',
        info.warns,
        |v: Seq<char>| ArgView::Warn(v),
        |i: InfoView| i.warns,
        |i: InfoView, v: Seq<Seq<char>>| InfoView { warns: v, ..i },
        j0,
    );
    let j1 = InfoView { warns: j0.warns + info.warns, ..j0 };
    let s2 = attached_words("-A"@, info.allows);
    lemma_read_attached_items(
        "-A"@,
        'A',
        info.allows,
        |v: Seq<char>| ArgView::Allow(v),
        |i: InfoView| i.allows,
        |i: InfoView, v: Seq<Seq<char>>| InfoView { allows: v, ..i },
        j1,
    );
    let j2 = InfoView { allows: j1.allows + info.allows, ..j1 };
    let s3 = attached_words("-D"@, info.denies);
    lemma_read_attached_items(
        "-D"@,
        'D',
        info.denies,
        |v: Seq<char>| ArgView::Deny(v),
        |i: InfoView| i.denies,
        |i: InfoView, v: Seq<Seq<char>>| InfoView { denies: v, ..i },
        j2,
    );
    let j3 = InfoView { denies: j2.denies + info.denies, ..j2 };
    let s4 = attached_words("-F"@, info.forbids);
    lemma_read_attached_items(
        "-F"@,
        'F',
        info.forbids,
        |v: Seq<char>| ArgView::Forbid(v),
        |i: InfoView| i.forbids,
        |i: InfoView, v: Seq<Seq<char>>| InfoView { forbids: v, ..i },
        j3,
    );
    let j4 = InfoView { forbids: j3.forbids + info.forbids, ..j3 };
    let s5 = attached_words("-C"@, info.codegen_opts);
    lemma_read_attached_items(
        "-C"@,
        'C',
        info.codegen_opts,
        |v: Seq<char>| ArgView::Codegen(v),
        |i: InfoView| i.codegen_opts,
        |i: InfoView, v: Seq<Seq<char>>| InfoView { codegen_opts: v, ..i },
        j4,
    );
    let j5 = InfoView { codegen_opts: j4.codegen_opts + info.codegen_opts, ..j4 };
    let s6 = attached_words("-Z"@, info.z_opts);
    lemma_read_attached_items(
        "-Z"@,
        'Z',
        info.z_opts,
        |v: Seq<char>| ArgView::Z(v),
        |i: InfoView| i.z_opts,
        |i: InfoView, v: Seq<Seq<char>>| InfoView { z_opts: v, ..i },
        j5,
    );
    let j6 = InfoView { z_opts: j5.z_opts + info.z_opts, ..j5 };
    lemma_read_collections(info, start);
    let p1 = p0 + s1;
    lemma_reads_to_concat(p0, s1, start, j0, j1);
    let p2 = p1 + s2;
    lemma_reads_to_concat(p1, s2, start, j1, j2);
    let p3 = p2 + s3;
    lemma_reads_to_concat(p2, s3, start, j2, j3);
    let p4 = p3 + s4;
    lemma_reads_to_concat(p3, s4, start, j3, j4);
    let p5 = p4 + s5;
    lemma_reads_to_concat(p4, s5, start, j4, j5);
    let p6 = p5 + s6;
    lemma_reads_to_concat(p5, s6, start, j5, j6);
    assert(option_args(info) =~= p6);
    assert(same_info(j6, after_options(info, start)));
    lemma_same_info(j6, after_options(info, start));
}

/// Reading back what `to_args` writes gives the same parsed arguments:
/// `parse(<wrapper> - <rustc> to_args(info)) == info`, for every `info`
/// whose parts `to_args` writes in a form that reads back (see
/// [`reconstructible`]).
pub proof fn lemma_to_args_roundtrip(info: InfoView, wrapper: Seq<char>, marker: Seq<char>)
    requires
        reconstructible(info),
    ensures
        spec_parse(seq![wrapper, marker, info.rustc.unwrap()] + spec_to_args(info)) == info,
{
    let args = seq![wrapper, marker, info.rustc.unwrap()] + spec_to_args(info);
    assert(args.skip(3) =~= spec_to_args(info));
    assert(args[2] == info.rustc.unwrap());
    let start = InfoView { rustc: info.rustc, ..empty_info() };
    assert(spec_parse(args) == spec_parse_rest(spec_to_args(info), start));
    lemma_read_options(info, start);
    let mid = InfoView {
        unknown: Seq::<Seq<char>>::empty(),
        inputs: Seq::<Seq<char>>::empty(),
        ..info
    };
    assert(same_info(after_options(info, start), mid));
    lemma_same_info(after_options(info, start), mid);
    let opts = option_args(info);
    let tail = info.inputs + info.unknown;
    assert(spec_to_args(info) =~= opts + tail);
    assert(spec_parse_rest(opts + tail, start) == spec_parse_rest(tail, mid));
    lemma_read_inputs(info.inputs, mid);
    lemma_read_alone(info.inputs, info.unknown, mid);
    let after_inputs = InfoView { inputs: mid.inputs + info.inputs, ..mid };
    lemma_read_unknown(info.unknown, after_inputs);
    assert(mid.unknown + info.unknown =~= info.unknown);
    assert(mid.inputs + info.inputs =~= info.inputs);
    assert(spec_parse_rest(tail, mid) == info);
}

/// Parsing a line, writing the result back with `to_args` after the same
/// wrapper, marker and `rustc`, and parsing that again gives the same
/// parsed arguments: the round trip holds for every line the parser reads.
pub proof fn lemma_parse_roundtrip(args: Seq<Seq<char>>)
    requires
        args.len() >= 3,
    ensures
        spec_parse(seq![args[0], args[1], args[2]] + spec_to_args(spec_parse(args))) == spec_parse(args),
{
    let start = InfoView { rustc: Some(args[2]), ..empty_info() };
    assert(parsing_fits(start));
    lemma_parse_rest_fits(args.skip(3), start);
    let info = spec_parse(args);
    assert(info.rustc == Some(args[2]));
    lemma_to_args_roundtrip(info, args[0], args[1]);
}

/// Reading `s`, then `--` and `b`: `--` and everything after it go to the
/// unknown arguments, in order, and nothing else changes, when `s` does not
/// end with a key that would take the `--` as its value.
proof fn lemma_rest_then_double_dash(s: Seq<Seq<char>>, b: Seq<Seq<char>>, info: InfoView)
    requires
        s.len() == 0 || !takes_value(s.last()),
    ensures
        spec_parse_rest(s + (seq!["--"@] + b), info) == (InfoView {
            unknown: spec_parse_rest(s, info).unknown + (seq!["--"@] + b),
            ..spec_parse_rest(s, info)
        }),
    decreases s.len(),
{
    reveal(spec_parse_rest);
    let t = seq!["--"@] + b;
    let st = s + t;
    if s.len() == 0 {
        assert(st =~= t);
        assert(t[0] == "--"@);
    } else if s[0] == "--"@ {
        assert(st[0] == "--"@);
        assert(info.unknown + st =~= info.unknown + s + t);
    } else {
        let x = s[0];
        assert(st[0] == x);
        let next_s = if s.len() > 1 {
            Some(s[1])
        } else {
            None
        };
        assert(st[1] == if s.len() > 1 {
            s[1]
        } else {
            "--"@
        });
        if s.len() == 1 {
            assert(s.last() == x);
            lemma_next_unused(x);
            assert(spec_parse_arg(x, Some(st[1])) == spec_parse_arg(x, next_s));
        }
        lemma_parse_arg_width(x, next_s);
        let (a, w) = spec_parse_arg(x, next_s);
        assert(st.skip(w) =~= s.skip(w) + t);
        let r = s.skip(w);
        if r.len() > 0 {
            assert(r.last() == s.last());
        }
        lemma_rest_then_double_dash(r, b, spec_apply(info, a, x));
    }
}

/// `--` sends itself and every argument after it to the unknown arguments,
/// unchanged and in order, and changes nothing else: parsing `a`, `--`,
/// `b` gives what parsing `a` gives, with `--` and `b` added to its unknown
/// arguments, when `a` does not end with a key that would take the `--` as
/// its value.
pub proof fn lemma_parse_then_double_dash(a: Seq<Seq<char>>, b: Seq<Seq<char>>)
    requires
        a.len() >= 3,
        a.len() == 3 || !takes_value(a.last()),
    ensures
        spec_parse(a + seq!["--"@] + b) == (InfoView {
            unknown: spec_parse(a).unknown + seq!["--"@] + b,
            ..spec_parse(a)
        }),
{
    let s = a.skip(3);
    let whole = a + seq!["--"@] + b;
    assert(whole.skip(3) =~= s + (seq!["--"@] + b));
    assert(whole[2] == a[2]);
    if s.len() > 0 {
        assert(s.last() == a.last());
    }
    let start = InfoView { rustc: Some(a[2]), ..empty_info() };
    lemma_rest_then_double_dash(s, b, start);
    let p = spec_parse(a);
    assert(p.unknown + (seq!["--"@] + b) =~= p.unknown + seq!["--"@] + b);
}

} // verus!
