//! Reading arguments that stand alone one after the other, and what each
//! kind of argument that `to_args` writes adds when it is read back.

use vstd::prelude::*;

use crate::info::{
    attachable, attached_item, attached_words, emit_text, emit_words, extern_word, flag_word,
    lemma_attached_words_push, lemma_libpath_words_push, lemma_link_words_push, libpath_attachable,
    libpath_item, libpath_word, libpath_words, link_attachable, link_head, link_item, link_kind_text,
    link_value, link_word, link_words, prefixed, remap_word, rename_text, search_kind_text,
    spaced_words, value_word, EmitView, ExternView, InfoView, LibrarySearchPathKind,
    LibrarySearchPathView, LinkLibView,
};
use crate::letters::{
    lemma_flag_letters, lemma_flag_shape, lemma_key_letters, lemma_key_shape, lemma_letter_keys,
    lemma_takes_value, lemma_value_keys, lemma_written_keys, lemma_written_letters,
};
use crate::parser::{
    lemma_apply_effects, spec_apply, spec_emit_part, spec_flag_arg, spec_link_kind, spec_parse_arg, spec_parse_emit,
    spec_parse_extern, spec_parse_libpath, spec_parse_link, spec_parse_remap, spec_parse_rest,
    spec_prefix_arg, spec_search_kind, spec_value_arg, takes_value, ArgView,
};
use crate::properties::{
    emit_fits, extern_fits, link_fits, plain, remap_fits, stays_unknown, unknown_fits,
};
use crate::text::{
    first_index, join, lemma_concat_lacks, lemma_first_index, lemma_join_lacks, lemma_split_join,
    lemma_split_once_after, lemma_split_once_none, split_once,
};

verus! {

// ---------------------------------------------------------------------
// Reading arguments one at a time.
// ---------------------------------------------------------------------

/// An argument that is read by itself, whatever follows it, and is not `--`.
pub open spec fn stands_alone(x: Seq<char>) -> bool {
    &&& x != "--"@
    &&& spec_parse_arg(x, None).1 == 1
    &&& forall|n: Seq<char>| #[trigger] spec_parse_arg(x, Some(n)) == spec_parse_arg(x, None)
}

/// Every argument of `s` is read by itself.
pub open spec fn all_alone(s: Seq<Seq<char>>) -> bool {
    forall|j: int| 0 <= j < s.len() ==> stands_alone(#[trigger] s[j])
}

/// The effect of reading each argument of `s` by itself, in order.
pub open spec fn read_each(s: Seq<Seq<char>>, info: InfoView) -> InfoView
    decreases s.len(),
{
    if s.len() == 0 {
        info
    } else {
        let x = s.last();
        spec_apply(read_each(s.drop_last(), info), spec_parse_arg(x, None).0, x)
    }
}

/// Reading an argument that stands alone, then the rest.
pub(crate) proof fn lemma_read_first(x: Seq<char>, t: Seq<Seq<char>>, info: InfoView)
    requires
        stands_alone(x),
    ensures
        spec_parse_rest(seq![x] + t, info) == spec_parse_rest(
            t,
            spec_apply(info, spec_parse_arg(x, None).0, x),
        ),
{
    reveal(spec_parse_rest);
    let s = seq![x] + t;
    assert(s[0] == x);
    if s.len() > 1 {
        assert(spec_parse_arg(x, Some(s[1])) == spec_parse_arg(x, None));
    }
    assert(s.skip(1) =~= t);
}

/// Arguments that stand alone are read one after the other.
pub(crate) proof fn lemma_read_alone(s: Seq<Seq<char>>, t: Seq<Seq<char>>, info: InfoView)
    requires
        all_alone(s),
    ensures
        spec_parse_rest(s + t, info) == spec_parse_rest(t, read_each(s, info)),
    decreases s.len(),
{
    if s.len() == 0 {
        assert(s + t =~= t);
    } else {
        let init = s.drop_last();
        let x = s.last();
        assert(s + t =~= init + (seq![x] + t));
        assert(all_alone(init)) by {
            assert forall|j: int| 0 <= j < init.len() implies stands_alone(#[trigger] init[j]) by {
                assert(init[j] == s[j]);
            }
        }
        lemma_read_alone(init, seq![x] + t, info);
        assert(stands_alone(s[s.len() - 1]));
        lemma_read_first(x, t, read_each(init, info));
    }
}

/// Reading `x + y` is reading `x`, then `y`.
pub(crate) proof fn lemma_read_each_concat(x: Seq<Seq<char>>, y: Seq<Seq<char>>, info: InfoView)
    ensures
        read_each(x + y, info) == read_each(y, read_each(x, info)),
        all_alone(x) && all_alone(y) ==> all_alone(x + y),
    decreases y.len(),
{
    if y.len() == 0 {
        assert(x + y =~= x);
    } else {
        assert((x + y).drop_last() =~= x + y.drop_last());
        assert((x + y).last() == y.last());
        lemma_read_each_concat(x, y.drop_last(), info);
    }
    if all_alone(x) && all_alone(y) {
        assert forall|j: int| 0 <= j < (x + y).len() implies stands_alone(#[trigger] (x + y)[j]) by {
            if j < x.len() {
                assert((x + y)[j] == x[j]);
            } else {
                assert((x + y)[j] == y[j - x.len()]);
            }
        }
    }
}

/// Reading the words of a list whose arguments each add their item to one
/// list field of the parsed arguments adds all the items to it, in order.
pub(crate) proof fn lemma_read_items<A>(
    vals: Seq<A>,
    word: spec_fn(A) -> Seq<char>,
    get: spec_fn(InfoView) -> Seq<A>,
    set: spec_fn(InfoView, Seq<A>) -> InfoView,
    info: InfoView,
)
    requires
        forall|i: InfoView| #[trigger] set(i, get(i)) == i,
        forall|i: InfoView, v: Seq<A>| #[trigger] get(set(i, v)) == v,
        forall|i: InfoView, v: Seq<A>, w: Seq<A>| #[trigger] set(set(i, v), w) == set(i, w),
        forall|j: int| 0 <= j < vals.len() ==> stands_alone(#[trigger] word(vals[j])),
        forall|j: int, i: InfoView|
            0 <= j < vals.len() ==> #[trigger] spec_apply(
                i,
                spec_parse_arg(word(vals[j]), None).0,
                word(vals[j]),
            ) == set(i, get(i).push(vals[j])),
    ensures
        all_alone(vals.map_values(word)),
        read_each(vals.map_values(word), info) == set(info, get(info) + vals),
    decreases vals.len(),
{
    let ws = vals.map_values(word);
    assert forall|j: int| 0 <= j < ws.len() implies stands_alone(#[trigger] ws[j]) by {
        assert(ws[j] == word(vals[j]));
    }
    if vals.len() == 0 {
        assert(get(info) + vals =~= get(info));
        assert(set(info, get(info)) == info);
    } else {
        let init = vals.drop_last();
        let l = vals.last();
        assert(ws.drop_last() =~= init.map_values(word));
        assert(ws.last() == word(l));
        lemma_read_items(init, word, get, set, info);
        let j0 = set(info, get(info) + init);
        assert(spec_apply(j0, spec_parse_arg(word(vals[vals.len() - 1]), None).0, word(vals[vals.len() - 1]))
            == set(j0, get(j0).push(l)));
        assert((get(info) + init).push(l) =~= get(info) + vals);
    }
}


/// `KEY=VALUE` is read by itself, as the key with its value.
pub(crate) proof fn lemma_joined_arg(key: Seq<char>, val: Seq<char>)
    requires
        takes_value(key),
    ensures
        stands_alone(key + seq!['='] + val),
        spec_parse_arg(key + seq!['='] + val, None) == (spec_value_arg(key, val).unwrap(), 1int),
{
    reveal(spec_parse_arg);
    lemma_key_shape(key);
    lemma_takes_value(key, val);
    let joined = key + seq!['='] + val;
    lemma_split_once_after(key, val, '=');
    assert(joined[0] == key[0]);
    assert(joined != "--"@) by {
        assert(joined[key.len() as int] == '=');
        if joined == "--"@ {
            lemma_flag_letters();
        }
    }
}

/// A key followed by its value as the next argument is read as the key with
/// that value, and takes up both arguments.
pub(crate) proof fn lemma_spaced_arg(key: Seq<char>, val: Seq<char>)
    requires
        takes_value(key),
    ensures
        key != "--"@,
        spec_parse_arg(key, Some(val)) == (spec_value_arg(key, val).unwrap(), 2int),
{
    reveal(spec_parse_arg);
    lemma_key_shape(key);
    lemma_takes_value(key, val);
    lemma_split_once_none(key, '=');
}

/// Reading `s` from `from`, whatever follows it, leaves `to`.
pub open spec fn reads_to(s: Seq<Seq<char>>, from: InfoView, to: InfoView) -> bool {
    forall|t: Seq<Seq<char>>| #[trigger] spec_parse_rest(s + t, from) == spec_parse_rest(t, to)
}

/// Arguments that stand alone read to what reading each of them gives.
pub(crate) proof fn lemma_alone_reads_to(s: Seq<Seq<char>>, info: InfoView)
    requires
        all_alone(s),
    ensures
        reads_to(s, info, read_each(s, info)),
{
    assert forall|t: Seq<Seq<char>>| #[trigger] spec_parse_rest(s + t, info) == spec_parse_rest(
        t,
        read_each(s, info),
    ) by {
        lemma_read_alone(s, t, info);
    }
}

/// Reading `x + y` is reading `x`, then `y`.
pub(crate) proof fn lemma_reads_to_concat(
    x: Seq<Seq<char>>,
    y: Seq<Seq<char>>,
    a: InfoView,
    b: InfoView,
    c: InfoView,
)
    requires
        reads_to(x, a, b),
        reads_to(y, b, c),
    ensures
        reads_to(x + y, a, c),
{
    assert forall|t: Seq<Seq<char>>| #[trigger] spec_parse_rest((x + y) + t, a) == spec_parse_rest(
        t,
        c,
    ) by {
        assert((x + y) + t =~= x + (y + t));
        assert(spec_parse_rest(x + (y + t), a) == spec_parse_rest(y + t, b));
        assert(spec_parse_rest(y + t, b) == spec_parse_rest(t, c));
    }
}

/// Reading `x` and then arguments `y` that stand alone.
pub(crate) proof fn lemma_reads_to_then_alone(
    x: Seq<Seq<char>>,
    y: Seq<Seq<char>>,
    a: InfoView,
    b: InfoView,
)
    requires
        reads_to(x, a, b),
        all_alone(y),
    ensures
        reads_to(x + y, a, read_each(y, b)),
{
    lemma_alone_reads_to(y, b);
    lemma_reads_to_concat(x, y, a, b, read_each(y, b));
}

/// Reading `[KEY, VALUE]` when there is a value, nothing otherwise.
pub(crate) proof fn lemma_read_spaced_value(
    key: Seq<char>,
    v: Option<Seq<char>>,
    mk: spec_fn(Seq<char>) -> ArgView,
    set: spec_fn(InfoView, Option<Seq<char>>) -> InfoView,
    info: InfoView,
)
    requires
        takes_value(key),
        forall|x: Seq<char>| #[trigger] spec_value_arg(key, x) == Some(mk(x)),
        forall|i: InfoView, x: Seq<char>, raw: Seq<char>|
            #[trigger] spec_apply(i, mk(x), raw) == set(i, Some(x)),
        set(info, None) == info,
    ensures
        reads_to(spaced_words(key, v), info, set(info, v)),
{
    match v {
        Some(x) => {
            lemma_spaced_arg(key, x);
            assert(spec_value_arg(key, x) == Some(mk(x)));
            assert forall|t: Seq<Seq<char>>| #[trigger] spec_parse_rest(
                spaced_words(key, v) + t,
                info,
            ) == spec_parse_rest(t, set(info, v)) by {
                reveal(spec_parse_rest);
                let s = spaced_words(key, v) + t;
                assert(s[0] == key);
                assert(s[1] == x);
                assert(s.skip(2) =~= t);
            }
        },
        None => {
            assert forall|t: Seq<Seq<char>>| #[trigger] spec_parse_rest(
                spaced_words(key, v) + t,
                info,
            ) == spec_parse_rest(t, set(info, v)) by {
                assert(spaced_words(key, v) + t =~= t);
            }
        },
    }
}

/// A word of three letters or more that starts with `-` and another letter
/// than `-` or `=`, and has no `=` as its third letter, is read by itself as
/// an attached `-X` form.
pub(crate) proof fn lemma_attached_arg(arg: Seq<char>)
    requires
        arg.len() >= 3,
        arg[0] == '-',
        arg[1] != '-',
        arg[1] != '=',
        arg[2] != '=',
    ensures
        stands_alone(arg),
        spec_parse_arg(arg, None) == (spec_prefix_arg(arg), 1int),
{
    reveal(spec_parse_arg);
    match split_once(arg, '=') {
        Some((k, v)) => {
            lemma_first_index(arg, '=');
            let i = first_index(arg, '=').unwrap();
            assert(k.len() == i && i >= 3);
            assert(k[1] == arg[1]);
            if spec_value_arg(k, v) is Some {
                lemma_takes_value(k, v);
                lemma_key_shape(k);
            }
        },
        None => {},
    }
    if spec_flag_arg(arg) is Some {
        lemma_flag_shape(arg);
    }
    if takes_value(arg) {
        lemma_key_shape(arg);
    }
    if arg == "--"@ {
        lemma_flag_letters();
        assert(arg[1] == '-');
    }
}

/// A word that starts with neither `-` nor `@` is read by itself as an input.
pub(crate) proof fn lemma_plain_arg(v: Seq<char>)
    requires
        !(v.len() > 0 && (v[0] == '-' || v[0] == '@')),
    ensures
        stands_alone(v),
        spec_parse_arg(v, None) == (ArgView::Input(v), 1int),
{
    reveal(spec_parse_arg);
    match split_once(v, '=') {
        Some((k, w)) => {
            lemma_first_index(v, '=');
            if spec_value_arg(k, w) is Some {
                lemma_takes_value(k, w);
                lemma_key_shape(k);
                assert(k[0] == v[0]);
            }
        },
        None => {},
    }
    if spec_flag_arg(v) is Some {
        lemma_flag_shape(v);
    }
    if takes_value(v) {
        lemma_key_shape(v);
    }
    if v == "--"@ {
        lemma_flag_letters();
        assert(v[0] == '-');
    }
}

/// A flag is read by itself.
pub(crate) proof fn lemma_flag_read(f: Seq<char>)
    requires
        spec_flag_arg(f) is Some,
    ensures
        stands_alone(f),
        spec_parse_arg(f, None) == (spec_flag_arg(f).unwrap(), 1int),
{
    reveal(spec_parse_arg);
    lemma_flag_shape(f);
    lemma_split_once_none(f, '=');
}


/// Reading `[f]` when `on`, nothing otherwise, for a flag `f`.
pub(crate) proof fn lemma_read_flag(on: bool, f: Seq<char>, info: InfoView)
    requires
        spec_flag_arg(f) is Some,
    ensures
        all_alone(flag_word(on, f)),
        read_each(flag_word(on, f), info) == (if on {
            spec_apply(info, spec_flag_arg(f).unwrap(), f)
        } else {
            info
        }),
{
    lemma_flag_read(f);
    if on {
        let w = flag_word(on, f);
        assert(w.drop_last() =~= Seq::<Seq<char>>::empty());
        assert(read_each(w.drop_last(), info) == info);
        assert(w.last() == f);
    }
}

/// Reading `[KEY=VALUE]` when there is a value, nothing otherwise.
pub(crate) proof fn lemma_read_value(
    key: Seq<char>,
    v: Option<Seq<char>>,
    mk: spec_fn(Seq<char>) -> ArgView,
    set: spec_fn(InfoView, Option<Seq<char>>) -> InfoView,
    info: InfoView,
)
    requires
        takes_value(key),
        forall|x: Seq<char>| #[trigger] spec_value_arg(key, x) == Some(mk(x)),
        forall|i: InfoView, x: Seq<char>, raw: Seq<char>|
            #[trigger] spec_apply(i, mk(x), raw) == set(i, Some(x)),
        set(info, None) == info,
    ensures
        all_alone(value_word(key + seq!['='], v)),
        read_each(value_word(key + seq!['='], v), info) == set(info, v),
{
    match v {
        Some(x) => {
            lemma_joined_arg(key, x);
            let w = value_word(key + seq!['='], v);
            assert(w.drop_last() =~= Seq::<Seq<char>>::empty());
            assert(read_each(w.drop_last(), info) == info);
            assert(w.last() == key + seq!['='] + x);
            assert(spec_value_arg(key, x) == Some(mk(x)));
        },
        None => {},
    }
}

/// Reading `KEY=VALUE` for each value adds the values to the list that the
/// key fills.
pub(crate) proof fn lemma_read_joined_list(
    key: Seq<char>,
    vals: Seq<Seq<char>>,
    mk: spec_fn(Seq<char>) -> ArgView,
    get: spec_fn(InfoView) -> Seq<Seq<char>>,
    set: spec_fn(InfoView, Seq<Seq<char>>) -> InfoView,
    info: InfoView,
)
    requires
        takes_value(key),
        forall|v: Seq<char>| #[trigger] spec_value_arg(key, v) == Some(mk(v)),
        forall|i: InfoView, v: Seq<char>, raw: Seq<char>|
            #[trigger] spec_apply(i, mk(v), raw) == set(i, get(i).push(v)),
        forall|i: InfoView| #[trigger] set(i, get(i)) == i,
        forall|i: InfoView, v: Seq<Seq<char>>| #[trigger] get(set(i, v)) == v,
        forall|i: InfoView, v: Seq<Seq<char>>, w: Seq<Seq<char>>| #[trigger] set(set(i, v), w) == set(i, w),
    ensures
        all_alone(prefixed(key + seq!['='], vals)),
        read_each(prefixed(key + seq!['='], vals), info) == set(info, get(info) + vals),
{
    let p = key + seq!['='];
    let word = |v: Seq<char>| p + v;
    assert forall|j: int| 0 <= j < vals.len() implies stands_alone(#[trigger] word(vals[j])) by {
        lemma_joined_arg(key, vals[j]);
        assert(word(vals[j]) == key + seq!['='] + vals[j]);
    }
    assert forall|j: int, i: InfoView| 0 <= j < vals.len() implies #[trigger] spec_apply(
        i,
        spec_parse_arg(word(vals[j]), None).0,
        word(vals[j]),
    ) == set(i, get(i).push(vals[j])) by {
        lemma_joined_arg(key, vals[j]);
        assert(spec_value_arg(key, vals[j]) == Some(mk(vals[j])));
    }
    lemma_read_items(vals, word, get, set, info);
    assert(prefixed(p, vals) =~= vals.map_values(word));
}

/// Reading a list of one argument.
pub(crate) proof fn lemma_read_one(x: Seq<char>, info: InfoView)
    ensures
        read_each(seq![x], info) == spec_apply(info, spec_parse_arg(x, None).0, x),
{
    assert(seq![x].drop_last() =~= Seq::<Seq<char>>::empty());
    assert(read_each(seq![x].drop_last(), info) == info);
}

/// The text of an emission that fits has no `,` and reads back to it.
pub(crate) proof fn lemma_emit_text(e: EmitView)
    requires
        emit_fits(e),
    ensures
        !emit_text(e).contains(','),
        spec_emit_part(emit_text(e)) == e,
{
    let t = emit_text(e);
    match e.path {
        Some(p) => {
            lemma_split_once_after(e.kind, p, '=');
            if t.contains(',') {
                let k = choose|k: int| 0 <= k < t.len() && t[k] == ',';
                if k < e.kind.len() {
                    assert(t[k] == e.kind[k]);
                } else if k > e.kind.len() {
                    assert(t[k] == p[k - e.kind.len() - 1]);
                }
            }
        },
        None => {
            lemma_split_once_none(e.kind, '=');
        },
    }
}

/// Reading the `--emit=` argument adds every emission, when each fits.
#[verifier::rlimit(30)]
pub(crate) proof fn lemma_read_emits(emits: Seq<EmitView>, info: InfoView)
    requires
        forall|j: int| 0 <= j < emits.len() ==> emit_fits(#[trigger] emits[j]),
    ensures
        all_alone(emit_words(emits)),
        read_each(emit_words(emits), info) == (InfoView { emits: info.emits + emits, ..info }),
{
    lemma_apply_effects();
    if emits.len() == 0 {
        assert(info.emits + emits =~= info.emits);
        assert(read_each(emit_words(emits), info) == (InfoView { emits: info.emits + emits, ..info }));
    } else {
        let texts = emits.map_values(|e: EmitView| emit_text(e));
        let j = join(texts, ',');
        lemma_value_keys();
        lemma_written_keys();
        let key = "--emit"@;
        assert("--emit="@ + j =~= key + seq!['='] + j);
        assert(spec_value_arg(key, j) == Some(ArgView::Emit(j)));
        lemma_joined_arg(key, j);
        assert forall|i: int| 0 <= i < texts.len() implies !(#[trigger] texts[i]).contains(',') by {
            lemma_emit_text(emits[i]);
        }
        lemma_split_join(texts, ',');
        assert(spec_parse_emit(j) =~= emits) by {
            assert forall|i: int| 0 <= i < emits.len() implies spec_parse_emit(j)[i] == emits[i] by {
                lemma_emit_text(emits[i]);
            }
        }
        lemma_read_one(key + seq!['='] + j, info);
        assert(emit_words(emits) == seq![key + seq!['='] + j]);
    }
}

/// The argument of an extern that fits is read by itself and adds it.
pub(crate) proof fn lemma_extern_arg(x: ExternView)
    requires
        extern_fits(x),
    ensures
        stands_alone(extern_word(x)),
        spec_parse_arg(extern_word(x), None).0 == ArgView::Extern(
            match x.path {
                Some(p) => x.name + seq!['='] + p,
                None => x.name,
            },
        ),
        spec_parse_extern(
            match x.path {
                Some(p) => x.name + seq!['='] + p,
                None => x.name,
            },
        ) == x,
{
    lemma_value_keys();
    lemma_written_keys();
    let key = "--extern"@;
    let val = match x.path {
        Some(p) => x.name + seq!['='] + p,
        None => x.name,
    };
    assert(extern_word(x) =~= key + seq!['='] + val);
    assert(spec_value_arg(key, val) == Some(ArgView::Extern(val)));
    lemma_joined_arg(key, val);
    match x.path {
        Some(p) => {
            lemma_split_once_after(x.name, p, '=');
        },
        None => {
            lemma_split_once_none(x.name, '=');
        },
    }
}

/// Reading the arguments of externs that fit adds them.
pub(crate) proof fn lemma_read_externs(xs: Seq<ExternView>, info: InfoView)
    requires
        forall|j: int| 0 <= j < xs.len() ==> extern_fits(#[trigger] xs[j]),
    ensures
        all_alone(xs.map_values(|x: ExternView| extern_word(x))),
        read_each(xs.map_values(|x: ExternView| extern_word(x)), info) == (InfoView {
            externs: info.externs + xs,
            ..info
        }),
{
    lemma_apply_effects();
    let word = |x: ExternView| extern_word(x);
    let get = |i: InfoView| i.externs;
    let set = |i: InfoView, v: Seq<ExternView>| InfoView { externs: v, ..i };
    assert forall|j: int| 0 <= j < xs.len() implies stands_alone(#[trigger] word(xs[j])) by {
        lemma_extern_arg(xs[j]);
    }
    assert forall|j: int, i: InfoView| 0 <= j < xs.len() implies #[trigger] spec_apply(
        i,
        spec_parse_arg(word(xs[j]), None).0,
        word(xs[j]),
    ) == set(i, get(i).push(xs[j])) by {
        lemma_extern_arg(xs[j]);
    }
    assert forall|i: InfoView| #[trigger] set(i, get(i)) == i by {
        assert(set(i, get(i)) == i);
    }
    lemma_read_items(xs, word, get, set, info);
    assert(xs.map_values(|x: ExternView| extern_word(x)) =~= xs.map_values(word));
}

/// The argument of a remapping that fits is read by itself and adds it.
pub(crate) proof fn lemma_remap_arg(r: (Seq<char>, Seq<char>))
    requires
        remap_fits(r),
    ensures
        stands_alone(remap_word(r)),
        spec_parse_arg(remap_word(r), None).0 == ArgView::RemapPathPrefix(r.0 + seq!['='] + r.1),
        spec_parse_remap(r.0 + seq!['='] + r.1) == Some(r),
{
    lemma_value_keys();
    lemma_written_keys();
    let key = "--remap-path-prefix"@;
    let val = r.0 + seq!['='] + r.1;
    assert(remap_word(r) =~= key + seq!['='] + val);
    assert(spec_value_arg(key, val) == Some(ArgView::RemapPathPrefix(val)));
    lemma_joined_arg(key, val);
    lemma_split_once_after(r.0, r.1, '=');
}

/// Reading the arguments of remappings that fit adds them.
pub(crate) proof fn lemma_read_remaps(rs: Seq<(Seq<char>, Seq<char>)>, info: InfoView)
    requires
        forall|j: int| 0 <= j < rs.len() ==> remap_fits(#[trigger] rs[j]),
    ensures
        all_alone(rs.map_values(|r: (Seq<char>, Seq<char>)| remap_word(r))),
        read_each(rs.map_values(|r: (Seq<char>, Seq<char>)| remap_word(r)), info) == (InfoView {
            remap_path_prefixes: info.remap_path_prefixes + rs,
            ..info
        }),
{
    lemma_apply_effects();
    let word = |r: (Seq<char>, Seq<char>)| remap_word(r);
    let get = |i: InfoView| i.remap_path_prefixes;
    let set = |i: InfoView, v: Seq<(Seq<char>, Seq<char>)>| InfoView { remap_path_prefixes: v, ..i };
    assert forall|j: int| 0 <= j < rs.len() implies stands_alone(#[trigger] word(rs[j])) by {
        lemma_remap_arg(rs[j]);
    }
    assert forall|j: int, i: InfoView| 0 <= j < rs.len() implies #[trigger] spec_apply(
        i,
        spec_parse_arg(word(rs[j]), None).0,
        word(rs[j]),
    ) == set(i, get(i).push(rs[j])) by {
        lemma_remap_arg(rs[j]);
    }
    assert forall|i: InfoView| #[trigger] set(i, get(i)) == i by {
        assert(set(i, get(i)) == i);
    }
    lemma_read_items(rs, word, get, set, info);
    assert(rs.map_values(|r: (Seq<char>, Seq<char>)| remap_word(r)) =~= rs.map_values(word));
}


/// The argument of a search path that fits is read by itself and adds it.
pub(crate) proof fn lemma_libpath_arg(l: LibrarySearchPathView)
    requires
        libpath_attachable(l),
    ensures
        stands_alone(libpath_word(l)),
        spec_parse_arg(libpath_word(l), None).0 == ArgView::LibPath(l),
{
    lemma_key_letters();
    lemma_written_letters();
    lemma_flag_letters();
    let body = search_kind_text(l.kind) + l.path;
    let w = seq!['-', 'L'] + body;
    assert(libpath_word(l) =~= w);
    match l.kind {
        LibrarySearchPathKind::All => {
            assert(body =~= l.path);
            assert(l.path[0] != '=') by {
                if l.path[0] == '=' {
                    assert(l.path.contains('='));
                }
            }
            lemma_split_once_none(l.path, '=');
        },
        LibrarySearchPathKind::Dep => {
            assert(body =~= "dependency"@ + seq!['='] + l.path);
            lemma_split_once_after("dependency"@, l.path, '=');
        },
        LibrarySearchPathKind::Crate => {
            assert(body =~= "crate"@ + seq!['='] + l.path);
            lemma_split_once_after("crate"@, l.path, '=');
        },
        LibrarySearchPathKind::Native => {
            assert(body =~= "native"@ + seq!['='] + l.path);
            lemma_split_once_after("native"@, l.path, '=');
        },
        LibrarySearchPathKind::Framework => {
            assert(body =~= "framework"@ + seq!['='] + l.path);
            lemma_split_once_after("framework"@, l.path, '=');
        },
    }
    assert(w[2] == body[0]);
    lemma_attached_arg(w);
    assert(w.skip(2) =~= body);
}

/// The text after `-l` of a library that fits reads back to it.
pub(crate) proof fn lemma_link_body(l: LinkLibView)
    requires
        link_fits(l),
        link_attachable(l),
    ensures
        (link_head(l) + l.name + rename_text(l.rename)).len() > 0,
        (link_head(l) + l.name + rename_text(l.rename))[0] != '=',
        spec_parse_link(link_head(l) + l.name + rename_text(l.rename)) == l,
{
    lemma_flag_letters();
    let rt = rename_text(l.rename);
    let tail = l.name + rt;
    let body = link_head(l) + l.name + rt;
    // The part after the kind: NAME[:RENAME].
    match l.rename {
        Some(r) => {
            lemma_split_once_after(l.name, r, ':');
            assert(tail =~= l.name + seq![':'] + r);
        },
        None => {
            assert(tail =~= l.name);
            lemma_split_once_none(l.name, ':');
        },
    }
    match l.kind {
        Some(k) => {
            let kt = link_kind_text(k);
            assert(!kt.contains('=') && !kt.contains(':') && kt.len() > 0 && kt[0] != '=');
            assert(spec_link_kind(kt) == Some(k));
            if l.modifiers.len() > 0 {
                let joined = join(l.modifiers, ',');
                lemma_join_lacks(l.modifiers, ',', '=');
                lemma_split_join(l.modifiers, ',');
                let pre = kt + seq![':'] + joined;
                assert(!(kt + seq![':']).contains('=')) by {
                    lemma_concat_lacks(kt, seq![':'], '=');
                }
                lemma_concat_lacks(kt + seq![':'], joined, '=');
                assert(body =~= pre + seq!['='] + tail);
                lemma_split_once_after(pre, tail, '=');
                lemma_split_once_after(kt, joined, ':');
                assert(body[0] == kt[0]);
            } else {
                assert(body =~= kt + seq!['='] + tail);
                lemma_split_once_after(kt, tail, '=');
                lemma_split_once_none(kt, ':');
                assert(body[0] == kt[0]);
                assert(l.modifiers =~= Seq::<Seq<char>>::empty());
            }
        },
        None => {
            assert(body =~= tail);
            match l.rename {
                Some(r) => {
                    assert(!seq![':'].contains('='));
                    lemma_concat_lacks(seq![':'], r, '=');
                    lemma_concat_lacks(l.name, seq![':'] + r, '=');
                    assert(tail =~= l.name + (seq![':'] + r));
                },
                None => {},
            }
            lemma_split_once_none(tail, '=');
            assert(l.modifiers =~= Seq::<Seq<char>>::empty());
            if l.name.len() > 0 {
                assert(body[0] == l.name[0]);
                if l.name[0] == '=' {
                    assert(l.name.contains('='));
                }
            } else {
                assert(body[0] == ':');
            }
        },
    }
}

/// The argument of a linked library that fits is read by itself and adds it.
pub(crate) proof fn lemma_link_arg(l: LinkLibView)
    requires
        link_fits(l),
        link_attachable(l),
    ensures
        stands_alone(link_word(l)),
        spec_parse_arg(link_word(l), None).0 == ArgView::Link(l),
{
    lemma_key_letters();
    lemma_link_body(l);
    let body = link_head(l) + l.name + rename_text(l.rename);
    let w = seq!['-', 'l'] + body;
    assert(link_word(l) =~= w);
    assert(w[2] == body[0]);
    lemma_attached_arg(w);
    assert(w.skip(2) =~= body);
}

/// Reading inputs adds them.
pub(crate) proof fn lemma_read_inputs(inputs: Seq<Seq<char>>, info: InfoView)
    requires
        forall|j: int| 0 <= j < inputs.len() ==> plain(#[trigger] inputs[j]),
    ensures
        all_alone(inputs),
        read_each(inputs, info) == (InfoView { inputs: info.inputs + inputs, ..info }),
{
    lemma_apply_effects();
    let word = |v: Seq<char>| v;
    let get = |i: InfoView| i.inputs;
    let set = |i: InfoView, v: Seq<Seq<char>>| InfoView { inputs: v, ..i };
    assert forall|j: int| 0 <= j < inputs.len() implies stands_alone(#[trigger] word(inputs[j])) by {
        lemma_plain_arg(inputs[j]);
    }
    assert forall|j: int, i: InfoView| 0 <= j < inputs.len() implies #[trigger] spec_apply(
        i,
        spec_parse_arg(word(inputs[j]), None).0,
        word(inputs[j]),
    ) == set(i, get(i).push(inputs[j])) by {
        lemma_plain_arg(inputs[j]);
    }
    assert forall|i: InfoView| #[trigger] set(i, get(i)) == i by {
        assert(set(i, get(i)) == i);
    }
    lemma_read_items(inputs, word, get, set, info);
    assert(inputs.map_values(word) =~= inputs);
}

/// Reading nothing changes nothing.
pub(crate) proof fn lemma_reads_to_empty(info: InfoView)
    ensures
        reads_to(Seq::<Seq<char>>::empty(), info, info),
{
    assert forall|t: Seq<Seq<char>>| #[trigger] spec_parse_rest(Seq::<Seq<char>>::empty() + t, info)
        == spec_parse_rest(t, info) by {
        assert(Seq::<Seq<char>>::empty() + t =~= t);
    }
}

/// A word that stands alone reads to what reading it gives.
pub(crate) proof fn lemma_read_single(x: Seq<char>, info: InfoView)
    requires
        stands_alone(x),
    ensures
        reads_to(seq![x], info, spec_apply(info, spec_parse_arg(x, None).0, x)),
{
    assert(all_alone(seq![x])) by {
        assert forall|j: int| 0 <= j < seq![x].len() implies stands_alone(#[trigger] seq![x][j]) by {
            assert(seq![x][j] == x);
        }
    }
    lemma_alone_reads_to(seq![x], info);
    lemma_read_one(x, info);
}

/// A key and its value as two words read to the key with that value.
pub(crate) proof fn lemma_read_pair(key: Seq<char>, val: Seq<char>, info: InfoView)
    requires
        takes_value(key),
    ensures
        reads_to(seq![key, val], info, spec_apply(info, spec_value_arg(key, val).unwrap(), key)),
{
    lemma_spaced_arg(key, val);
    let pair = seq![key, val];
    assert forall|t: Seq<Seq<char>>| #[trigger] spec_parse_rest(pair + t, info)
        == spec_parse_rest(t, spec_apply(info, spec_value_arg(key, val).unwrap(), key)) by {
        reveal(spec_parse_rest);
        let s = pair + t;
        assert(s[0] == key);
        assert(s[1] == val);
        assert(s.skip(2) =~= t);
    }
}

/// Reading the words of a list, item by item, when the words of each item
/// read to that item added to one list field of the parsed arguments.
pub(crate) proof fn lemma_read_list<A>(
    vals: Seq<A>,
    all: spec_fn(Seq<A>) -> Seq<Seq<char>>,
    item: spec_fn(A) -> Seq<Seq<char>>,
    get: spec_fn(InfoView) -> Seq<A>,
    set: spec_fn(InfoView, Seq<A>) -> InfoView,
    info: InfoView,
)
    requires
        all(Seq::<A>::empty()) == Seq::<Seq<char>>::empty(),
        forall|vs: Seq<A>, x: A| #[trigger] all(vs.push(x)) == all(vs) + item(x),
        forall|i: InfoView| #[trigger] set(i, get(i)) == i,
        forall|i: InfoView, v: Seq<A>| #[trigger] get(set(i, v)) == v,
        forall|i: InfoView, v: Seq<A>, w: Seq<A>| #[trigger] set(set(i, v), w) == set(i, w),
        forall|j: int, i: InfoView|
            0 <= j < vals.len() ==> #[trigger] reads_to(item(vals[j]), i, set(i, get(i).push(vals[j]))),
    ensures
        reads_to(all(vals), info, set(info, get(info) + vals)),
    decreases vals.len(),
{
    if vals.len() == 0 {
        assert(vals =~= Seq::<A>::empty());
        assert(get(info) + vals =~= get(info));
        lemma_reads_to_empty(info);
    } else {
        let init = vals.drop_last();
        let l = vals.last();
        assert(init.push(l) =~= vals);
        assert(all(vals) == all(init) + item(l));
        assert forall|j: int, i: InfoView| 0 <= j < init.len() implies #[trigger] reads_to(
            item(init[j]),
            i,
            set(i, get(i).push(init[j])),
        ) by {
            assert(init[j] == vals[j]);
        }
        lemma_read_list(init, all, item, get, set, info);
        let j0 = set(info, get(info) + init);
        assert(reads_to(item(vals[vals.len() - 1]), j0, set(j0, get(j0).push(vals[vals.len() - 1]))));
        assert((get(info) + init).push(l) =~= get(info) + vals);
        lemma_reads_to_concat(all(init), item(l), info, j0, set(info, get(info) + vals));
    }
}

/// Reading each value after a one-letter key, attached or as a word of its
/// own, adds the values to the list that the key fills.
pub(crate) proof fn lemma_read_attached_items(
    key: Seq<char>,
    letter: char,
    vals: Seq<Seq<char>>,
    mk: spec_fn(Seq<char>) -> ArgView,
    get: spec_fn(InfoView) -> Seq<Seq<char>>,
    set: spec_fn(InfoView, Seq<Seq<char>>) -> InfoView,
    info: InfoView,
)
    requires
        key == seq!['-', letter],
        letter != '-',
        letter != '=',
        takes_value(key),
        forall|v: Seq<char>| #[trigger] spec_value_arg(key, v) == Some(mk(v)),
        forall|a: Seq<char>|
            a.len() >= 2 && a[0] == '-' && a[1] == letter ==> #[trigger] spec_prefix_arg(a) == mk(a.skip(2)),
        forall|i: InfoView, v: Seq<char>, raw: Seq<char>|
            #[trigger] spec_apply(i, mk(v), raw) == set(i, get(i).push(v)),
        forall|i: InfoView| #[trigger] set(i, get(i)) == i,
        forall|i: InfoView, v: Seq<Seq<char>>| #[trigger] get(set(i, v)) == v,
        forall|i: InfoView, v: Seq<Seq<char>>, w: Seq<Seq<char>>| #[trigger] set(set(i, v), w) == set(i, w),
    ensures
        reads_to(attached_words(key, vals), info, set(info, get(info) + vals)),
{
    let all = |vs: Seq<Seq<char>>| attached_words(key, vs);
    let item = |v: Seq<char>| attached_item(key, v);
    lemma_attached_words_push(key);
    assert forall|vs: Seq<Seq<char>>, x: Seq<char>| #[trigger] all(vs.push(x)) == all(vs) + item(x) by {
        assert(attached_words(key, vs.push(x)) == attached_words(key, vs) + attached_item(key, x));
    }
    assert forall|j: int, i: InfoView| 0 <= j < vals.len() implies #[trigger] reads_to(
        item(vals[j]),
        i,
        set(i, get(i).push(vals[j])),
    ) by {
        let v = vals[j];
        if attachable(v) {
            let w = key + v;
            assert(w[0] == '-' && w[1] == letter && w[2] == v[0]);
            assert(w.skip(2) =~= v);
            lemma_attached_arg(w);
            lemma_read_single(w, i);
            assert(item(v) == seq![w]);
        } else {
            lemma_read_pair(key, v, i);
            assert(spec_value_arg(key, v) == Some(mk(v)));
            assert(item(v) == seq![key, v]);
        }
    }
    assert(all(Seq::<Seq<char>>::empty()) == Seq::<Seq<char>>::empty());
    lemma_read_list(vals, all, item, get, set, info);
}

/// Reading the words of each search path adds them.
pub(crate) proof fn lemma_read_libpath_items(ls: Seq<LibrarySearchPathView>, info: InfoView)
    ensures
        reads_to(libpath_words(ls), info, InfoView { libpaths: info.libpaths + ls, ..info }),
{
    lemma_apply_effects();
    lemma_letter_keys();
    lemma_key_letters();
    let all = |xs: Seq<LibrarySearchPathView>| libpath_words(xs);
    let item = |l: LibrarySearchPathView| libpath_item(l);
    let get = |i: InfoView| i.libpaths;
    let set = |i: InfoView, v: Seq<LibrarySearchPathView>| InfoView { libpaths: v, ..i };
    lemma_libpath_words_push();
    assert forall|xs: Seq<LibrarySearchPathView>, x: LibrarySearchPathView|
        #[trigger] all(xs.push(x)) == all(xs) + item(x) by {
        assert(libpath_words(xs.push(x)) == libpath_words(xs) + libpath_item(x));
    }
    assert forall|j: int, i: InfoView| 0 <= j < ls.len() implies #[trigger] reads_to(
        item(ls[j]),
        i,
        set(i, get(i).push(ls[j])),
    ) by {
        let l = ls[j];
        if libpath_attachable(l) {
            lemma_libpath_arg(l);
            lemma_read_single(libpath_word(l), i);
        } else {
            let v = seq!['='] + l.path;
            lemma_read_pair("-L"@, v, i);
            lemma_split_once_after(seq![], l.path, '=');
            assert(seq![] + seq!['='] + l.path =~= v);
            assert(spec_search_kind(Seq::<char>::empty()) == LibrarySearchPathKind::All) by {
                lemma_flag_letters();
            }
            assert(spec_parse_libpath(v) == l);
        }
    }
    assert forall|i: InfoView| #[trigger] set(i, get(i)) == i by {
        assert(set(i, get(i)) == i);
    }
    assert(all(Seq::<LibrarySearchPathView>::empty()) == Seq::<Seq<char>>::empty());
    lemma_read_list(ls, all, item, get, set, info);
}

/// The value after a separate `-l` reads back to a library without a kind.
pub(crate) proof fn lemma_link_value(l: LinkLibView)
    requires
        link_fits(l),
        l.kind is None,
    ensures
        spec_parse_link(link_value(l)) == l,
{
    lemma_flag_letters();
    let rt = rename_text(l.rename);
    let tail = l.name + rt;
    match l.rename {
        Some(r) => {
            lemma_split_once_after(l.name, r, ':');
            assert(tail =~= l.name + seq![':'] + r);
        },
        None => {
            assert(tail =~= l.name);
            lemma_split_once_none(l.name, ':');
        },
    }
    assert(spec_link_kind(Seq::<char>::empty()) is None);
    if l.modifiers.len() > 0 {
        let joined = join(l.modifiers, ',');
        lemma_join_lacks(l.modifiers, ',', '=');
        lemma_split_join(l.modifiers, ',');
        let pre = seq![':'] + joined;
        assert(!seq![':'].contains('='));
        lemma_concat_lacks(seq![':'], joined, '=');
        assert(link_value(l) =~= pre + seq!['='] + tail);
        lemma_split_once_after(pre, tail, '=');
        lemma_split_once_after(seq![], joined, ':');
        assert(seq![] + seq![':'] + joined =~= pre);
    } else {
        assert(link_value(l) =~= seq![] + seq!['='] + tail);
        lemma_split_once_after(seq![], tail, '=');
        lemma_split_once_none(seq![], ':');
        assert(l.modifiers =~= Seq::<Seq<char>>::empty());
    }
}

/// Reading the words of each linked library that fits adds them.
#[verifier::rlimit(30)]
pub(crate) proof fn lemma_read_link_items(ls: Seq<LinkLibView>, info: InfoView)
    requires
        forall|j: int| 0 <= j < ls.len() ==> link_fits(#[trigger] ls[j]),
    ensures
        reads_to(link_words(ls), info, InfoView { links: info.links + ls, ..info }),
{
    lemma_apply_effects();
    lemma_letter_keys();
    lemma_key_letters();
    let all = |xs: Seq<LinkLibView>| link_words(xs);
    let item = |l: LinkLibView| link_item(l);
    let get = |i: InfoView| i.links;
    let set = |i: InfoView, v: Seq<LinkLibView>| InfoView { links: v, ..i };
    lemma_link_words_push();
    assert forall|xs: Seq<LinkLibView>, x: LinkLibView| #[trigger] all(xs.push(x)) == all(xs) + item(x) by {
        assert(link_words(xs.push(x)) == link_words(xs) + link_item(x));
    }
    assert forall|j: int, i: InfoView| 0 <= j < ls.len() implies #[trigger] reads_to(
        item(ls[j]),
        i,
        set(i, get(i).push(ls[j])),
    ) by {
        let l = ls[j];
        if link_attachable(l) {
            lemma_link_arg(l);
            lemma_read_single(link_word(l), i);
        } else {
            lemma_read_pair("-l"@, link_value(l), i);
            lemma_link_value(l);
        }
    }
    assert forall|i: InfoView| #[trigger] set(i, get(i)) == i by {
        assert(set(i, get(i)) == i);
    }
    assert(all(Seq::<LinkLibView>::empty()) == Seq::<Seq<char>>::empty());
    lemma_read_list(ls, all, item, get, set, info);
}

/// Reading the unknown arguments that `to_args` writes last adds them back.
pub(crate) proof fn lemma_read_unknown(unk: Seq<Seq<char>>, info: InfoView)
    requires
        unknown_fits(unk),
    ensures
        spec_parse_rest(unk, info) == (InfoView { unknown: info.unknown + unk, ..info }),
    decreases unk.len(),
{
    lemma_apply_effects();
    if unk.len() == 0 {
        reveal(spec_parse_rest);
        assert(info.unknown + unk =~= info.unknown);
    } else if unk[0] == "--"@ {
        reveal(spec_parse_rest);
    } else if unk.len() == 1 {
        let u = unk[0];
        let a = spec_parse_arg(u, None).0;
        let next = spec_apply(info, a, u);
        match a {
            ArgView::ArgFile(x) => {
                assert(spec_apply(info, ArgView::ArgFile(x), u) == (InfoView {
                    unknown: info.unknown.push(u),
                    ..info
                }));
            },
            _ => {},
        }
        assert(next == (InfoView { unknown: info.unknown.push(u), ..info }));
        assert(spec_parse_rest(unk, info) == next) by {
            reveal(spec_parse_rest);
            assert(unk.skip(1) =~= Seq::<Seq<char>>::empty());
            assert(spec_parse_rest(Seq::<Seq<char>>::empty(), next) == next);
        }
        assert(info.unknown.push(u) =~= info.unknown + unk);
    } else {
        let u = unk[0];
        let rest = unk.drop_first();
        assert(unk =~= seq![u] + rest);
        lemma_read_first(u, rest, info);
        let next = spec_apply(info, spec_parse_arg(u, None).0, u);
        match spec_parse_arg(u, None).0 {
            ArgView::ArgFile(x) => {
                assert(spec_apply(info, ArgView::ArgFile(x), u) == (InfoView {
                    unknown: info.unknown.push(u),
                    ..info
                }));
            },
            _ => {},
        }
        assert(next == (InfoView { unknown: info.unknown.push(u), ..info }));
        lemma_read_unknown(rest, next);
        assert(info.unknown.push(u) + rest =~= info.unknown + unk);
    }
}

} // verus!
