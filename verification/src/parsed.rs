//! What the parser leaves behind: the shape of every parsed line, which is
//! what `to_args` needs to write it back.

use vstd::prelude::*;

use crate::info::{EmitView, InfoView, LinkLibView};
use crate::letters::{lemma_key_shape, lemma_takes_value};
use crate::parser::{
    lemma_apply_effects, spec_apply, spec_emit_part, spec_parse_arg, spec_parse_emit,
    spec_parse_extern, spec_parse_link, spec_parse_remap, spec_parse_rest, spec_value_arg,
    takes_value, ArgView,
};
use crate::properties::{
    emit_fits, ends_unknown, extern_fits, link_fits, plain, reconstructible, remap_fits,
    stays_unknown, unknown_fits,
};
use crate::text::{lemma_split_all_pieces, lemma_split_once_parts, split_all, split_once};

verus! {

/// A library read from any `-l` value fits.
pub proof fn lemma_parsed_link_fits(v: Seq<char>)
    ensures
        link_fits(spec_parse_link(v)),
{
    lemma_split_once_parts(v, '=', '=');
    let (prefix, rest) = match split_once(v, '=') {
        Some((p, r)) => (Some(p), r),
        None => (None, v),
    };
    lemma_split_once_parts(rest, ':', ':');
    match prefix {
        Some(p) => {
            lemma_split_once_parts(p, ':', '=');
            match split_once(p, ':') {
                Some((k, m)) => {
                    lemma_split_all_pieces(m, ',', '=');
                },
                None => {},
            }
        },
        None => {},
    }
    let l = spec_parse_link(v);
    assert forall|j: int| 0 <= j < l.modifiers.len() implies !(#[trigger] l.modifiers[j]).contains(',')
        && !l.modifiers[j].contains('=') by {}
}

/// Every emission read from any `--emit` value fits.
pub proof fn lemma_parsed_emits_fit(v: Seq<char>)
    ensures
        forall|j: int| 0 <= j < spec_parse_emit(v).len() ==> emit_fits(#[trigger] spec_parse_emit(v)[j]),
{
    let parts = split_all(v, ',');
    lemma_split_all_pieces(v, ',', ',');
    assert forall|j: int| 0 <= j < spec_parse_emit(v).len() implies emit_fits(
        #[trigger] spec_parse_emit(v)[j],
    ) by {
        let p = parts[j];
        assert(spec_parse_emit(v)[j] == spec_emit_part(p));
        assert(!p.contains(','));
        lemma_split_once_parts(p, '=', ',');
    }
}

/// An extern read from any `--extern` value fits.
pub proof fn lemma_parsed_extern_fits(v: Seq<char>)
    ensures
        extern_fits(spec_parse_extern(v)),
{
    lemma_split_once_parts(v, '=', '=');
}

/// A remapping read from any `--remap-path-prefix` value fits.
pub proof fn lemma_parsed_remap_fits(v: Seq<char>)
    ensures
        spec_parse_remap(v) matches Some(r) ==> remap_fits(r),
{
    lemma_split_once_parts(v, '=', '=');
}

/// What reading one argument can give, as far as writing it back goes.
pub proof fn lemma_parse_arg_shape(x: Seq<char>, next: Option<Seq<char>>)
    ensures
        spec_parse_arg(x, next).0 matches ArgView::Link(l) ==> link_fits(l),
        spec_parse_arg(x, next).0 matches ArgView::Input(v) ==> v == x && plain(x),
        spec_parse_arg(x, next).0 matches ArgView::Unknown(v) ==> v == x,
        (spec_parse_arg(x, next).0 is Unknown || spec_parse_arg(x, next).0 is ArgFile) && x != "--"@ && (
        next is Some || !takes_value(x)) ==> stays_unknown(x),
        takes_value(x) && next is None ==> spec_parse_arg(x, next) == (ArgView::Unknown(x), 1int),
{
    reveal(spec_parse_arg);
    reveal(spec_value_arg);
    if takes_value(x) {
        lemma_key_shape(x);
        crate::text::lemma_split_once_none(x, '=');
    }
    match split_once(x, '=') {
        Some((k, v)) => {
            lemma_parsed_link_fits(v);
        },
        None => {},
    }
    lemma_parsed_link_fits(x.skip(2));
    match next {
        Some(n) => {
            lemma_parsed_link_fits(n);
        },
        None => {},
    }
    let a = spec_parse_arg(x, next).0;
    if (a is Unknown || a is ArgFile) && x != "--"@ && (next is Some || !takes_value(x)) {
        if takes_value(x) {
            lemma_takes_value(x, next.unwrap());
        }
        assert(!takes_value(x));
        assert forall|n: Seq<char>| #[trigger] spec_parse_arg(x, Some(n)) == spec_parse_arg(x, None) by {}
    }
}

/// An argument that is not a key is read the same whatever follows it.
pub proof fn lemma_next_unused(x: Seq<char>)
    requires
        !takes_value(x),
    ensures
        forall|n: Seq<char>| #[trigger] spec_parse_arg(x, Some(n)) == spec_parse_arg(x, None),
{
    reveal(spec_parse_arg);
}

/// Parsed arguments on the way: every part as the parser leaves it, and
/// every unknown argument so far one that stays unknown when read again.
pub open spec fn parsing_fits(i: InfoView) -> bool {
    &&& i.rustc is Some
    &&& forall|j: int| 0 <= j < i.emits.len() ==> emit_fits(#[trigger] i.emits[j])
    &&& forall|j: int| 0 <= j < i.externs.len() ==> extern_fits(#[trigger] i.externs[j])
    &&& forall|j: int|
        0 <= j < i.remap_path_prefixes.len() ==> remap_fits(#[trigger] i.remap_path_prefixes[j])
    &&& forall|j: int| 0 <= j < i.links.len() ==> link_fits(#[trigger] i.links[j])
    &&& forall|j: int| 0 <= j < i.inputs.len() ==> plain(#[trigger] i.inputs[j])
    &&& forall|j: int| 0 <= j < i.unknown.len() ==> stays_unknown(#[trigger] i.unknown[j])
}

/// Unknown arguments that each stay unknown, followed by unknown arguments
/// that read back, read back.
pub proof fn lemma_unknown_fits_after(u: Seq<Seq<char>>, t: Seq<Seq<char>>)
    requires
        forall|j: int| 0 <= j < u.len() ==> stays_unknown(#[trigger] u[j]),
        unknown_fits(t),
    ensures
        unknown_fits(u + t),
    decreases u.len(),
{
    if u.len() == 0 {
        assert(u + t =~= t);
    } else {
        let s = u + t;
        assert(s[0] == u[0]);
        assert(stays_unknown(u[0]));
        let rest = u.drop_first();
        assert forall|j: int| 0 <= j < rest.len() implies stays_unknown(#[trigger] rest[j]) by {
            assert(rest[j] == u[j + 1]);
        }
        lemma_unknown_fits_after(rest, t);
        assert(s.drop_first() =~= rest + t);
    }
}

/// Reading one argument that is not a key left without its value keeps the
/// parsed arguments in shape.
#[verifier::rlimit(30)]
pub proof fn lemma_apply_fits(info: InfoView, x: Seq<char>, next: Option<Seq<char>>)
    requires
        parsing_fits(info),
        x != "--"@,
        next is Some || !takes_value(x),
    ensures
        parsing_fits(spec_apply(info, spec_parse_arg(x, next).0, x)),
        spec_apply(info, spec_parse_arg(x, next).0, x).rustc == info.rustc,
{
    reveal(spec_apply);
    lemma_parse_arg_shape(x, next);
    let a = spec_parse_arg(x, next).0;
    let r = spec_apply(info, a, x);
    match a {
        ArgView::Emit(v) => {
            lemma_parsed_emits_fit(v);
            assert forall|j: int| 0 <= j < r.emits.len() implies emit_fits(#[trigger] r.emits[j]) by {
                if j >= info.emits.len() {
                    assert(r.emits[j] == spec_parse_emit(v)[j - info.emits.len()]);
                }
            }
        },
        ArgView::Extern(v) => {
            lemma_parsed_extern_fits(v);
            assert forall|j: int| 0 <= j < r.externs.len() implies extern_fits(#[trigger] r.externs[j]) by {
                if j < info.externs.len() {
                    assert(r.externs[j] == info.externs[j]);
                }
            }
        },
        ArgView::RemapPathPrefix(v) => {
            lemma_parsed_remap_fits(v);
            assert forall|j: int| 0 <= j < r.remap_path_prefixes.len() implies remap_fits(
                #[trigger] r.remap_path_prefixes[j],
            ) by {
                if j < info.remap_path_prefixes.len() {
                    assert(r.remap_path_prefixes[j] == info.remap_path_prefixes[j]);
                }
            }
        },
        ArgView::Link(l) => {
            assert forall|j: int| 0 <= j < r.links.len() implies link_fits(#[trigger] r.links[j]) by {
                if j < info.links.len() {
                    assert(r.links[j] == info.links[j]);
                }
            }
        },
        ArgView::Input(v) => {
            assert forall|j: int| 0 <= j < r.inputs.len() implies plain(#[trigger] r.inputs[j]) by {
                if j < info.inputs.len() {
                    assert(r.inputs[j] == info.inputs[j]);
                }
            }
        },
        ArgView::Unknown(v) => {
            assert(r == spec_apply(info, ArgView::Unknown(v), x));
            assert(v == x);
            assert(r.unknown == info.unknown.push(x));
            assert forall|j: int| 0 <= j < r.unknown.len() implies stays_unknown(#[trigger] r.unknown[j]) by {
                if j < info.unknown.len() {
                    assert(r.unknown[j] == info.unknown[j]);
                }
            }
        },
        ArgView::ArgFile(v) => {
            assert(r == spec_apply(info, ArgView::ArgFile(v), x));
            assert(r.unknown == info.unknown.push(x));
            assert forall|j: int| 0 <= j < r.unknown.len() implies stays_unknown(#[trigger] r.unknown[j]) by {
                if j < info.unknown.len() {
                    assert(r.unknown[j] == info.unknown[j]);
                }
            }
        },
        _ => {
            assert(r.emits == info.emits && r.externs == info.externs && r.links == info.links
                && r.inputs == info.inputs && r.unknown == info.unknown
                && r.remap_path_prefixes == info.remap_path_prefixes);
        },
    }
}

/// Reading the rest of a line into parsed arguments in shape gives parsed
/// arguments that `to_args` writes back.
pub proof fn lemma_parse_rest_fits(rest: Seq<Seq<char>>, info: InfoView)
    requires
        parsing_fits(info),
    ensures
        reconstructible(spec_parse_rest(rest, info)),
        spec_parse_rest(rest, info).rustc == info.rustc,
    decreases rest.len(),
{
    reveal(spec_parse_rest);
    lemma_apply_effects();
    if rest.len() == 0 {
        lemma_unknown_fits_after(info.unknown, Seq::<Seq<char>>::empty());
        assert(info.unknown + Seq::<Seq<char>>::empty() =~= info.unknown);
    } else if rest[0] == "--"@ {
        lemma_unknown_fits_after(info.unknown, rest);
    } else {
        let x = rest[0];
        let next = if rest.len() > 1 {
            Some(rest[1])
        } else {
            None
        };
        crate::parser::lemma_parse_arg_width(x, next);
        if takes_value(x) && next is None {
            lemma_parse_arg_shape(x, next);
            lemma_key_shape(x);
            let r = spec_apply(info, ArgView::Unknown(x), x);
            assert(rest.skip(1) =~= Seq::<Seq<char>>::empty());
            assert(spec_parse_rest(Seq::<Seq<char>>::empty(), r) == r);
            assert(ends_unknown(x));
            assert(unknown_fits(seq![x])) by {
                reveal_with_fuel(unknown_fits, 2);
            }
            lemma_unknown_fits_after(info.unknown, seq![x]);
            assert(r.unknown == info.unknown + seq![x]);
        } else {
            let (a, w) = spec_parse_arg(x, next);
            lemma_apply_fits(info, x, next);
            lemma_parse_rest_fits(rest.skip(w), spec_apply(info, a, x));
        }
    }
}

} // verus!
