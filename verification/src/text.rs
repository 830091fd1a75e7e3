//! Character-level helpers on command-line words: searching for a
//! separator, splitting at it, joining with it, and comparing words.

use vstd::prelude::*;

verus! {

/// Position of the first `c` in `s`, if `s` holds one.
pub open spec fn first_index(s: Seq<char>, c: char) -> Option<int>
    decreases s.len(),
{
    if s.len() == 0 {
        None
    } else if s[0] == c {
        Some(0)
    } else {
        match first_index(s.drop_first(), c) {
            Some(i) => Some(i + 1),
            None => None,
        }
    }
}

/// The part of `s` before its first `c` and the part after it.
pub open spec fn split_once(s: Seq<char>, c: char) -> Option<(Seq<char>, Seq<char>)> {
    match first_index(s, c) {
        Some(i) => Some((s.take(i), s.skip(i + 1))),
        None => None,
    }
}

/// The pieces of `s` between the occurrences of `c` (at least one piece).
pub open spec fn split_all(s: Seq<char>, c: char) -> Seq<Seq<char>>
    decreases s.len(),
{
    match first_index(s, c) {
        Some(i) => {
            proof {
                lemma_first_index(s, c);
            }
            seq![s.take(i)] + split_all(s.skip(i + 1), c)
        },
        None => seq![s],
    }
}

/// The pieces of `parts` in order, with `c` between neighbours.
pub open spec fn join(parts: Seq<Seq<char>>, c: char) -> Seq<char>
    decreases parts.len(),
{
    if parts.len() == 0 {
        seq![]
    } else if parts.len() == 1 {
        parts[0]
    } else {
        join(parts.drop_last(), c) + seq![c] + parts.last()
    }
}

/// What `first_index` returns, described by the positions it looks at.
pub proof fn lemma_first_index(s: Seq<char>, c: char)
    ensures
        match first_index(s, c) {
            Some(i) => 0 <= i < s.len() && s[i] == c && forall|j: int| 0 <= j < i ==> s[j] != c,
            None => !s.contains(c),
        },
    decreases s.len(),
{
    if s.len() > 0 && s[0] != c {
        lemma_first_index(s.drop_first(), c);
        if first_index(s.drop_first(), c) is Some {
            let i = first_index(s.drop_first(), c).unwrap();
            assert(s[i + 1] == s.drop_first()[i]);
            assert forall|j: int| 0 <= j < i + 1 implies s[j] != c by {
                if j > 0 {
                    assert(s[j] == s.drop_first()[j - 1]);
                }
            }
        } else {
            assert forall|j: int| 0 <= j < s.len() implies s[j] != c by {
                if j > 0 {
                    assert(s[j] == s.drop_first()[j - 1]);
                }
            }
        }
    }
}

/// A position that holds `c`, with no `c` before it, is the first one.
pub proof fn lemma_first_index_at(s: Seq<char>, c: char, k: int)
    requires
        0 <= k < s.len(),
        s[k] == c,
        forall|j: int| 0 <= j < k ==> s[j] != c,
    ensures
        first_index(s, c) == Some(k),
{
    lemma_first_index(s, c);
    match first_index(s, c) {
        Some(i) => {
            if i < k {
                assert(s[i] != c);
            } else if i > k {
                assert(s[k] != c);
            }
        },
        None => {
            assert(s.contains(c)) by {
                assert(s[k] == c);
            }
        },
    }
}

/// With no `c` in `a`, the first `c` of `a + [c] + b` is the one after `a`.
pub proof fn lemma_split_once_after(a: Seq<char>, b: Seq<char>, c: char)
    requires
        !a.contains(c),
    ensures
        split_once(a + seq![c] + b, c) == Some((a, b)),
{
    let s = a + seq![c] + b;
    assert forall|j: int| 0 <= j < a.len() implies s[j] != c by {
        assert(s[j] == a[j]);
        if a[j] == c {
            assert(a.contains(c));
        }
    }
    lemma_first_index_at(s, c, a.len() as int);
    assert(s.take(a.len() as int) =~= a);
    assert(s.skip(a.len() as int + 1) =~= b);
}

/// A word without `c` is not split by it.
pub proof fn lemma_split_once_none(a: Seq<char>, c: char)
    requires
        !a.contains(c),
    ensures
        split_once(a, c) is None,
        split_all(a, c) == seq![a],
{
    lemma_first_index(a, c);
    if first_index(a, c) is Some {
        let i = first_index(a, c).unwrap();
        assert(a[i] == c);
        assert(a.contains(c));
    }
}

/// Joining puts the first piece in front of the others.
pub proof fn lemma_join_front(parts: Seq<Seq<char>>, c: char)
    requires
        parts.len() >= 2,
    ensures
        join(parts, c) == parts[0] + seq![c] + join(parts.drop_first(), c),
    decreases parts.len(),
{
    if parts.len() == 2 {
        assert(parts.drop_last() =~= seq![parts[0]]);
        assert(parts.drop_first() =~= seq![parts[1]]);
        assert(join(parts.drop_last(), c) == parts[0]);
        assert(join(parts.drop_first(), c) == parts[1]);
        assert(join(parts, c) == join(parts.drop_last(), c) + seq![c] + parts.last());
    } else {
        let init = parts.drop_last();
        lemma_join_front(init, c);
        assert(init.drop_first() =~= parts.drop_first().drop_last());
        assert(parts.drop_first().last() == parts.last());
        assert(join(parts.drop_first(), c) == join(parts.drop_first().drop_last(), c) + seq![c]
            + parts.drop_first().last());
        assert(join(parts, c) =~= parts[0] + seq![c] + join(parts.drop_first(), c));
    }
}

/// Splitting a join at its separator gives the pieces back, when no piece
/// holds the separator.
pub proof fn lemma_split_join(parts: Seq<Seq<char>>, c: char)
    requires
        parts.len() >= 1,
        forall|i: int| 0 <= i < parts.len() ==> !(#[trigger] parts[i]).contains(c),
    ensures
        split_all(join(parts, c), c) == parts,
    decreases parts.len(),
{
    if parts.len() == 1 {
        lemma_split_once_none(parts[0], c);
        assert(seq![parts[0]] =~= parts);
    } else {
        let rest = parts.drop_first();
        lemma_join_front(parts, c);
        assert(forall|i: int| 0 <= i < rest.len() ==> rest[i] == parts[i + 1]);
        lemma_split_join(rest, c);
        let s = join(parts, c);
        assert(!parts[0].contains(c));
        lemma_split_once_after(parts[0], join(rest, c), c);
        lemma_first_index(s, c);
        assert(split_all(s, c) == seq![parts[0]] + split_all(join(rest, c), c));
        assert(seq![parts[0]] + rest =~= parts);
    }
}

/// The parts of a word cut at `c`: the first has no `c`, and neither has
/// a `d` that the word lacks.
pub proof fn lemma_split_once_parts(s: Seq<char>, c: char, d: char)
    ensures
        match split_once(s, c) {
            Some((a, b)) => !a.contains(c) && (!s.contains(d) ==> !a.contains(d) && !b.contains(d)),
            None => !s.contains(c),
        },
{
    lemma_first_index(s, c);
    match first_index(s, c) {
        Some(i) => {
            let a = s.take(i);
            let b = s.skip(i + 1);
            if a.contains(c) {
                let k = choose|k: int| 0 <= k < a.len() && a[k] == c;
                assert(s[k] == c);
            }
            if !s.contains(d) {
                if a.contains(d) {
                    let k = choose|k: int| 0 <= k < a.len() && a[k] == d;
                    assert(s[k] == d);
                }
                if b.contains(d) {
                    let k = choose|k: int| 0 <= k < b.len() && b[k] == d;
                    assert(s[k + i + 1] == d);
                }
            }
        },
        None => {},
    }
}

/// No piece of `split_all(s, c)` holds `c`, nor a `d` that `s` lacks.
pub proof fn lemma_split_all_pieces(s: Seq<char>, c: char, d: char)
    ensures
        forall|j: int| 0 <= j < split_all(s, c).len() ==> !(#[trigger] split_all(s, c)[j]).contains(c),
        !s.contains(d) ==> forall|j: int|
            0 <= j < split_all(s, c).len() ==> !(#[trigger] split_all(s, c)[j]).contains(d),
    decreases s.len(),
{
    lemma_split_once_parts(s, c, d);
    lemma_first_index(s, c);
    match first_index(s, c) {
        Some(i) => {
            let tail = s.skip(i + 1);
            lemma_split_all_pieces(tail, c, d);
            let p = split_all(s, c);
            assert(p == seq![s.take(i)] + split_all(tail, c));
            assert forall|j: int| 0 <= j < p.len() implies !(#[trigger] p[j]).contains(c) by {
                if j > 0 {
                    assert(p[j] == split_all(tail, c)[j - 1]);
                }
            }
            if !s.contains(d) {
                assert forall|j: int| 0 <= j < p.len() implies !(#[trigger] p[j]).contains(d) by {
                    if j > 0 {
                        assert(p[j] == split_all(tail, c)[j - 1]);
                    }
                }
            }
        },
        None => {
            assert(split_all(s, c) == seq![s]);
        },
    }
}

/// Two words without `d` make a word without `d`.
pub proof fn lemma_concat_lacks(a: Seq<char>, b: Seq<char>, d: char)
    requires
        !a.contains(d),
        !b.contains(d),
    ensures
        !(a + b).contains(d),
{
    if (a + b).contains(d) {
        let k = choose|k: int| 0 <= k < (a + b).len() && (a + b)[k] == d;
        if k < a.len() {
            assert((a + b)[k] == a[k]);
        } else {
            assert((a + b)[k] == b[k - a.len()]);
        }
    }
}

/// Joining pieces that have no `d` gives a word without `d`, when `d` is
/// not the separator.
pub proof fn lemma_join_lacks(parts: Seq<Seq<char>>, c: char, d: char)
    requires
        d != c,
        forall|i: int| 0 <= i < parts.len() ==> !(#[trigger] parts[i]).contains(d),
    ensures
        !join(parts, c).contains(d),
    decreases parts.len(),
{
    if parts.len() >= 2 {
        let init = parts.drop_last();
        assert(forall|i: int| 0 <= i < init.len() ==> init[i] == parts[i]);
        lemma_join_lacks(init, c, d);
        let j = join(parts, c);
        let a = join(init, c);
        let l = parts.last();
        assert(!l.contains(d));
        if j.contains(d) {
            let k = choose|k: int| 0 <= k < j.len() && j[k] == d;
            if k < a.len() {
                assert(j[k] == a[k]);
            } else if k == a.len() {
                assert(j[k] == c);
            } else {
                assert(j[k] == l[k - a.len() - 1]);
            }
        }
    } else if parts.len() == 1 {
        assert(!parts[0].contains(d));
    }
}

/// Where `c` first occurs in `s`.
pub fn find_char(s: &str, c: char) -> (r: Option<usize>)
    ensures
        match r {
            Some(i) => first_index(s@, c) == Some(i as int),
            None => first_index(s@, c) is None,
        },
{
    let n = s.unicode_len();
    let mut i: usize = 0;
    while i < n
        invariant
            n == s@.len(),
            i <= n,
            forall|j: int| 0 <= j < i ==> s@[j] != c,
        decreases n - i,
    {
        if s.get_char(i) == c {
            proof {
                lemma_first_index_at(s@, c, i as int);
            }
            return Some(i);
        }
        i = i + 1;
    }
    proof {
        lemma_first_index(s@, c);
        if first_index(s@, c) is Some {
            let k = first_index(s@, c).unwrap();
            assert(s@[k] != c);
        }
    }
    None
}

/// `s` cut at its first `c`, without the `c`.
pub fn split_at_char<'a>(s: &'a str, c: char) -> (r: Option<(&'a str, &'a str)>)
    ensures
        match r {
            Some((a, b)) => split_once(s@, c) == Some((a@, b@)),
            None => split_once(s@, c) is None,
        },
{
    match find_char(s, c) {
        Some(i) => {
            proof {
                lemma_first_index(s@, c);
            }
            let n = s.unicode_len();
            let head = s.substring_char(0, i);
            let tail = s.substring_char(i + 1, n);
            assert(head@ =~= s@.take(i as int));
            assert(tail@ =~= s@.skip(i + 1));
            Some((head, tail))
        },
        None => None,
    }
}

/// Whether two words are the same characters.
pub fn same_word(a: &str, b: &str) -> (r: bool)
    ensures
        r == (a@ == b@),
{
    let n = a.unicode_len();
    if n != b.unicode_len() {
        return false;
    }
    let mut i: usize = 0;
    while i < n
        invariant
            n == a@.len(),
            n == b@.len(),
            i <= n,
            forall|j: int| 0 <= j < i ==> a@[j] == b@[j],
        decreases n - i,
    {
        if a.get_char(i) != b.get_char(i) {
            return false;
        }
        i = i + 1;
    }
    assert(a@ =~= b@);
    true
}

/// Whether `s` begins with `c`.
pub fn begins_with(s: &str, c: char) -> (r: bool)
    ensures
        r == (s@.len() > 0 && s@[0] == c),
{
    s.unicode_len() > 0 && s.get_char(0) == c
}

/// `s` without its first `k` characters.
pub fn drop_chars<'a>(s: &'a str, k: usize) -> (r: &'a str)
    requires
        k <= s@.len(),
    ensures
        r@ == s@.skip(k as int),
{
    let n = s.unicode_len();
    let r = s.substring_char(k, n);
    assert(r@ =~= s@.skip(k as int));
    r
}

/// An owned copy of `s`.
pub fn owned(s: &str) -> (r: String)
    ensures
        r@ == s@,
{
    String::from_str(s)
}

/// `a` followed by `b`.
pub fn concat(a: &str, b: &str) -> (r: String)
    ensures
        r@ == a@ + b@,
{
    let mut r = String::from_str(a);
    r.append(b);
    r
}

/// The words of `parts` with a comma between neighbours.
pub fn join_commas(parts: &Vec<String>) -> (r: String)
    ensures
        r@ == join(parts@.map_values(|p: String| p@), ','),
{
    let ghost words = parts@.map_values(|p: String| p@);
    let ghost c = ',';
    let sep = ",";
    proof {
        reveal_strlit(",");
        assert(sep@ =~= seq![c]);
    }
    let mut r = String::new();
    let mut i: usize = 0;
    while i < parts.len()
        invariant
            i <= parts.len(),
            sep@ == seq![c],
            words == parts@.map_values(|p: String| p@),
            r@ == join(words.take(i as int), c),
        decreases parts.len() - i,
    {
        proof {
            assert(words.take(i + 1).drop_last() =~= words.take(i as int));
            assert(words.take(i + 1).last() == parts@[i as int]@);
        }
        let ghost before = r@;
        if i > 0 {
            r.append(sep);
            r.append(parts[i].as_str());
            proof {
                assert(r@ =~= before + seq![c] + parts@[i as int]@);
                assert(join(words.take(i + 1), c) == join(words.take(i + 1).drop_last(), c) + seq![c]
                    + words.take(i + 1).last());
            }
        } else {
            r.append(parts[i].as_str());
            proof {
                assert(before =~= seq![]);
                assert(r@ =~= join(words.take(1), c));
            }
        }
        i = i + 1;
    }
    assert(words.take(parts.len() as int) =~= words);
    r
}

/// The pieces of `s` between the occurrences of `c`, as owned words.
pub fn split_words(s: &str, c: char) -> (r: Vec<String>)
    ensures
        r@.map_values(|w: String| w@) == split_all(s@, c),
{
    let mut pieces: Vec<String> = Vec::new();
    let mut rest = s;
    loop
        invariant_except_break
            pieces@.map_values(|w: String| w@) + split_all(rest@, c) == split_all(s@, c),
        ensures
            pieces@.map_values(|w: String| w@) == split_all(s@, c),
        decreases rest@.len(),
    {
        let ghost before = pieces@;
        match split_at_char(rest, c) {
            Some((head, tail)) => {
                proof {
                    lemma_first_index(rest@, c);
                }
                let w = owned(head);
                pieces.push(w);
                proof {
                    assert(pieces@.map_values(|w: String| w@) =~= before.map_values(|w: String| w@)
                        + seq![head@]);
                    assert(split_all(rest@, c) == seq![head@] + split_all(tail@, c));
                    assert(before.map_values(|w: String| w@) + seq![head@] + split_all(tail@, c)
                        =~= before.map_values(|w: String| w@) + (seq![head@] + split_all(tail@, c)));
                }
                rest = tail;
            },
            None => {
                let w = owned(rest);
                pieces.push(w);
                proof {
                    assert(split_all(rest@, c) == seq![rest@]);
                    assert(pieces@.map_values(|w: String| w@) =~= before.map_values(|w: String| w@)
                        + seq![rest@]);
                }
                break ;
            },
        }
    }
    pieces
}

} // verus!
