//! Splitting a comma-separated list of column names.

use vstd::prelude::*;
use vstd::string::*;

verus! {

/// Unicode `White_Space`, the property that `char::is_whitespace` tests.
pub open spec fn is_white_space(c: char) -> bool {
    let n = c as u32;
    ||| n == 0x20
    ||| 0x09 <= n <= 0x0D
    ||| n == 0x85
    ||| n == 0xA0
    ||| n == 0x1680
    ||| 0x2000 <= n <= 0x200A
    ||| n == 0x2028
    ||| n == 0x2029
    ||| n == 0x202F
    ||| n == 0x205F
    ||| n == 0x3000
}

/// Drops the leading white space of `s`.
pub open spec fn trim_start(s: Seq<char>) -> Seq<char>
    decreases s.len(),
{
    if s.len() > 0 && is_white_space(s[0]) {
        trim_start(s.drop_first())
    } else {
        s
    }
}

/// Drops the trailing white space of `s`.
pub open spec fn trim_end(s: Seq<char>) -> Seq<char>
    decreases s.len(),
{
    if s.len() > 0 && is_white_space(s.last()) {
        trim_end(s.drop_last())
    } else {
        s
    }
}

/// `s` without white space at either end (what `str::trim` gives).
pub open spec fn trim(s: Seq<char>) -> Seq<char> {
    trim_end(trim_start(s))
}

/// The pieces of `s` between commas, in order (what `str::split(',')` gives):
/// one piece more than there are commas, empty pieces included.
pub open spec fn split_commas(s: Seq<char>) -> Seq<Seq<char>>
    decreases s.len(),
{
    if s.len() == 0 {
        seq![Seq::<char>::empty()]
    } else {
        let pieces = split_commas(s.drop_last());
        if s.last() == ',' {
            pieces.push(Seq::<char>::empty())
        } else {
            pieces.update(pieces.len() - 1, pieces.last().push(s.last()))
        }
    }
}

/// The column names in a comma-separated list: each piece trimmed, empty
/// names dropped, order kept.
pub open spec fn spec_parse_cols(s: Seq<char>) -> Seq<Seq<char>> {
    split_commas(s).map_values(|p: Seq<char>| trim(p)).filter(|p: Seq<char>| p.len() > 0)
}

proof fn lemma_split_commas_nonempty(s: Seq<char>)
    ensures
        split_commas(s).len() >= 1,
    decreases s.len(),
{
    if s.len() > 0 {
        lemma_split_commas_nonempty(s.drop_last());
    }
}

proof fn lemma_trim_start_skip(t: Seq<char>, k: int)
    requires
        0 <= k <= t.len(),
        forall|j: int| 0 <= j < k ==> is_white_space(#[trigger] t[j]),
        k == t.len() || !is_white_space(t[k]),
    ensures
        trim_start(t) == t.skip(k),
    decreases k,
{
    if k == 0 {
        assert(t.skip(0) =~= t);
    } else {
        assert(is_white_space(t[0]));
        let u = t.drop_first();
        assert forall|j: int| 0 <= j < k - 1 implies is_white_space(#[trigger] u[j]) by {
            assert(u[j] == t[j + 1]);
        }
        lemma_trim_start_skip(u, k - 1);
        assert(u.skip(k - 1) =~= t.skip(k));
    }
}

proof fn lemma_trim_end_take(t: Seq<char>, k: int)
    requires
        0 <= k <= t.len(),
        forall|j: int| k <= j < t.len() ==> is_white_space(#[trigger] t[j]),
        k == 0 || !is_white_space(t[k - 1]),
    ensures
        trim_end(t) == t.take(k),
    decreases t.len() - k,
{
    if k == t.len() {
        assert(t.take(k) =~= t);
    } else {
        assert(is_white_space(t[t.len() - 1]));
        let u = t.drop_last();
        lemma_trim_end_take(u, k);
        assert(u.take(k) =~= t.take(k));
    }
}

/// Tests `char::is_whitespace`.
fn is_white_space_char(c: char) -> (b: bool)
    ensures
        b == is_white_space(c),
{
    let n = c as u32;
    n == 0x20 || (0x09 <= n && n <= 0x0D) || n == 0x85 || n == 0xA0 || n == 0x1680 || (0x2000 <= n
        && n <= 0x200A) || n == 0x2028 || n == 0x2029 || n == 0x202F || n == 0x205F || n == 0x3000
}

/// Pushes the trimmed text of `chars[start..end]` onto `out` unless it is empty.
fn push_trimmed(input: &str, chars: &Vec<char>, start: usize, end: usize, out: &mut Vec<String>)
    requires
        chars@ == input@,
        start <= end <= chars.len(),
    ensures
        final(out)@.map_values(|x: String| x@) == old(out)@.map_values(|x: String| x@) + (if trim(
            input@.subrange(start as int, end as int),
        ).len() > 0 {
            seq![trim(input@.subrange(start as int, end as int))]
        } else {
            Seq::<Seq<char>>::empty()
        }),
{
    let ghost s = input@;
    let mut lo = start;
    while lo < end && is_white_space_char(chars[lo])
        invariant
            start <= lo <= end <= chars.len(),
            chars@ == s,
            forall|j: int| start <= j < lo ==> is_white_space(#[trigger] s[j]),
        decreases end - lo,
    {
        lo = lo + 1;
    }
    let mut hi = end;
    while hi > lo && is_white_space_char(chars[hi - 1])
        invariant
            start <= lo <= hi <= end <= chars.len(),
            chars@ == s,
            forall|j: int| hi <= j < end ==> is_white_space(#[trigger] s[j]),
            lo == end || !is_white_space(s[lo as int]),
        decreases hi - lo,
    {
        hi = hi - 1;
    }
    proof {
        let t = s.subrange(start as int, end as int);
        assert forall|j: int| 0 <= j < lo - start implies is_white_space(#[trigger] t[j]) by {
            assert(t[j] == s[start + j]);
        }
        lemma_trim_start_skip(t, lo - start);
        let u = s.subrange(lo as int, end as int);
        assert(t.skip(lo - start) =~= u);
        assert forall|j: int| hi - lo <= j < u.len() implies is_white_space(#[trigger] u[j]) by {
            assert(u[j] == s[lo + j]);
        }
        if hi > lo {
            assert(u[hi - lo - 1] == s[hi - 1]);
        }
        lemma_trim_end_take(u, hi - lo);
        assert(u.take(hi - lo) =~= s.subrange(lo as int, hi as int));
    }
    let ghost before = out@.map_values(|x: String| x@);
    if lo < hi {
        let piece = String::from_str(input.substring_char(lo, hi));
        out.push(piece);
        assert(out@.map_values(|x: String| x@) =~= before + seq![s.subrange(lo as int, hi as int)]);
    } else {
        assert(before + Seq::<Seq<char>>::empty() =~= before);
    }
}

/// Parse comma-separated column names
pub fn parse_cols(input: &str) -> (cols: Vec<String>)
    ensures
        cols@.map_values(|x: String| x@) == spec_parse_cols(input@),
{
    broadcast use vstd::string::group_string_axioms;

    let mut chars: Vec<char> = Vec::new();
    for c in it: input.chars()
        invariant
            chars@ == it.seq().take(it.index()),
    {
        chars.push(c);
    }
    assert(chars@ =~= input@);
    let ghost s = input@;
    let n = chars.len();
    let mut out: Vec<String> = Vec::new();
    let mut piece_start: usize = 0;
    let mut i: usize = 0;
    let ghost mut done: Seq<Seq<char>> = Seq::empty();
    proof {
        assert(s.take(0) =~= Seq::<char>::empty());
        assert(split_commas(s.take(0)) =~= done.push(s.subrange(0, 0)));
    }
    while i < n
        invariant
            n == chars.len(),
            chars@ == s,
            s == input@,
            piece_start <= i <= n,
            split_commas(s.take(i as int)) == done.push(s.subrange(piece_start as int, i as int)),
            out@.map_values(|x: String| x@) == done.map_values(|p: Seq<char>| trim(p)).filter(
                |p: Seq<char>| p.len() > 0,
            ),
        decreases n - i,
    {
        proof {
            assert(s.take(i + 1).drop_last() =~= s.take(i as int));
            assert(s.take(i + 1).last() == s[i as int]);
        }
        if chars[i] == ',' {
            let ghost piece = s.subrange(piece_start as int, i as int);
            push_trimmed(input, &chars, piece_start, i, &mut out);
            proof {
                let f = |p: Seq<char>| trim(p);
                let g = |p: Seq<char>| p.len() > 0;
                assert(done.push(piece).map_values(f) =~= done.map_values(f).push(trim(piece)));
                done.map_values(f).lemma_filter_push(trim(piece), g);
                if trim(piece).len() > 0 {
                    assert(done.map_values(f).filter(g) + seq![trim(piece)] =~= done.map_values(
                        f,
                    ).filter(g).push(trim(piece)));
                } else {
                    assert(done.map_values(f).filter(g) + Seq::<Seq<char>>::empty()
                        =~= done.map_values(f).filter(g));
                }
                done = done.push(piece);
                assert(s.subrange(i + 1, i + 1) =~= Seq::<char>::empty());
            }
            piece_start = i + 1;
        } else {
            proof {
                let pieces = split_commas(s.take(i as int));
                assert(s.subrange(piece_start as int, i + 1) =~= s.subrange(
                    piece_start as int,
                    i as int,
                ).push(s[i as int]));
                assert(pieces.update(pieces.len() - 1, pieces.last().push(s[i as int]))
                    =~= done.push(s.subrange(piece_start as int, i + 1)));
            }
        }
        i = i + 1;
    }
    let ghost last_piece = s.subrange(piece_start as int, n as int);
    push_trimmed(input, &chars, piece_start, n, &mut out);
    proof {
        let f = |p: Seq<char>| trim(p);
        let g = |p: Seq<char>| p.len() > 0;
        assert(s.take(n as int) =~= s);
        assert(done.push(last_piece).map_values(f) =~= done.map_values(f).push(trim(last_piece)));
        done.map_values(f).lemma_filter_push(trim(last_piece), g);
        if trim(last_piece).len() > 0 {
            assert(done.map_values(f).filter(g) + seq![trim(last_piece)] =~= done.map_values(
                f,
            ).filter(g).push(trim(last_piece)));
        } else {
            assert(done.map_values(f).filter(g) + Seq::<Seq<char>>::empty() =~= done.map_values(
                f,
            ).filter(g));
        }
    }
    out
}

/// Names joined by commas, in order.
pub open spec fn join_commas(names: Seq<Seq<char>>) -> Seq<char>
    decreases names.len(),
{
    if names.len() == 0 {
        Seq::empty()
    } else if names.len() == 1 {
        names[0]
    } else {
        join_commas(names.drop_last()) + seq![','] + names.last()
    }
}

/// A column name that a comma-separated list can carry unchanged: not
/// empty, without commas, without white space at either end.
pub open spec fn is_clean_name(n: Seq<char>) -> bool {
    &&& n.len() > 0
    &&& !n.contains(',')
    &&& !is_white_space(n[0])
    &&& !is_white_space(n.last())
}

proof fn lemma_split_commas_append_plain(a: Seq<char>, b: Seq<char>)
    requires
        !b.contains(','),
    ensures
        split_commas(a).len() >= 1,
        split_commas(a + b) == split_commas(a).update(
            split_commas(a).len() - 1,
            split_commas(a).last() + b,
        ),
    decreases b.len(),
{
    lemma_split_commas_nonempty(a);
    let p = split_commas(a);
    if b.len() == 0 {
        assert(a + b =~= a);
        assert(p.last() + b =~= p.last());
        assert(p.update(p.len() - 1, p.last()) =~= p);
    } else {
        let c = b.drop_last();
        assert(!c.contains(',')) by {
            if c.contains(',') {
                let j = choose|j: int| 0 <= j < c.len() && c[j] == ',';
                assert(b[j] == ',');
            }
        }
        lemma_split_commas_append_plain(a, c);
        assert((a + b).drop_last() =~= a + c);
        assert((a + b).last() == b.last());
        assert(b.last() != ',') by {
            assert(b[b.len() - 1] == b.last());
        }
        let q = split_commas(a + c);
        assert(q.last() == p.last() + c);
        assert((p.last() + c).push(b.last()) =~= p.last() + b);
        assert(q.update(q.len() - 1, q.last().push(b.last())) =~= p.update(
            p.len() - 1,
            p.last() + b,
        ));
    }
}

proof fn lemma_split_join(names: Seq<Seq<char>>)
    requires
        names.len() >= 1,
        forall|k: int| 0 <= k < names.len() ==> !(#[trigger] names[k]).contains(','),
    ensures
        split_commas(join_commas(names)) == names,
    decreases names.len(),
{
    let e = Seq::<char>::empty();
    if names.len() == 1 {
        lemma_split_commas_append_plain(e, names[0]);
        assert(e + names[0] =~= names[0]);
        assert(split_commas(e) =~= seq![e]);
        assert(seq![e].update(0, e + names[0]) =~= names);
    } else {
        let d = names.drop_last();
        assert forall|k: int| 0 <= k < d.len() implies !(#[trigger] d[k]).contains(',') by {
            assert(d[k] == names[k]);
        }
        lemma_split_join(d);
        let j = join_commas(d) + seq![','];
        assert(j.drop_last() =~= join_commas(d));
        assert(split_commas(j) == d.push(e));
        assert(!names.last().contains(',')) by {
            assert(names[names.len() - 1] == names.last());
        }
        lemma_split_commas_append_plain(j, names.last());
        assert(e + names.last() =~= names.last());
        assert(d.push(e).update(d.len() as int, e + names.last()) =~= names);
    }
}

proof fn lemma_filter_keeps_all(s: Seq<Seq<char>>)
    requires
        forall|k: int| 0 <= k < s.len() ==> (#[trigger] s[k]).len() > 0,
    ensures
        s.filter(|p: Seq<char>| p.len() > 0) == s,
    decreases s.len(),
{
    let g = |p: Seq<char>| p.len() > 0;
    if s.len() == 0 {
        reveal(Seq::filter);
    } else {
        let d = s.drop_last();
        assert forall|k: int| 0 <= k < d.len() implies (#[trigger] d[k]).len() > 0 by {
            assert(d[k] == s[k]);
        }
        lemma_filter_keeps_all(d);
        assert(s[s.len() - 1] == s.last());
        d.lemma_filter_push(s.last(), g);
        assert(d.push(s.last()) =~= s);
    }
}

/// Law: parsing names joined by commas gives back the names, when each
/// name is clean (not empty, without commas, not padded with white space).
pub proof fn lemma_parse_cols_of_join(names: Seq<Seq<char>>)
    requires
        forall|k: int| 0 <= k < names.len() ==> is_clean_name(#[trigger] names[k]),
    ensures
        spec_parse_cols(join_commas(names)) == names,
{
    let f = |p: Seq<char>| trim(p);
    if names.len() == 0 {
        let e = Seq::<char>::empty();
        assert(split_commas(e) =~= seq![e]);
        assert(trim_start(e) == e);
        assert(trim_end(e) == e);
        assert(seq![e].map_values(f) =~= seq![e]);
        reveal_with_fuel(Seq::filter, 2);
        assert(seq![e].drop_last() =~= Seq::<Seq<char>>::empty());
        assert(seq![e].filter(|p: Seq<char>| p.len() > 0) =~= names);
    } else {
        assert forall|k: int| 0 <= k < names.len() implies !(#[trigger] names[k]).contains(',') by {
            assert(is_clean_name(names[k]));
        }
        lemma_split_join(names);
        assert forall|k: int| 0 <= k < names.len() implies trim(#[trigger] names[k]) == names[k] by {
            let n = names[k];
            assert(is_clean_name(n));
            assert(trim_start(n) == n);
            assert(n[n.len() - 1] == n.last());
            assert(trim_end(n) == n);
        }
        assert(names.map_values(f) =~= names);
        assert forall|k: int| 0 <= k < names.len() implies (#[trigger] names[k]).len() > 0 by {
            assert(is_clean_name(names[k]));
        }
        lemma_filter_keeps_all(names);
    }
}

/// Law: every parsed name is clean: not empty, without commas, not padded
/// with white space.
pub proof fn lemma_parse_cols_clean(s: Seq<char>)
    ensures
        forall|k: int|
            0 <= k < spec_parse_cols(s).len() ==> {
                let n = #[trigger] spec_parse_cols(s)[k];
                &&& n.len() > 0
                &&& !n.contains(',')
                &&& !is_white_space(n[0])
                &&& !is_white_space(n.last())
            },
{
    let f = |p: Seq<char>| trim(p);
    let g = |p: Seq<char>| p.len() > 0;
    let pieces = split_commas(s);
    lemma_split_commas_no_comma(s);
    let m = pieces.map_values(f);
    assert forall|k: int| 0 <= k < spec_parse_cols(s).len() implies {
        let n = #[trigger] spec_parse_cols(s)[k];
        &&& n.len() > 0
        &&& !n.contains(',')
        &&& !is_white_space(n[0])
        &&& !is_white_space(n.last())
    } by {
        let n = m.filter(g)[k];
        assert(m.filter(g).contains(n));
        m.lemma_filter_contains_rev(g, n);
        let j = choose|j: int| 0 <= j < m.len() && m[j] == n;
        lemma_trim_props(pieces[j]);
        m.lemma_filter_pred(g, k);
    }
}

proof fn lemma_split_commas_no_comma(s: Seq<char>)
    ensures
        forall|k: int|
            0 <= k < split_commas(s).len() ==> !(#[trigger] split_commas(s)[k]).contains(','),
    decreases s.len(),
{
    if s.len() > 0 {
        lemma_split_commas_no_comma(s.drop_last());
        lemma_split_commas_nonempty(s.drop_last());
        let p = split_commas(s.drop_last());
        if s.last() != ',' {
            let q = p.last().push(s.last());
            assert(!q.contains(',')) by {
                assert(!p[p.len() - 1].contains(','));
                if q.contains(',') {
                    let j = choose|j: int| 0 <= j < q.len() && q[j] == ',';
                    if j < p.last().len() {
                        assert(p.last()[j] == ',');
                    }
                }
            }
        }
    }
}

proof fn lemma_trim_start_props(t: Seq<char>)
    ensures
        trim_start(t).len() > 0 ==> !is_white_space(trim_start(t)[0]),
        exists|a: int| 0 <= a <= t.len() && trim_start(t) == t.skip(a),
    decreases t.len(),
{
    if t.len() > 0 && is_white_space(t[0]) {
        lemma_trim_start_props(t.drop_first());
        let a = choose|a: int| 0 <= a <= t.drop_first().len() && trim_start(t.drop_first()) == t.drop_first().skip(a);
        assert(t.drop_first().skip(a) =~= t.skip(a + 1));
    } else {
        assert(t.skip(0) =~= t);
    }
}

proof fn lemma_trim_end_props(t: Seq<char>)
    ensures
        trim_end(t).len() > 0 ==> !is_white_space(trim_end(t).last()),
        exists|b: int| 0 <= b <= t.len() && trim_end(t) == t.take(b),
    decreases t.len(),
{
    if t.len() > 0 && is_white_space(t.last()) {
        lemma_trim_end_props(t.drop_last());
        let b = choose|b: int| 0 <= b <= t.drop_last().len() && trim_end(t.drop_last()) == t.drop_last().take(b);
        assert(t.drop_last().take(b) =~= t.take(b));
    } else {
        assert(t.take(t.len() as int) =~= t);
    }
}

proof fn lemma_trim_props(t: Seq<char>)
    requires
        !t.contains(','),
    ensures
        !trim(t).contains(','),
        trim(t).len() > 0 ==> !is_white_space(trim(t)[0]) && !is_white_space(trim(t).last()),
{
    lemma_trim_start_props(t);
    let u = trim_start(t);
    let a = choose|a: int| 0 <= a <= t.len() && u == t.skip(a);
    lemma_trim_end_props(u);
    let b = choose|b: int| 0 <= b <= u.len() && trim_end(u) == u.take(b);
    let r = trim(t);
    assert(r =~= t.subrange(a, a + b));
    if r.contains(',') {
        let j = choose|j: int| 0 <= j < r.len() && r[j] == ',';
        assert(t[a + j] == ',');
    }
    if r.len() > 0 {
        assert(r[0] == u[0]);
    }
}


/// Law: the white space trimmed from column names is exactly Unicode's
/// `White_Space` set, the characters `char::is_whitespace` accepts: tab,
/// line feed, vertical tab, form feed, carriage return, space, next line,
/// no-break space, ogham space mark, the spaces from en quad to hair space,
/// line and paragraph separators, narrow no-break space, medium
/// mathematical space and ideographic space.
pub proof fn lemma_white_space_chars(c: char)
    ensures
        is_white_space(c) <==> {
            ||| c == '\t' || c == '\n' || c == '\u{0B}' || c == '\u{0C}' || c == '\r'
            ||| c == ' ' || c == '\u{85}' || c == '\u{A0}' || c == '\u{1680}'
            ||| c == '\u{2000}' || c == '\u{2001}' || c == '\u{2002}' || c == '\u{2003}'
            ||| c == '\u{2004}' || c == '\u{2005}' || c == '\u{2006}' || c == '\u{2007}'
            ||| c == '\u{2008}' || c == '\u{2009}' || c == '\u{200A}'
            ||| c == '\u{2028}' || c == '\u{2029}' || c == '\u{202F}' || c == '\u{205F}'
            ||| c == '\u{3000}'
        },
{
}

} // verus!
