//! Small verified helpers over text.
use vstd::prelude::*;
use vstd::string::StrSliceExecFns;
use vstd::string::StringExecFns;

verus! {

/// The pieces of `s` between occurrences of `sep`; at least one piece.
pub open spec fn split_spec(s: Seq<char>, sep: char) -> Seq<Seq<char>>
    decreases s.len(),
{
    if s.len() == 0 {
        seq![Seq::<char>::empty()]
    } else {
        let rest = split_spec(s.drop_last(), sep);
        if s.last() == sep {
            rest.push(Seq::<char>::empty())
        } else {
            rest.update(rest.len() - 1, rest.last().push(s.last()))
        }
    }
}

/// The pieces joined back with `sep` between neighbours.
pub open spec fn join_spec(ls: Seq<Seq<char>>, sep: char) -> Seq<char>
    decreases ls.len(),
{
    if ls.len() == 0 {
        Seq::<char>::empty()
    } else if ls.len() == 1 {
        ls[0]
    } else {
        join_spec(ls.drop_last(), sep).push(sep) + ls.last()
    }
}

/// The views of a vector of strings.
pub open spec fn views(v: Seq<String>) -> Seq<Seq<char>> {
    v.map_values(|x: String| x@)
}

proof fn lemma_split_nonempty(s: Seq<char>, sep: char)
    ensures
        split_spec(s, sep).len() >= 1,
    decreases s.len(),
{
    if s.len() > 0 {
        lemma_split_nonempty(s.drop_last(), sep);
    }
}

/// A text without the separator is a single piece.
pub proof fn lemma_split_single(s: Seq<char>, sep: char)
    requires
        !s.contains(sep),
    ensures
        split_spec(s, sep) == seq![s],
    decreases s.len(),
{
    if s.len() > 0 {
        assert(!s.drop_last().contains(sep)) by {
            if s.drop_last().contains(sep) {
                let i = choose|i: int| 0 <= i < s.drop_last().len() && s.drop_last()[i] == sep;
                assert(s[i] == sep);
            }
        }
        lemma_split_single(s.drop_last(), sep);
        assert(s[s.len() - 1] != sep);
        assert(s.drop_last().push(s.last()) =~= s);
        assert(split_spec(s, sep) =~= seq![s]);
    } else {
        assert(split_spec(s, sep) =~~= seq![s]);
    }
}

/// Splitting two texts joined by the separator splits each.
pub proof fn lemma_split_concat(a: Seq<char>, b: Seq<char>, sep: char)
    ensures
        split_spec(a + seq![sep] + b, sep) == split_spec(a, sep) + split_spec(b, sep),
    decreases b.len(),
{
    let s = a + seq![sep] + b;
    if b.len() == 0 {
        assert(s.drop_last() =~= a);
        assert(split_spec(s, sep) =~~= split_spec(a, sep) + split_spec(b, sep));
    } else {
        assert(s.drop_last() =~= a + seq![sep] + b.drop_last());
        lemma_split_concat(a, b.drop_last(), sep);
        lemma_split_nonempty(b.drop_last(), sep);
        let sa = split_spec(a, sep);
        let sb = split_spec(b.drop_last(), sep);
        if b.last() == sep {
            assert(split_spec(s, sep) =~= sa + sb.push(Seq::<char>::empty()));
        } else {
            assert((sa + sb).last() == sb.last());
            assert(split_spec(s, sep) =~= sa + sb.update(sb.len() - 1, sb.last().push(b.last())));
        }
    }
}

/// The characters of `s`, in order.
pub fn chars_of(s: &str) -> (r: Vec<char>)
    ensures
        r@ == s@,
{
    let mut r: Vec<char> = Vec::new();
    for c in it: s.chars()
        invariant
            it.seq() == s@,
            r@ == it.seq().take(it.index() as int),
    {
        r.push(c);
    }
    r
}

/// Whether two texts are equal.
pub fn same_text(a: &str, b: &str) -> (r: bool)
    ensures
        r == (a@ == b@),
{
    let x = String::from_str(a);
    let y = String::from_str(b);
    x == y
}

/// Splits `s` at every `sep`, as `str::split` does with a character.
pub fn split_on(s: &str, sep: char) -> (r: Vec<String>)
    ensures
        views(r@) == split_spec(s@, sep),
{
    let cs = chars_of(s);
    let mut r: Vec<String> = Vec::new();
    let mut start: usize = 0;
    let mut i: usize = 0;
    assert(s@.take(0).len() == 0);
    assert(views(r@) =~= Seq::<Seq<char>>::empty());
    assert(split_spec(s@.take(0), sep) =~~= views(r@).push(s@.subrange(0, 0)));
    while i < cs.len()
        invariant
            cs@ == s@,
            start <= i <= cs@.len(),
            split_spec(s@.take(i as int), sep) == views(r@).push(s@.subrange(start as int, i as int)),
        decreases cs.len() - i,
    {
        let ghost pre = s@.take(i as int);
        let ghost next = s@.take(i + 1);
        assert(next.drop_last() == pre);
        assert(next.last() == cs@[i as int]);
        proof { lemma_split_nonempty(pre, sep); }
        if cs[i] == sep {
            let ghost before = r@;
            let piece = String::from_str(s.substring_char(start, i));
            r.push(piece);
            assert(views(r@) =~= views(before).push(s@.subrange(start as int, i as int)));
            start = i + 1;
            assert(split_spec(next, sep) =~~= views(r@).push(s@.subrange(start as int, i + 1)));
        } else {
            let ghost piece = s@.subrange(start as int, i as int);
            let ghost rest = split_spec(pre, sep);
            assert(piece.push(cs@[i as int]) =~= s@.subrange(start as int, i + 1));
            assert(rest.last() == piece);
            assert(split_spec(next, sep) == rest.update(rest.len() - 1, piece.push(cs@[i as int])));
            assert(split_spec(next, sep) =~~= views(r@).push(s@.subrange(start as int, i + 1)));
        }
        i = i + 1;
    }
    assert(s@.take(cs.len() as int) =~= s@);
    let last = String::from_str(s.substring_char(start, i));
    let ghost before = r@;
    r.push(last);
    assert(views(r@) =~= views(before).push(s@.subrange(start as int, i as int)));
    r
}

} // verus!
