//! Gives each level-3 heading of a chunk's body a stable anchor.
use vstd::prelude::*;
use vstd::string::StringExecFns;
use crate::text::{split_on, split_spec, join_spec, views, lemma_split_single, lemma_split_concat};

verus! {

/// A sub-heading found in a chunk's body.
#[derive(Debug)]
pub struct Heading {
    pub level: usize,
    pub slug: String,
    pub title: String,
}

#[verifier::external_type_specification]
#[verifier::external_body]
pub struct ExSlugger(github_slugger::Slugger);

/// The slugs that a slugger has handed out so far.
pub uninterp spec fn slugs_taken(s: github_slugger::Slugger) -> Set<Seq<char>>;

/// The GitHub-style slug of a heading text, before de-duplication.
pub uninterp spec fn heading_slug(title: Seq<char>) -> Seq<char>;

/// The decimal digits of `n`.
pub open spec fn decimal(n: nat) -> Seq<char>
    decreases n,
{
    let digit = seq!['0', '1', '2', '3', '4', '5', '6', '7', '8', '9'][(n % 10) as int];
    if n < 10 {
        seq![digit]
    } else {
        decimal(n / 10).push(digit)
    }
}

/// The `k`-th slug tried for `base`: the base itself, then `base-1`,
/// `base-2`, ...
pub open spec fn candidate(base: Seq<char>, k: nat) -> Seq<char> {
    if k == 0 {
        base
    } else {
        base + "-"@ + decimal(k)
    }
}

/// `k` is the first try whose slug is not yet taken.
pub open spec fn first_free(taken: Set<Seq<char>>, base: Seq<char>, k: nat) -> bool {
    &&& !taken.contains(candidate(base, k))
    &&& forall|j: nat| j < k ==> taken.contains(#[trigger] candidate(base, j))
}

/// The slug handed out for `title` when `taken` are already taken.
pub open spec fn pick_slug(taken: Set<Seq<char>>, title: Seq<char>) -> Seq<char> {
    let base = heading_slug(title);
    candidate(base, choose|k: nat| first_free(taken, base, k))
}

/// Two first free tries are the same try.
pub proof fn lemma_first_free_unique(taken: Set<Seq<char>>, base: Seq<char>, a: nat, b: nat)
    requires
        first_free(taken, base, a),
        first_free(taken, base, b),
    ensures
        a == b,
{
    if a < b {
        assert(taken.contains(candidate(base, a)));
    } else if b < a {
        assert(taken.contains(candidate(base, b)));
    }
}

/// Relies on github_slugger::Slugger::default: a slugger that has handed out
/// nothing yet.
#[verifier::external_body]
pub(crate) fn new_slugger() -> (r: github_slugger::Slugger)
    ensures
        slugs_taken(r) == Set::<Seq<char>>::empty(),
{
    github_slugger::Slugger::default()
}

/// Relies on github_slugger::Slugger::slug: it tries the base slug of the
/// text, then the base with `-1`, `-2`, ... appended, hands out the first
/// that it has not handed out before and remembers it. Its counter is an
/// `i32`, so fewer than `i32::MAX` slugs may have been handed out.
#[verifier::external_body]
pub(crate) fn slug_for(slugger: &mut github_slugger::Slugger, title: &str) -> (r: String)
    requires
        slugs_taken(*old(slugger)).finite(),
        slugs_taken(*old(slugger)).len() < 2147483647,
    ensures
        exists|k: nat| r@ == candidate(heading_slug(title@), k) && first_free(slugs_taken(*old(slugger)), heading_slug(title@), k),
        slugs_taken(*final(slugger)) == slugs_taken(*old(slugger)).insert(r@),
{
    slugger.slug(title)
}

/// The pattern of a level-3 Markdown heading line.
pub const HEADING_PATTERN: &'static str = "(?m)^### (.+)$";

/// A line is a level-3 heading: `### ` followed by at least one character.
pub open spec fn is_heading_line(l: Seq<char>) -> bool {
    l.len() >= 5 && l.take(4) == "### "@
}

/// The text of a heading line.
pub open spec fn heading_text(l: Seq<char>) -> Seq<char> {
    l.subrange(4, l.len() as int)
}

/// Relies on regex::Regex::new and regex::Regex::captures: the pattern
/// `(?m)^### (.+)$` compiles, and on a text without a line break it matches
/// exactly when the text is `### ` followed by at least one character; its
/// group is what follows those four characters.
#[verifier::external_body]
fn heading_capture(pattern: &str, line: &str) -> (r: Option<String>)
    requires
        pattern@ == HEADING_PATTERN@,
        !line@.contains('\n'),
    ensures
        match r {
            Some(t) => is_heading_line(line@) && t@ == heading_text(line@),
            None => !is_heading_line(line@),
        },
{
    regex::Regex::new(pattern).ok().and_then(|re| re.captures(line)).and_then(|c| c.get(1)).map(|m| m.as_str().to_string())
}

/// A heading line with its anchor appended.
pub open spec fn anchored(l: Seq<char>, slug: Seq<char>) -> Seq<char> {
    "### "@ + heading_text(l) + " {#"@ + slug + "}"@
}

/// The rewritten lines and the slugs handed out, line by line, when the
/// slugs in `taken` are already taken.
pub open spec fn process_lines(ls: Seq<Seq<char>>, taken: Set<Seq<char>>) -> (Seq<Seq<char>>, Seq<Seq<char>>)
    decreases ls.len(),
{
    if ls.len() == 0 {
        (Seq::<Seq<char>>::empty(), Seq::<Seq<char>>::empty())
    } else {
        let (out, slugs) = process_lines(ls.drop_last(), taken);
        let l = ls.last();
        if is_heading_line(l) {
            let s = pick_slug(taken + slugs.to_set(), heading_text(l));
            (out.push(anchored(l, s)), slugs.push(s))
        } else {
            (out.push(l), slugs)
        }
    }
}

/// The heading texts among `ls`, in order.
pub open spec fn heading_texts(ls: Seq<Seq<char>>) -> Seq<Seq<char>>
    decreases ls.len(),
{
    if ls.len() == 0 {
        Seq::<Seq<char>>::empty()
    } else if is_heading_line(ls.last()) {
        heading_texts(ls.drop_last()).push(heading_text(ls.last()))
    } else {
        heading_texts(ls.drop_last())
    }
}

/// The lines of a text.
pub open spec fn lines(s: Seq<char>) -> Seq<Seq<char>> {
    split_spec(s, '\n')
}

/// The body after anchoring, and the slugs handed out in it.
pub open spec fn transformed(content: Seq<char>, taken: Set<Seq<char>>) -> Seq<char> {
    join_spec(process_lines(lines(content), taken).0, '\n')
}

pub open spec fn slugs_of(content: Seq<char>, taken: Set<Seq<char>>) -> Seq<Seq<char>> {
    process_lines(lines(content), taken).1
}

/// Pushing onto a sequence adds the element to its set.
pub proof fn lemma_push_to_set(s: Seq<Seq<char>>, x: Seq<char>)
    ensures
        s.push(x).to_set() == s.to_set().insert(x),
{
    assert forall|a: Seq<char>| #[trigger] s.push(x).to_set().contains(a) <==> s.to_set().insert(x).contains(a) by {
        if s.push(x).contains(a) {
            let i = choose|i: int| 0 <= i < s.len() + 1 && s.push(x)[i] == a;
            if i < s.len() {
                assert(s[i] == a);
            }
        }
        if s.contains(a) {
            let i = choose|i: int| 0 <= i < s.len() && s[i] == a;
            assert(s.push(x)[i] == a);
        }
        if a == x {
            assert(s.push(x)[s.len() as int] == x);
        }
    }
    assert(s.push(x).to_set() =~= s.to_set().insert(x));
}

/// No piece of a split holds the separator.
proof fn lemma_split_pieces(s: Seq<char>, sep: char)
    ensures
        forall|i: int| 0 <= i < split_spec(s, sep).len() ==> !(#[trigger] split_spec(s, sep)[i]).contains(sep),
        split_spec(s, sep).len() >= 1,
    decreases s.len(),
{
    if s.len() > 0 {
        lemma_split_pieces(s.drop_last(), sep);
        let rest = split_spec(s.drop_last(), sep);
        if s.last() != sep {
            let l = rest.last().push(s.last());
            assert forall|k: int| 0 <= k < l.len() implies l[k] != sep by {
                if k < l.len() - 1 {
                    assert(rest.last()[k] == l[k]);
                    assert(!rest[rest.len() - 1].contains(sep));
                }
            }
        } else {
            assert(!Seq::<char>::empty().contains(sep));
        }
    } else {
        assert(!Seq::<char>::empty().contains(sep));
    }
}

/// Within one pass, a heading text that occurs on two lines gets its base
/// slug first and the base slug with `-1` appended second.
pub proof fn lemma_repeated_heading(title: Seq<char>)
    requires
        title.len() > 0,
        !title.contains('\n'),
    ensures
        slugs_of("### "@ + title + "\n"@ + "### "@ + title, Set::<Seq<char>>::empty())
            == seq![heading_slug(title), heading_slug(title) + "-1"@],
{
    reveal_strlit("### ");
    reveal_strlit("\n");
    reveal_strlit("-1");
    reveal_strlit("-");
    let line = "### "@ + title;
    let content = "### "@ + title + "\n"@ + "### "@ + title;
    assert(!line.contains('\n')) by {
        if line.contains('\n') {
            let i = choose|i: int| 0 <= i < line.len() && line[i] == '\n';
            if i >= 4 {
                assert(title[i - 4] == '\n');
            }
        }
    }
    assert(content =~= line + seq!['\n'] + line);
    lemma_split_concat(line, line, '\n');
    lemma_split_single(line, '\n');
    let ls = lines(content);
    assert(ls =~= seq![line, line]);
    assert(ls.drop_last() =~= seq![line]);
    assert(seq![line].drop_last() =~= Seq::<Seq<char>>::empty());
    assert(line.take(4) =~= "### "@);
    assert(heading_text(line) =~= title);
    let b = heading_slug(title);
    let empty = Set::<Seq<char>>::empty();
    let s0 = empty + Seq::<Seq<char>>::empty().to_set();
    assert(s0 =~= empty);
    assert(first_free(s0, b, 0));
    let k0 = choose|k: nat| first_free(s0, b, k);
    lemma_first_free_unique(s0, b, 0, k0);
    let s1 = empty + seq![b].to_set();
    assert(s1.contains(b)) by {
        assert(seq![b][0] == b);
    }
    assert(decimal(1) =~= seq!['1']);
    assert(candidate(b, 1) =~= b + "-1"@);
    assert(!s1.contains(candidate(b, 1))) by {
        if s1.contains(candidate(b, 1)) {
            assert(seq![b].contains(candidate(b, 1)));
            assert(candidate(b, 1).len() != b.len());
        }
    }
    assert(first_free(s1, b, 1)) by {
        assert forall|j: nat| j < 1 implies s1.contains(#[trigger] candidate(b, j)) by {
            assert(j == 0);
        }
    }
    let k1 = choose|k: nat| first_free(s1, b, k);
    lemma_first_free_unique(s1, b, 1, k1);
    assert(is_heading_line(line));
    assert(pick_slug(s0, title) == b);
    let after_first = process_lines(seq![line], empty);
    assert(process_lines(Seq::<Seq<char>>::empty(), empty).1 =~= Seq::<Seq<char>>::empty());
    assert(after_first.1 =~= seq![b]);
    assert(pick_slug(empty + after_first.1.to_set(), title) == candidate(b, 1));
    assert(process_lines(ls, empty).1 =~= seq![b].push(candidate(b, 1)));
    assert(slugs_of(content, empty) =~= seq![b, b + "-1"@]);
}

/// Rewrites every level-3 heading line `### text` of `content` to
/// `### text {#slug}`, with a slug from `slugger`, and records the headings
/// in order. Other lines are kept as they are.
pub fn transform_headings(content: &str, slugger: &mut github_slugger::Slugger, headings: &mut Vec<Heading>) -> (r: String)
    requires
        slugs_taken(*old(slugger)).finite(),
        slugs_taken(*old(slugger)).len() + lines(content@).len() < 2147483647,
    ensures
        r@ == transformed(content@, slugs_taken(*old(slugger))),
        slugs_taken(*final(slugger)) == slugs_taken(*old(slugger)) + slugs_of(content@, slugs_taken(*old(slugger))).to_set(),
        slugs_taken(*final(slugger)).finite(),
        slugs_taken(*final(slugger)).len() == slugs_taken(*old(slugger)).len() + slugs_of(content@, slugs_taken(*old(slugger))).len(),
        final(headings)@.len() == old(headings)@.len() + heading_texts(lines(content@)).len(),
        heading_texts(lines(content@)).len() == slugs_of(content@, slugs_taken(*old(slugger))).len(),
        slugs_of(content@, slugs_taken(*old(slugger))).len() <= lines(content@).len(),
        slugs_of(content@, slugs_taken(*old(slugger))).no_duplicates(),
        forall|j: int| 0 <= j < slugs_of(content@, slugs_taken(*old(slugger))).len()
            ==> !slugs_taken(*old(slugger)).contains(#[trigger] slugs_of(content@, slugs_taken(*old(slugger)))[j]),
        forall|j: int| 0 <= j < old(headings)@.len() ==> #[trigger] final(headings)@[j] == old(headings)@[j],
        forall|j: int| 0 <= j < heading_texts(lines(content@)).len() ==> {
            let h = #[trigger] final(headings)@[old(headings)@.len() + j];
            &&& h.level == 3
            &&& h.title@ == heading_texts(lines(content@))[j]
            &&& h.slug@ == slugs_of(content@, slugs_taken(*old(slugger)))[j]
        },
{
    let ghost taken0 = slugs_taken(*slugger);
    let ghost h0 = headings@;
    let ghost ls = lines(content@);
    let pieces = split_on(content, '\n');
    proof { lemma_split_pieces(content@, '\n'); }
    let mut out = String::new();
    let ghost mut out_lines: Seq<Seq<char>> = Seq::empty();
    let ghost mut slugs: Seq<Seq<char>> = Seq::empty();
    let mut i: usize = 0;
    assert(ls.take(0) =~= Seq::<Seq<char>>::empty());
    assert(slugs.to_set() =~= Set::<Seq<char>>::empty());
    assert(taken0 + slugs.to_set() =~= taken0);
    while i < pieces.len()
        invariant
            views(pieces@) == ls,
            ls == lines(content@),
            forall|k: int| 0 <= k < ls.len() ==> !(#[trigger] ls[k]).contains('\n'),
            taken0.finite(),
            taken0.len() + ls.len() < 2147483647,
            i <= ls.len(),
            (out_lines, slugs) == process_lines(ls.take(i as int), taken0),
            out@ == join_spec(out_lines, '\n'),
            out_lines.len() == i,
            slugs.len() <= i,
            slugs.no_duplicates(),
            forall|j: int| 0 <= j < slugs.len() ==> !taken0.contains(#[trigger] slugs[j]),
            slugs_taken(*slugger) == taken0 + slugs.to_set(),
            slugs_taken(*slugger).finite(),
            slugs_taken(*slugger).len() == taken0.len() + slugs.len(),
            heading_texts(ls.take(i as int)).len() == slugs.len(),
            headings@.len() == h0.len() + slugs.len(),
            forall|j: int| 0 <= j < h0.len() ==> #[trigger] headings@[j] == h0[j],
            forall|j: int| 0 <= j < slugs.len() ==> {
                let h = #[trigger] headings@[h0.len() + j];
                &&& h.level == 3
                &&& h.title@ == heading_texts(ls.take(i as int))[j]
                &&& h.slug@ == slugs[j]
            },
        decreases pieces.len() - i,
    {
        let ghost pre = ls.take(i as int);
        assert(ls.take(i + 1).drop_last() =~= pre);
        assert(ls.take(i + 1).last() == ls[i as int]);
        assert(pieces@[i as int]@ == ls[i as int]);
        let line: &str = pieces[i].as_str();
        let piece: String;
        match heading_capture(HEADING_PATTERN, line) {
            Some(title) => {
                let slug = slug_for(slugger, title.as_str());
                let ghost base = heading_slug(title@);
                proof {
                    let k = choose|k: nat| slug@ == candidate(base, k) && first_free(taken0 + slugs.to_set(), base, k);
                    let c = choose|k: nat| first_free(taken0 + slugs.to_set(), base, k);
                    lemma_first_free_unique(taken0 + slugs.to_set(), base, k, c);
                    lemma_push_to_set(slugs, slug@);
                    assert(!slugs.contains(slug@)) by {
                        if slugs.contains(slug@) {
                            assert((taken0 + slugs.to_set()).contains(slug@));
                        }
                    }
                    assert(taken0 + slugs.push(slug@).to_set() =~= (taken0 + slugs.to_set()).insert(slug@));
                }
                let ghost sv = slug@;
                let mut s = String::from_str("### ");
                s.append(title.as_str());
                s.append(" {#");
                s.append(slug.as_str());
                s.append("}");
                headings.push(Heading { level: 3, slug, title });
                piece = s;
                proof {
                    slugs = slugs.push(sv);
                }
            },
            None => {
                piece = String::from_str(line);
            },
        }
        let ghost before_out = out@;
        if i > 0 {
            out.append("\n");
        }
        out.append(piece.as_str());
        proof {
            let next = out_lines.push(piece@);
            assert(next.drop_last() =~= out_lines);
            if i == 0 {
                assert(before_out =~= Seq::<char>::empty());
                assert(out@ =~= piece@);
            } else {
                reveal_strlit("\n");
                assert(out@ =~= before_out.push('\n') + piece@);
            }
            out_lines = next;
        }
        i = i + 1;
    }
    assert(ls.take(ls.len() as int) =~= ls);
    out
}

} // verus!
