//! Cutting a text into pieces: at a separator, into lines, into words.
use crate::text;
use vstd::prelude::*;

verus! {

/// The contents of a list of character vectors.
pub open spec fn pieces(list: Seq<Vec<char>>) -> Seq<Seq<char>> {
    Seq::new(list.len(), |i: int| list[i]@)
}

/// The pieces of `s` between occurrences of `sep`: a separator opens a new
/// piece, every other character goes to the piece that is open.
pub open spec fn split_on(s: Seq<char>, sep: char) -> Seq<Seq<char>>
    decreases s.len(),
{
    if s.len() == 0 {
        seq![Seq::empty()]
    } else {
        let before = split_on(s.drop_last(), sep);
        if s.last() == sep {
            before.push(Seq::empty())
        } else {
            before.drop_last().push(before.last().push(s.last()))
        }
    }
}

pub proof fn lemma_split_not_empty(s: Seq<char>, sep: char)
    ensures
        split_on(s, sep).len() >= 1,
    decreases s.len(),
{
    if s.len() > 0 {
        lemma_split_not_empty(s.drop_last(), sep);
    }
}

/// A character other than the separator stands in one of the pieces.
pub proof fn lemma_piece_holds(s: Seq<char>, sep: char, c: char)
    requires
        s.contains(c),
        c != sep,
    ensures
        exists|i: int|
            0 <= i < split_on(s, sep).len() && (#[trigger] split_on(s, sep)[i]).contains(c),
    decreases s.len(),
{
    let front = s.drop_last();
    let before = split_on(front, sep);
    let parts = split_on(s, sep);
    lemma_split_not_empty(front, sep);
    if s.last() == c {
        let piece = parts[parts.len() - 1];
        assert(piece[piece.len() - 1] == c);
        assert(piece.contains(c));
    } else {
        let m = choose|m: int| 0 <= m < s.len() && s[m] == c;
        assert(front[m] == c);
        lemma_piece_holds(front, sep, c);
        let i = choose|i: int| 0 <= i < before.len() && (#[trigger] before[i]).contains(c);
        let k = choose|k: int| 0 <= k < before[i].len() && before[i][k] == c;
        assert(parts[i][k] == c);
        assert(parts[i].contains(c));
    }
}

/// What stands in front of a separator and what stands behind it are split
/// each on its own.
pub proof fn lemma_split_concat(s: Seq<char>, sep: char, t: Seq<char>)
    ensures
        split_on(s.push(sep) + t, sep) == split_on(s, sep) + split_on(t, sep),
    decreases t.len(),
{
    let all = s.push(sep) + t;
    let front = split_on(s, sep);
    if t.len() == 0 {
        assert(all =~= s.push(sep));
        assert(all.drop_last() =~= s);
        assert(split_on(all, sep) =~= front + split_on(t, sep));
    } else {
        let shorter = t.drop_last();
        let before = split_on(shorter, sep);
        assert(all.drop_last() =~= s.push(sep) + shorter);
        assert(all.last() == t.last());
        lemma_split_concat(s, sep, shorter);
        lemma_split_not_empty(shorter, sep);
        assert((front + before).drop_last() =~= front + before.drop_last());
        assert(split_on(all, sep) =~= front + split_on(t, sep));
    }
}

/// A text without separators is one piece.
pub proof fn lemma_split_single(s: Seq<char>, sep: char)
    requires
        !s.contains(sep),
    ensures
        split_on(s, sep) == seq![s],
    decreases s.len(),
{
    if s.len() > 0 {
        let shorter = s.drop_last();
        assert(s[s.len() - 1] != sep);
        assert(!shorter.contains(sep)) by {
            if shorter.contains(sep) {
                let i = choose|i: int| 0 <= i < shorter.len() && shorter[i] == sep;
                assert(s[i] == sep);
            }
        }
        lemma_split_single(shorter, sep);
        assert(shorter.push(s.last()) =~= s);
    } else {
        assert(s =~= Seq::<char>::empty());
    }
    assert(split_on(s, sep) =~= seq![s]);
}

/// Behind a separator, a text without separators is one piece.
pub proof fn lemma_split_append(s: Seq<char>, sep: char, piece: Seq<char>)
    requires
        !piece.contains(sep),
    ensures
        split_on(s.push(sep) + piece, sep) == split_on(s, sep).push(piece),
{
    lemma_split_concat(s, sep, piece);
    lemma_split_single(piece, sep);
    assert(split_on(s, sep) + seq![piece] =~= split_on(s, sep).push(piece));
}

/// Every piece stands in the text.
pub proof fn lemma_piece_occurs(s: Seq<char>, sep: char, k: int)
    requires
        0 <= k < split_on(s, sep).len(),
    ensures
        text::contains_text(s, split_on(s, sep)[k]),
        k == split_on(s, sep).len() - 1 ==> text::occurs_at(
            s,
            split_on(s, sep)[k],
            s.len() - split_on(s, sep)[k].len(),
        ),
    decreases s.len(),
{
    let parts = split_on(s, sep);
    if s.len() == 0 {
        assert(s.subrange(0, 0) =~= parts[0]);
        assert(text::occurs_at(s, parts[0], 0));
    } else {
        let front = s.drop_last();
        let before = split_on(front, sep);
        lemma_split_not_empty(front, sep);
        if k < parts.len() - 1 {
            assert(parts[k] == before[k]);
            lemma_piece_occurs(front, sep, k);
            let at = choose|at: int| #[trigger] text::occurs_at(front, before[k], at);
            assert(s.subrange(at, at + before[k].len()) =~= front.subrange(
                at,
                at + before[k].len(),
            ));
            assert(text::occurs_at(s, parts[k], at));
        } else if s.last() == sep {
            assert(s.subrange(s.len() as int, s.len() as int) =~= parts[k]);
            assert(text::occurs_at(s, parts[k], s.len() as int));
        } else {
            lemma_piece_occurs(front, sep, before.len() - 1);
            let at = front.len() - before.last().len();
            assert(s.subrange(at, at + parts[k].len()) =~= front.subrange(
                at,
                at + before.last().len(),
            ).push(s.last()));
            assert(text::occurs_at(s, parts[k], at));
        }
    }
}

pub fn split(s: &[char], sep: char) -> (r: Vec<Vec<char>>)
    ensures
        pieces(r@) == split_on(s@, sep),
{
    let mut done: Vec<Vec<char>> = Vec::new();
    let mut open: Vec<char> = Vec::new();
    assert(s@.take(0) =~= Seq::<char>::empty());
    assert(pieces(done@).push(open@) =~= split_on(s@.take(0), sep));
    for i in 0..s.len()
        invariant
            pieces(done@).push(open@) == split_on(s@.take(i as int), sep),
    {
        let c = s[i];
        let ghost before = pieces(done@);
        let ghost held = open@;
        assert(s@.take(i + 1).drop_last() =~= s@.take(i as int));
        assert(s@.take(i + 1).last() == c);
        assert(before.push(held).drop_last() =~= before);
        if c == sep {
            done.push(open);
            open = Vec::new();
            assert(pieces(done@) =~= before.push(held));
            assert(open@ =~= Seq::<char>::empty());
        } else {
            open.push(c);
        }
    }
    assert(s@.take(s@.len() as int) =~= s@);
    let ghost before = pieces(done@);
    let ghost held = open@;
    done.push(open);
    assert(pieces(done@) =~= before.push(held));
    done
}

/// The pieces that are not empty.
pub open spec fn non_empty(parts: Seq<Seq<char>>) -> Seq<Seq<char>>
    decreases parts.len(),
{
    if parts.len() == 0 {
        Seq::empty()
    } else if parts.last().len() == 0 {
        non_empty(parts.drop_last())
    } else {
        non_empty(parts.drop_last()).push(parts.last())
    }
}

pub proof fn lemma_non_empty_is_among(parts: Seq<Seq<char>>, k: int)
    requires
        0 <= k < non_empty(parts).len(),
    ensures
        parts.contains(non_empty(parts)[k]),
    decreases parts.len(),
{
    let front = parts.drop_last();
    if k < non_empty(front).len() {
        lemma_non_empty_is_among(front, k);
        let i = choose|i: int| 0 <= i < front.len() && front[i] == non_empty(front)[k];
        assert(parts[i] == non_empty(parts)[k]);
    } else {
        assert(parts[parts.len() - 1] == non_empty(parts)[k]);
    }
}

/// Where no piece but the first is empty, the others are what is left.
pub proof fn lemma_non_empty_behind_empty(parts: Seq<Seq<char>>)
    requires
        forall|i: int| 0 <= i < parts.len() ==> (#[trigger] parts[i]).len() > 0,
    ensures
        non_empty(seq![Seq::<char>::empty()] + parts) == parts,
    decreases parts.len(),
{
    let all = seq![Seq::<char>::empty()] + parts;
    if parts.len() == 0 {
        assert(all.drop_last() =~= Seq::<Seq<char>>::empty());
        assert(non_empty(all.drop_last()) =~= parts);
        assert(all.last().len() == 0);
    } else {
        let front = parts.drop_last();
        assert(all.drop_last() =~= seq![Seq::<char>::empty()] + front);
        assert forall|i: int| 0 <= i < front.len() implies (#[trigger] front[i]).len() > 0 by {
            assert(front[i] == parts[i]);
        }
        lemma_non_empty_behind_empty(front);
        assert(parts[parts.len() - 1].len() > 0);
        assert(all.last() == parts.last());
        assert(front.push(parts.last()) =~= parts);
    }
}

pub fn drop_empty(parts: Vec<Vec<char>>) -> (r: Vec<Vec<char>>)
    ensures
        pieces(r@) == non_empty(pieces(parts@)),
{
    let mut out: Vec<Vec<char>> = Vec::new();
    let ghost all = pieces(parts@);
    assert(pieces(out@) =~= non_empty(all.take(0)));
    for i in 0..parts.len()
        invariant
            all == pieces(parts@),
            pieces(out@) == non_empty(all.take(i as int)),
    {
        let ghost before = pieces(out@);
        assert(all.take(i + 1).drop_last() =~= all.take(i as int));
        assert(all.take(i + 1).last() == parts@[i as int]@);
        if parts[i].len() != 0 {
            let kept = parts[i].clone();
            assert(kept@ =~= parts@[i as int]@);
            out.push(kept);
            assert(pieces(out@) =~= before.push(all[i as int]));
        }
    }
    assert(all.take(all.len() as int) =~= all);
    out
}

/// The position of the first `sep` in `s`, or the length of `s`.
pub open spec fn first_at(s: Seq<char>, sep: char) -> int
    decreases s.len(),
{
    if s.len() == 0 || s[0] == sep {
        0
    } else {
        1 + first_at(s.drop_first(), sep)
    }
}

pub proof fn lemma_first_at(s: Seq<char>, sep: char)
    ensures
        0 <= first_at(s, sep) <= s.len(),
        forall|j: int| 0 <= j < first_at(s, sep) ==> s[j] != sep,
        first_at(s, sep) < s.len() ==> s[first_at(s, sep)] == sep,
    decreases s.len(),
{
    if s.len() == 0 || s[0] == sep {
    } else {
        let rest = s.drop_first();
        lemma_first_at(rest, sep);
        assert forall|j: int| 0 <= j < first_at(s, sep) implies s[j] != sep by {
            if j > 0 {
                assert(rest[j - 1] == s[j]);
            }
        }
        if first_at(s, sep) < s.len() {
            assert(rest[first_at(rest, sep)] == s[first_at(s, sep)]);
        }
    }
}

/// A position with `sep` on it and none before is the first one.
pub proof fn lemma_first_at_is(s: Seq<char>, sep: char, at: int)
    requires
        0 <= at <= s.len(),
        forall|j: int| 0 <= j < at ==> s[j] != sep,
        at < s.len() ==> s[at] == sep,
    ensures
        first_at(s, sep) == at,
{
    lemma_first_at(s, sep);
    let f = first_at(s, sep);
    if f < at {
        assert(s[f] == sep);
    } else if at < f {
        assert(s[at] != sep);
    }
}

pub fn find(s: &[char], sep: char) -> (r: Option<usize>)
    ensures
        match r {
            Some(i) => i < s@.len() && i == first_at(s@, sep),
            None => first_at(s@, sep) == s@.len(),
        },
{
    for i in 0..s.len()
        invariant
            forall|j: int| 0 <= j < i ==> s@[j] != sep,
    {
        if s[i] == sep {
            proof {
                lemma_first_at_is(s@, sep, i as int);
            }
            return Some(i);
        }
    }
    proof {
        lemma_first_at_is(s@, sep, s@.len() as int);
    }
    None
}

// ---------------------------------------------------------------- lines
/// A line's text: without the carriage return that ends it, if one does.
pub open spec fn line_text(piece: Seq<char>) -> Seq<char> {
    if piece.len() > 0 && piece.last() == '\r' {
        piece.drop_last()
    } else {
        piece
    }
}

/// The lines of `s`. A line ends with a line feed, or with a carriage return
/// and a line feed; the last line need not end so, and then keeps its
/// carriage return.
pub open spec fn lines_of(s: Seq<char>) -> Seq<Seq<char>> {
    let parts = split_on(s, '\n');
    let ended = Seq::new((parts.len() - 1) as nat, |i: int| line_text(parts[i]));
    if parts.last().len() == 0 {
        ended
    } else {
        ended.push(parts.last())
    }
}

pub fn lines(s: &str) -> (r: Vec<Vec<char>>)
    ensures
        pieces(r@) == lines_of(s@),
{
    let chars = text::chars_of(s);
    let parts = split(chars.as_slice(), '\n');
    let ghost all = pieces(parts@);
    proof {
        lemma_split_not_empty(s@, '\n');
        assert(all.len() >= 1);
    }
    let last: usize = parts.len() - 1;
    let mut out: Vec<Vec<char>> = Vec::new();
    for i in 0..last
        invariant
            all == pieces(parts@),
            last < parts@.len(),
            out@.len() == i,
            forall|j: int| 0 <= j < i ==> (#[trigger] out@[j])@ == line_text(all[j]),
    {
        let size: usize = parts[i].len();
        if size > 0 && parts[i][size - 1] == '\r' {
            let mut line = parts[i].clone();
            assert(line@ =~= all[i as int]);
            line.pop();
            assert(line@ =~= line_text(all[i as int]));
            out.push(line);
        } else {
            let line = parts[i].clone();
            assert(line@ =~= line_text(all[i as int]));
            out.push(line);
        }
    }
    let ghost ended = Seq::new((all.len() - 1) as nat, |i: int| line_text(all[i]));
    assert(pieces(out@) =~= ended);
    if parts[last].len() != 0 {
        let line = parts[last].clone();
        assert(line@ =~= all.last());
        out.push(line);
        assert(pieces(out@) =~= ended.push(all.last()));
    }
    out
}

// ---------------------------------------------------------------- words
/// A character with the Unicode property White_Space.
pub open spec fn is_space(c: char) -> bool {
    let u = c as int;
    ||| 0x09 <= u <= 0x0d
    ||| u == 0x20
    ||| u == 0x85
    ||| u == 0xa0
    ||| u == 0x1680
    ||| 0x2000 <= u <= 0x200a
    ||| u == 0x2028
    ||| u == 0x2029
    ||| u == 0x202f
    ||| u == 0x205f
    ||| u == 0x3000
}

pub fn is_whitespace(c: char) -> (r: bool)
    ensures
        r == is_space(c),
{
    let u: u32 = c as u32;
    (0x09 <= u && u <= 0x0d) || u == 0x20 || u == 0x85 || u == 0xa0 || u == 0x1680 || (0x2000 <= u
        && u <= 0x200a) || u == 0x2028 || u == 0x2029 || u == 0x202f || u == 0x205f || u == 0x3000
}

/// `s` with every white-space character turned into a plain space.
pub open spec fn spaced(s: Seq<char>) -> Seq<char> {
    Seq::new(
        s.len(),
        |i: int|
            if is_space(s[i]) {
                ' '
            } else {
                s[i]
            },
    )
}

/// The words of `s`: the runs of characters between white space.
pub open spec fn words_of(s: Seq<char>) -> Seq<Seq<char>> {
    non_empty(split_on(spaced(s), ' '))
}

pub fn words(s: &[char]) -> (r: Vec<Vec<char>>)
    ensures
        pieces(r@) == words_of(s@),
{
    let mut plain: Vec<char> = Vec::new();
    for i in 0..s.len()
        invariant
            plain@ == spaced(s@).take(i as int),
    {
        if is_whitespace(s[i]) {
            plain.push(' ');
        } else {
            plain.push(s[i]);
        }
    }
    assert(plain@ =~= spaced(s@));
    drop_empty(split(plain.as_slice(), ' '))
}

} // verus!
