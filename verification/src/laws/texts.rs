//! Text operations.
use crate::order;
use crate::split;
use crate::text;
use vstd::prelude::*;

verus! {

/// Joining puts the separator between neighbours and nowhere else.
pub proof fn law_join_grows(parts: Seq<Seq<char>>, sep: Seq<char>, part: Seq<char>)
    ensures
        text::joined(Seq::empty(), sep) == Seq::<char>::empty(),
        text::joined(seq![part], sep) == part,
        parts.len() > 0 ==> text::joined(parts.push(part), sep) == text::joined(parts, sep) + sep
            + part,
{
    if parts.len() > 0 {
        assert(parts.push(part).drop_last() =~= parts);
    }
}

/// Splitting is undone by joining, and no piece holds the separator: these two
/// together leave no choice.
pub proof fn law_split_and_join(s: Seq<char>, sep: char)
    ensures
        split::split_on(s, sep).len() >= 1,
        text::joined(split::split_on(s, sep), seq![sep]) == s,
        forall|i: int|
            0 <= i < split::split_on(s, sep).len() ==> !(#[trigger] split::split_on(
                s,
                sep,
            )[i]).contains(sep),
    decreases s.len(),
{
    let parts = split::split_on(s, sep);
    let mark = seq![sep];
    if s.len() == 0 {
        assert(text::joined(parts, mark) =~= s);
    } else {
        let front = s.drop_last();
        let before = split::split_on(front, sep);
        law_split_and_join(front, sep);
        if s.last() == sep {
            assert(parts.drop_last() =~= before);
            assert(text::joined(parts, mark) =~= front + mark + Seq::<char>::empty());
            assert(text::joined(parts, mark) =~= s);
        } else {
            let last = before.last();
            assert(!before[before.len() - 1].contains(sep));
            assert forall|i: int| 0 <= i < parts.len() implies !(#[trigger] parts[i]).contains(
                sep,
            ) by {
                if i < parts.len() - 1 {
                    assert(parts[i] == before[i]);
                } else if parts[i].contains(sep) {
                    let k = choose|k: int| 0 <= k < parts[i].len() && parts[i][k] == sep;
                    assert(k < last.len());
                    assert(last[k] == sep);
                }
            }
            assert(parts.drop_last() =~= before.drop_last());
            assert(text::joined(parts, mark) =~= text::joined(before, mark).push(s.last()));
            assert(text::joined(parts, mark) =~= s);
        }
    }
}

/// The test for pieces that are not empty.
pub open spec fn is_filled() -> spec_fn(Seq<char>) -> bool {
    |p: Seq<char>| p.len() > 0
}

/// Only empty pieces are dropped.
pub proof fn law_empty_pieces_are_dropped(parts: Seq<Seq<char>>)
    ensures
        split::non_empty(parts) == parts.filter(is_filled()),
    decreases parts.len(),
{
    reveal(Seq::filter);
    if parts.len() > 0 {
        law_empty_pieces_are_dropped(parts.drop_last());
    }
    assert(split::non_empty(parts) =~= parts.filter(is_filled()));
}

/// A line ends at a line feed, or at a carriage return and a line feed.
pub proof fn law_first_line(line: Seq<char>, rest: Seq<char>)
    requires
        !line.contains('\n'),
    ensures
        line.len() == 0 || line.last() != '\r' ==> split::lines_of(line + seq!['\n'] + rest)
            == seq![line] + split::lines_of(rest),
        split::lines_of(line + seq!['\r', '\n'] + rest) == seq![line] + split::lines_of(rest),
        split::lines_of(line) == (if line.len() == 0 {
            Seq::<Seq<char>>::empty()
        } else {
            seq![line]
        }),
{
    split::lemma_split_not_empty(rest, '\n');
    split::lemma_split_single(line, '\n');
    let a = line + seq!['\n'] + rest;
    assert(a =~= line.push('\n') + rest);
    split::lemma_split_concat(line, '\n', rest);
    let parts = split::split_on(rest, '\n');
    assert(split::split_on(a, '\n') == seq![line] + parts);
    if line.len() == 0 || line.last() != '\r' {
        assert(split::lines_of(a) =~= seq![line] + split::lines_of(rest));
    }
    let long = line.push('\r');
    let b = line + seq!['\r', '\n'] + rest;
    assert(b =~= long.push('\n') + rest);
    assert(!long.contains('\n')) by {
        if long.contains('\n') {
            let k = choose|k: int| 0 <= k < long.len() && long[k] == '\n';
            assert(line[k] == '\n');
        }
    }
    split::lemma_split_single(long, '\n');
    split::lemma_split_concat(long, '\n', rest);
    assert(split::split_on(b, '\n') == seq![long] + parts);
    assert(long.drop_last() =~= line);
    assert(split::lines_of(b) =~= seq![line] + split::lines_of(rest));
    assert(split::lines_of(line) =~= (if line.len() == 0 {
        Seq::<Seq<char>>::empty()
    } else {
        seq![line]
    }));
}

/// Words are what stands between white space: blanks, tabs, line ends.
pub proof fn law_first_word(word: Seq<char>, space: char, rest: Seq<char>)
    requires
        word.len() > 0,
        forall|i: int| 0 <= i < word.len() ==> !split::is_space(#[trigger] word[i]),
        split::is_space(space),
    ensures
        split::words_of(word.push(space) + rest) == seq![word] + split::words_of(rest),
        split::words_of(seq![space] + rest) == split::words_of(rest),
        split::words_of(word) == seq![word],
        split::words_of(Seq::empty()) == Seq::<Seq<char>>::empty(),
{
    let low = split::spaced(rest);
    let empty = Seq::<char>::empty();
    assert(split::spaced(word) =~= word);
    assert(!word.contains(' ')) by {
        if word.contains(' ') {
            let k = choose|k: int| 0 <= k < word.len() && word[k] == ' ';
            assert(!split::is_space(word[k]));
        }
    }
    split::lemma_split_single(word, ' ');
    assert(split::spaced(word.push(space) + rest) =~= word.push(' ') + low);
    split::lemma_split_concat(word, ' ', low);
    let parts = split::split_on(low, ' ');
    lemma_non_empty_concat(seq![word], parts);
    assert(split::spaced(seq![space] + rest) =~= empty.push(' ') + low);
    split::lemma_split_concat(empty, ' ', low);
    assert(split::split_on(empty, ' ') =~= seq![empty]);
    lemma_non_empty_concat(seq![empty], parts);
    reveal_with_fuel(split::non_empty, 3);
    assert(seq![word].drop_last() =~= Seq::<Seq<char>>::empty());
    assert(seq![empty].drop_last() =~= Seq::<Seq<char>>::empty());
    assert(split::non_empty(seq![word]) =~= seq![word]);
    assert(split::non_empty(seq![empty]) =~= Seq::<Seq<char>>::empty());
    assert(Seq::<Seq<char>>::empty() + split::non_empty(parts) =~= split::non_empty(parts));
    assert(split::spaced(empty) =~= empty);
}

pub proof fn lemma_non_empty_concat(a: Seq<Seq<char>>, b: Seq<Seq<char>>)
    ensures
        split::non_empty(a + b) == split::non_empty(a) + split::non_empty(b),
    decreases b.len(),
{
    if b.len() == 0 {
        assert(a + b =~= a);
        assert(split::non_empty(a) + split::non_empty(b) =~= split::non_empty(a));
    } else {
        assert((a + b).drop_last() =~= a + b.drop_last());
        lemma_non_empty_concat(a, b.drop_last());
        assert(split::non_empty(a + b) =~= split::non_empty(a) + split::non_empty(b));
    }
}

/// The white-space characters among the first 128.
pub proof fn law_ascii_spaces(c: char)
    requires
        c as int <= 127,
    ensures
        split::is_space(c) <==> c == ' ' || c == '\t' || c == '\n' || c == '\r' || c as int == 11
            || c as int == 12,
{
}

/// A prefix is taken off exactly where it stands in front.
pub proof fn law_prefix_is_taken_off(s: Seq<char>, prefix: Seq<char>, rest: Seq<char>)
    ensures
        text::stripped(prefix + rest, prefix) == Some(rest),
        text::stripped(s, prefix) matches Some(r) ==> s == prefix + r,
        text::stripped(s, prefix) is None ==> text::without_prefix(s, prefix) == s,
        text::without_prefix(prefix + rest, prefix) == rest,
{
    let all = prefix + rest;
    assert(prefix =~= all.subrange(0, prefix.len() as int));
    assert(all.skip(prefix.len() as int) =~= rest);
    if let Some(r) = text::stripped(s, prefix) {
        assert(prefix == s.subrange(0, prefix.len() as int));
        assert(s =~= s.subrange(0, prefix.len() as int) + s.skip(prefix.len() as int));
    }
}

/// A text holds another if it is made of something, the other and something.
pub proof fn law_containing(a: Seq<char>, needle: Seq<char>, b: Seq<char>)
    ensures
        text::contains_text(a + needle + b, needle),
{
    text::lemma_whole_in_itself(needle);
    text::lemma_part_in_whole(a, needle, needle);
    text::lemma_part_in_whole(a + needle, b, needle);
}

/// A text that holds another can be taken apart around it.
pub proof fn law_contained(hay: Seq<char>, needle: Seq<char>) -> (r: (Seq<char>, Seq<char>))
    requires
        text::contains_text(hay, needle),
    ensures
        hay == r.0 + needle + r.1,
{
    let at = choose|at: int| #[trigger] text::occurs_at(hay, needle, at);
    let x = hay.take(at);
    let y = hay.skip(at + needle.len());
    let middle = hay.subrange(at, at + needle.len());
    assert(middle == needle);
    assert(hay =~= x + middle + y);
    (x, y)
}

/// ASCII letters change case by 32; everything else stays.
pub proof fn law_ascii_case(s: Seq<char>)
    ensures
        text::ascii_upper(s).len() == s.len(),
        text::ascii_lower(s).len() == s.len(),
        forall|i: int|
            0 <= i < s.len() ==> (#[trigger] text::ascii_upper(s)[i]) as int == (if 97 <= s[i] as int
                <= 122 {
                s[i] as int - 32
            } else {
                s[i] as int
            }),
        forall|i: int|
            0 <= i < s.len() ==> (#[trigger] text::ascii_lower(s)[i]) as int == (if 65 <= s[i] as int
                <= 90 {
                s[i] as int + 32
            } else {
                s[i] as int
            }),
        text::is_ascii(s) ==> text::lowercase(s) == text::ascii_lower(s),
{
}

/// Padding adds blanks behind the text up to the width, and never cuts.
pub proof fn law_padding(s: Seq<char>, width: nat)
    ensures
        text::padded(s, width).len() == (if s.len() < width {
            width
        } else {
            s.len()
        }),
        text::padded(s, width).take(s.len() as int) == s,
        forall|i: int|
            s.len() <= i < text::padded(s, width).len() ==> #[trigger] text::padded(s, width)[i]
                == ' ',
{
    assert(text::padded(s, width).take(s.len() as int) =~= s);
}

/// One text is before another if it is the shorter of two that begin alike, or
/// has the smaller character where they first differ.
pub proof fn law_alphabetical_order(common: Seq<char>, a: Seq<char>, b: Seq<char>)
    ensures
        a.len() > 0 && b.len() > 0 && (a[0] as int) < (b[0] as int) ==> order::precedes(
            common + a,
            common + b,
        ),
        b.len() > 0 ==> order::precedes(common, common + b),
        !order::precedes(common, common),
        order::precedes(a, b) ==> !order::precedes(b, a),
    decreases common.len(),
{
    order::lemma_precedes_total(a, b);
    order::lemma_precedes_total(common, common);
    if common.len() == 0 {
        assert(common + a =~= a);
        assert(common + b =~= b);
    } else {
        let rest = common.drop_first();
        law_alphabetical_order(rest, a, b);
        assert((common + a).drop_first() =~= rest + a);
        assert((common + b).drop_first() =~= rest + b);
    }
}

/// The white-space characters beyond the first 128.
pub proof fn law_other_spaces(c: char)
    requires
        c as int > 127,
    ensures
        split::is_space(c) <==> c == '\u{85}' || c == '\u{a0}' || c == '\u{1680}' || '\u{2000}' <= c
            <= '\u{200a}' || c == '\u{2028}' || c == '\u{2029}' || c == '\u{202f}' || c
            == '\u{205f}' || c == '\u{3000}',
{
}

/// A list of strings is seen text by text, and what may be missing is seen
/// where it is there.
pub proof fn law_lists_text_by_text(list: Seq<String>, i: int, s: String, pieces: Seq<Vec<char>>)
    ensures
        text::texts(list).len() == list.len(),
        0 <= i < list.len() ==> text::texts(list)[i] == list[i]@,
        text::opt_text(Some(s)) == Some(s@),
        text::opt_text(None) is None,
        split::pieces(pieces).len() == pieces.len(),
        0 <= i < pieces.len() ==> split::pieces(pieces)[i] == pieces[i]@,
{
}

/// The first place of a character: there it stands, and nowhere before; where
/// it does not stand at all, the place is behind the text.
pub proof fn law_first_place(s: Seq<char>, c: char)
    ensures
        0 <= split::first_at(s, c) <= s.len(),
        s.contains(c) ==> split::first_at(s, c) < s.len() && s[split::first_at(s, c)] == c,
        !s.contains(c) ==> split::first_at(s, c) == s.len(),
        forall|j: int| 0 <= j < split::first_at(s, c) ==> #[trigger] s[j] != c,
{
    split::lemma_first_at(s, c);
    if s.contains(c) {
        let k = choose|k: int| 0 <= k < s.len() && s[k] == c;
        assert(s[k] == c);
    }
    if split::first_at(s, c) < s.len() {
        assert(s.contains(s[split::first_at(s, c)]));
    }
}

} // verus!
