//! Characters, strings and the small text operations that everything else is
//! built from. Text is modelled as `Seq<char>`.
use vstd::prelude::*;

verus! {

/// `String::push` appends one character at the end.
pub assume_specification[ String::push ](s: &mut String, c: char)
    ensures
        final(s)@ == old(s)@.push(c),
;

/// The texts of a list of strings.
pub open spec fn texts(list: Seq<String>) -> Seq<Seq<char>> {
    Seq::new(list.len(), |i: int| list[i]@)
}

/// The text of an optional string.
pub open spec fn opt_text(s: Option<String>) -> Option<Seq<char>> {
    match s {
        Some(t) => Some(t@),
        None => None,
    }
}

/// The characters of `s`, in order.
pub fn chars_of(s: &str) -> (r: Vec<char>)
    ensures
        r@ == s@,
{
    let mut v: Vec<char> = Vec::new();
    for c in it: s.chars()
        invariant
            v@ == it.seq().take(it.index()),
    {
        v.push(c);
    }
    v
}

/// The string made of these characters.
pub fn string_of(chars: &[char]) -> (r: String)
    ensures
        r@ == chars@,
{
    let mut s = String::new();
    for i in 0..chars.len()
        invariant
            s@ == chars@.take(i as int),
    {
        s.push(chars[i]);
    }
    s
}

pub fn same_chars(a: &[char], b: &[char]) -> (r: bool)
    ensures
        r == (a@ == b@),
{
    if a.len() != b.len() {
        return false;
    }
    for i in 0..a.len()
        invariant
            a@.len() == b@.len(),
            forall|j: int| 0 <= j < i ==> a@[j] == b@[j],
    {
        if a[i] != b[i] {
            return false;
        }
    }
    assert(a@ =~= b@);
    true
}

pub fn same_text(a: &str, b: &str) -> (r: bool)
    ensures
        r == (a@ == b@),
{
    same_chars(chars_of(a).as_slice(), chars_of(b).as_slice())
}

/// Whether `s` begins with `prefix`.
pub fn starts_with_chars(s: &[char], prefix: &[char]) -> (r: bool)
    ensures
        r == prefix@.is_prefix_of(s@),
{
    if prefix.len() > s.len() {
        return false;
    }
    for i in 0..prefix.len()
        invariant
            prefix@.len() <= s@.len(),
            forall|j: int| 0 <= j < i ==> prefix@[j] == s@[j],
    {
        if prefix[i] != s[i] {
            assert(s@.subrange(0, prefix@.len() as int)[i as int] != prefix@[i as int]);
            return false;
        }
    }
    assert(prefix@ =~= s@.subrange(0, prefix@.len() as int));
    true
}

/// Whether `s` begins with `prefix`.
pub fn starts_with(s: &str, prefix: &str) -> (r: bool)
    ensures
        r == prefix@.is_prefix_of(s@),
{
    starts_with_chars(chars_of(s).as_slice(), chars_of(prefix).as_slice())
}

/// `s` without `prefix` in front, if it has it.
pub open spec fn stripped(s: Seq<char>, prefix: Seq<char>) -> Option<Seq<char>> {
    if prefix.is_prefix_of(s) {
        Some(s.skip(prefix.len() as int))
    } else {
        None
    }
}

/// `s` without `prefix` in front, or all of `s` where it does not have it.
pub open spec fn without_prefix(s: Seq<char>, prefix: Seq<char>) -> Seq<char> {
    match stripped(s, prefix) {
        Some(rest) => rest,
        None => s,
    }
}

pub fn strip_prefix(s: &str, prefix: &str) -> (r: Option<String>)
    ensures
        opt_text(r) == stripped(s@, prefix@),
{
    let chars = chars_of(s);
    let head = chars_of(prefix);
    if starts_with_chars(chars.as_slice(), head.as_slice()) {
        Some(string_of(vstd::slice::slice_subrange(chars.as_slice(), head.len(), chars.len())))
    } else {
        None
    }
}

pub fn trim_prefix(s: &str, prefix: &str) -> (r: String)
    ensures
        r@ == without_prefix(s@, prefix@),
{
    match strip_prefix(s, prefix) {
        Some(rest) => rest,
        None => s.to_owned(),
    }
}

/// `needle` stands in `hay` from position `at` on.
pub open spec fn occurs_at(hay: Seq<char>, needle: Seq<char>, at: int) -> bool {
    &&& 0 <= at
    &&& at + needle.len() <= hay.len()
    &&& hay.subrange(at, at + needle.len()) == needle
}

/// `needle` stands somewhere in `hay`.
pub open spec fn contains_text(hay: Seq<char>, needle: Seq<char>) -> bool {
    exists|at: int| #[trigger] occurs_at(hay, needle, at)
}

pub fn contains(hay: &str, needle: &str) -> (r: bool)
    ensures
        r == contains_text(hay@, needle@),
{
    let h = chars_of(hay);
    let n = chars_of(needle);
    let size: usize = h.len();
    if n.len() > size {
        return false;
    }
    let last: usize = size - n.len();
    let mut at: usize = 0;
    while at <= last
        invariant
            h@ == hay@,
            n@ == needle@,
            size == h@.len(),
            last + n@.len() == size,
            at <= last + 1,
            forall|k: int| 0 <= k < at ==> !#[trigger] occurs_at(hay@, needle@, k),
        decreases last + 1 - at,
    {
        let window = vstd::slice::slice_subrange(h.as_slice(), at, at + n.len());
        if same_chars(window, n.as_slice()) {
            assert(occurs_at(hay@, needle@, at as int));
            return true;
        }
        if at == last {
            return false;
        }
        at = at + 1;
    }
    false
}

/// What stands in a part stands in the whole.
pub broadcast proof fn lemma_part_in_whole(a: Seq<char>, b: Seq<char>, x: Seq<char>)
    requires
        contains_text(a, x) || contains_text(b, x),
    ensures
        #[trigger] contains_text(a + b, x),
{
    if contains_text(a, x) {
        let at = choose|at: int| #[trigger] occurs_at(a, x, at);
        assert((a + b).subrange(at, at + x.len()) =~= a.subrange(at, at + x.len()));
        assert(occurs_at(a + b, x, at));
    } else {
        let at = choose|at: int| #[trigger] occurs_at(b, x, at);
        let there = a.len() + at;
        assert((a + b).subrange(there, there + x.len()) =~= b.subrange(at, at + x.len()));
        assert(occurs_at(a + b, x, there));
    }
}

/// A text stands in itself.
pub proof fn lemma_whole_in_itself(x: Seq<char>)
    ensures
        contains_text(x, x),
{
    assert(x.subrange(0, x.len() as int) =~= x);
    assert(occurs_at(x, x, 0));
}

// ---------------------------------------------------------------- ASCII case
pub open spec fn is_ascii(s: Seq<char>) -> bool {
    vstd::utf8::is_ascii_chars(s)
}

pub open spec fn upper_char(c: char) -> char {
    if 'a' <= c && c <= 'z' {
        (c as int - 32) as char
    } else {
        c
    }
}

pub open spec fn lower_char(c: char) -> char {
    if 'A' <= c && c <= 'Z' {
        (c as int + 32) as char
    } else {
        c
    }
}

/// `s` with the ASCII letters in upper case, all else unchanged.
pub open spec fn ascii_upper(s: Seq<char>) -> Seq<char> {
    Seq::new(s.len(), |i: int| upper_char(s[i]))
}

/// `s` with the ASCII letters in lower case, all else unchanged.
pub open spec fn ascii_lower(s: Seq<char>) -> Seq<char> {
    Seq::new(s.len(), |i: int| lower_char(s[i]))
}

pub fn to_upper_char(c: char) -> (r: char)
    ensures
        r == upper_char(c),
{
    if 'a' <= c && c <= 'z' {
        (c as u8 - 32) as char
    } else {
        c
    }
}

pub fn to_lower_char(c: char) -> (r: char)
    ensures
        r == lower_char(c),
{
    if 'A' <= c && c <= 'Z' {
        (c as u8 + 32) as char
    } else {
        c
    }
}

pub fn to_ascii_upper(s: &str) -> (r: Vec<char>)
    ensures
        r@ == ascii_upper(s@),
{
    let chars = chars_of(s);
    let mut out: Vec<char> = Vec::new();
    for i in 0..chars.len()
        invariant
            chars@ == s@,
            out@ == ascii_upper(s@).take(i as int),
    {
        out.push(to_upper_char(chars[i]));
    }
    out
}

pub fn to_ascii_lower(chars: &[char]) -> (r: Vec<char>)
    ensures
        r@ == ascii_lower(chars@),
{
    let mut out: Vec<char> = Vec::new();
    for i in 0..chars.len()
        invariant
            out@ == ascii_lower(chars@).take(i as int),
    {
        out.push(to_lower_char(chars[i]));
    }
    out
}

// ---------------------------------------------------------------- Unicode case
/// What `str::to_lowercase` makes of a text that is not all ASCII.
pub uninterp spec fn unicode_lowercase(s: Seq<char>) -> Seq<char>;

/// `s` in lower case.
pub open spec fn lowercase(s: Seq<char>) -> Seq<char> {
    if is_ascii(s) {
        ascii_lower(s)
    } else {
        unicode_lowercase(s)
    }
}

/// `str::to_lowercase`. On a text of ASCII characters alone it lowers the
/// ASCII letters and keeps the rest; on any other text the result follows the
/// Unicode tables and is only given a name.
#[verifier::external_body]
pub(crate) fn to_lowercase(s: &str) -> (r: String)
    ensures
        r@ == (if is_ascii(s@) {
            ascii_lower(s@)
        } else {
            unicode_lowercase(s@)
        }),
{
    s.to_lowercase()
}

// ---------------------------------------------------------------- building
/// The texts of `parts` with `sep` between neighbours.
pub open spec fn joined(parts: Seq<Seq<char>>, sep: Seq<char>) -> Seq<char>
    decreases parts.len(),
{
    if parts.len() == 0 {
        Seq::empty()
    } else if parts.len() == 1 {
        parts[0]
    } else {
        joined(parts.drop_last(), sep) + sep + parts.last()
    }
}

/// Every part stands in the joined text.
pub proof fn lemma_part_in_joined(parts: Seq<Seq<char>>, sep: Seq<char>, i: int)
    requires
        0 <= i < parts.len(),
    ensures
        contains_text(joined(parts, sep), parts[i]),
    decreases parts.len(),
{
    lemma_whole_in_itself(parts[i]);
    if parts.len() > 1 {
        let front = joined(parts.drop_last(), sep);
        if i < parts.len() - 1 {
            lemma_part_in_joined(parts.drop_last(), sep, i);
            assert(parts.drop_last()[i] == parts[i]);
            lemma_part_in_whole(front, sep, parts[i]);
        }
        lemma_part_in_whole(front + sep, parts.last(), parts[i]);
    }
}

pub fn join(parts: &Vec<String>, sep: &str) -> (r: String)
    ensures
        r@ == joined(texts(parts@), sep@),
{
    if parts.len() == 0 {
        return String::new();
    }
    let mut out = parts[0].clone();
    let ghost all = texts(parts@);
    assert(all.take(1) =~= seq![parts@[0]@]);
    for i in 1..parts.len()
        invariant
            1 <= i <= parts@.len(),
            all == texts(parts@),
            out@ == joined(all.take(i as int), sep@),
    {
        out.append(sep);
        out.append(parts[i].as_str());
        assert(all.take(i + 1).drop_last() =~= all.take(i as int));
        assert(all.take(i + 1).last() == parts@[i as int]@);
    }
    assert(all.take(parts@.len() as int) =~= all);
    out
}

pub open spec fn spaces(n: nat) -> Seq<char> {
    Seq::new(n, |i: int| ' ')
}

/// `s` with spaces behind it up to `width` characters.
pub open spec fn padded(s: Seq<char>, width: nat) -> Seq<char> {
    s + spaces(if s.len() < width {
        (width - s.len()) as nat
    } else {
        0
    })
}

pub fn pad_right(s: &str, width: usize) -> (r: String)
    ensures
        r@ == padded(s@, width as nat),
{
    let have: usize = s.unicode_len();
    let mut out = s.to_owned();
    let mut n: usize = have;
    while n < width
        invariant
            have <= n,
            n <= width || n == have,
            out@ == s@ + spaces((n - have) as nat),
            have == s@.len(),
        decreases width - n,
    {
        out.push(' ');
        assert(spaces((n + 1 - have) as nat) =~= spaces((n - have) as nat).push(' '));
        assert(out@ =~= s@ + spaces((n + 1 - have) as nat));
        n = n + 1;
    }
    out
}

} // verus!
