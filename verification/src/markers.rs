//! What the HID marker of a sysfs path is.
use crate::ports;
use crate::split;
use crate::text;
use crate::usb;
use vstd::prelude::*;

verus! {

// ---------------------------------------------------------------- case
proof fn lemma_lower_twice(s: Seq<char>)
    ensures
        text::ascii_lower(text::ascii_lower(s)) == text::ascii_lower(s),
{
    assert(text::ascii_lower(text::ascii_lower(s)) =~= text::ascii_lower(s));
}

/// A slash is a slash in either case, so the pieces stay the same.
proof fn lemma_lower_split(s: Seq<char>)
    ensures
        split::split_on(text::ascii_lower(s), '/') == ports::lower_all(split::split_on(s, '/')),
    decreases s.len(),
{
    let low = text::ascii_lower(s);
    let parts = split::split_on(s, '/');
    if s.len() == 0 {
        assert(text::ascii_lower(Seq::empty()) =~= Seq::<char>::empty());
        assert(split::split_on(low, '/') =~= ports::lower_all(parts));
    } else {
        let front = s.drop_last();
        let before = split::split_on(front, '/');
        assert(low.drop_last() =~= text::ascii_lower(front));
        assert(low.last() == text::lower_char(s.last()));
        assert((low.last() == '/') == (s.last() == '/'));
        lemma_lower_split(front);
        split::lemma_split_not_empty(front, '/');
        if s.last() == '/' {
            assert(text::ascii_lower(Seq::empty()) =~= Seq::<char>::empty());
        } else {
            assert(text::ascii_lower(before.last().push(s.last())) =~= text::ascii_lower(
                before.last(),
            ).push(low.last()));
        }
        assert(split::split_on(low, '/') =~= ports::lower_all(parts));
    }
}

proof fn lemma_lower_non_empty(parts: Seq<Seq<char>>)
    ensures
        split::non_empty(ports::lower_all(parts)) == ports::lower_all(split::non_empty(parts)),
    decreases parts.len(),
{
    let low = ports::lower_all(parts);
    if parts.len() > 0 {
        let front = parts.drop_last();
        assert(low.drop_last() =~= ports::lower_all(front));
        lemma_lower_non_empty(front);
    }
    assert(split::non_empty(low) =~= ports::lower_all(split::non_empty(parts)));
}

proof fn lemma_lower_marker(segs: Seq<Seq<char>>)
    ensures
        usb::first_marker(ports::lower_all(segs)) == usb::first_marker(segs),
    decreases segs.len(),
{
    let low = ports::lower_all(segs);
    if segs.len() > 0 {
        lemma_lower_twice(segs[0]);
        assert(low.drop_first() =~= ports::lower_all(segs.drop_first()));
        lemma_lower_marker(segs.drop_first());
    }
}

/// Case makes no difference to the marker of a path.
pub proof fn law_marker_in_any_case(path: Seq<char>)
    ensures
        usb::first_marker(usb::segments(text::ascii_lower(path))) == usb::first_marker(
            usb::segments(path),
        ),
{
    lemma_lower_split(path);
    lemma_lower_non_empty(split::split_on(path, '/'));
    lemma_lower_marker(usb::segments(path));
}

// ---------------------------------------------------------------- form
/// `0003:`, vendor, colon, product, dot and anything, in lower case; vendor
/// and product hold neither colon nor dot.
pub open spec fn is_hid_segment(
    lower: Seq<char>,
    vendor: Seq<char>,
    product: Seq<char>,
    rest: Seq<char>,
) -> bool {
    &&& lower == "0003:"@ + vendor + ":"@ + product + "."@ + rest
    &&& !vendor.contains(':') && !vendor.contains('.')
    &&& !product.contains(':') && !product.contains('.')
}

/// Vendor and product with a colon between them.
pub open spec fn ids(vendor: Seq<char>, product: Seq<char>) -> Seq<char> {
    vendor + ":"@ + product
}

proof fn lemma_form_has_marker(
    seg: Seq<char>,
    vendor: Seq<char>,
    product: Seq<char>,
    rest: Seq<char>,
)
    requires
        is_hid_segment(text::ascii_lower(seg), vendor, product, rest),
    ensures
        usb::segment_marker(seg) == Some(ids(vendor, product)),
{
    reveal_strlit("0003:");
    reveal_strlit(":");
    reveal_strlit(".");
    let lower = text::ascii_lower(seg);
    let m = ids(vendor, product);
    let behind = lower.skip(5);
    assert("0003:"@ =~= lower.subrange(0, 5));
    assert(behind =~= m + "."@ + rest);
    assert forall|j: int| 0 <= j < m.len() implies behind[j] != '.' by {
        assert(behind[j] == m[j]);
        if j < vendor.len() {
            assert(m[j] == vendor[j]);
        } else if j > vendor.len() {
            assert(m[j] == product[j - vendor.len() - 1]);
        }
    }
    assert(behind[m.len() as int] == '.');
    split::lemma_first_at_is(behind, '.', m.len() as int);
    assert(behind.take(m.len() as int) =~= m);
    assert(m =~= vendor.push(':') + product);
    split::lemma_split_concat(vendor, ':', product);
    split::lemma_split_single(vendor, ':');
    split::lemma_split_single(product, ':');
}

/// A text of two pieces is the one, the separator and the other.
proof fn lemma_two_pieces(s: Seq<char>, sep: char) -> (r: (Seq<char>, Seq<char>))
    requires
        split::split_on(s, sep).len() == 2,
    ensures
        s == r.0.push(sep) + r.1,
        !r.0.contains(sep),
        !r.1.contains(sep),
{
    let at = split::first_at(s, sep);
    split::lemma_first_at(s, sep);
    if at == s.len() {
        assert(!s.contains(sep));
        split::lemma_split_single(s, sep);
    }
    let a = s.take(at);
    let b = s.skip(at + 1);
    assert(!a.contains(sep));
    assert(s =~= a.push(sep) + b);
    split::lemma_split_concat(a, sep, b);
    split::lemma_split_single(a, sep);
    if b.contains(sep) {
        let k = split::first_at(b, sep);
        split::lemma_first_at(b, sep);
        assert(k < b.len());
        assert(b =~= b.take(k).push(sep) + b.skip(k + 1));
        split::lemma_split_concat(b.take(k), sep, b.skip(k + 1));
        split::lemma_split_not_empty(b.take(k), sep);
        split::lemma_split_not_empty(b.skip(k + 1), sep);
    }
    (a, b)
}

proof fn lemma_marker_has_form(seg: Seq<char>, m: Seq<char>)
    requires
        usb::segment_marker(seg) == Some(m),
    ensures
        exists|vendor: Seq<char>, product: Seq<char>, rest: Seq<char>| #[trigger]
            is_hid_segment(text::ascii_lower(seg), vendor, product, rest) && m == ids(
                vendor,
                product,
            ),
{
    reveal_strlit("0003:");
    reveal_strlit(":");
    reveal_strlit(".");
    let lower = text::ascii_lower(seg);
    let behind = lower.skip(5);
    let dot = split::first_at(behind, '.');
    split::lemma_first_at(behind, '.');
    assert(m == behind.take(dot));
    let (vendor, product) = lemma_two_pieces(m, ':');
    let rest = behind.skip(dot + 1);
    assert(m =~= ids(vendor, product));
    assert("0003:"@ == lower.subrange(0, 5));
    assert(lower =~= "0003:"@ + vendor + ":"@ + product + "."@ + rest) by {
        assert(lower =~= "0003:"@ + behind);
        assert(behind =~= m + "."@ + rest);
    }
    assert(!vendor.contains('.')) by {
        if vendor.contains('.') {
            let i = choose|i: int| 0 <= i < vendor.len() && vendor[i] == '.';
            assert(m[i] == vendor[i]);
            assert(behind[i] == '.');
        }
    }
    assert(!product.contains('.')) by {
        if product.contains('.') {
            let i = choose|i: int| 0 <= i < product.len() && product[i] == '.';
            assert(m[vendor.len() + 1 + i] == product[i]);
            assert(behind[vendor.len() + 1 + i] == '.');
        }
    }
    assert(is_hid_segment(lower, vendor, product, rest));
}

/// A segment has a marker exactly if it is, case aside, `0003:`, vendor, colon,
/// product, dot and anything; the marker is then vendor, colon, product.
pub proof fn law_form_of_a_marker(seg: Seq<char>, m: Seq<char>)
    ensures
        usb::segment_marker(seg) == Some(m) <==> exists|
            vendor: Seq<char>,
            product: Seq<char>,
            rest: Seq<char>,
        | #[trigger]
            is_hid_segment(text::ascii_lower(seg), vendor, product, rest) && m == ids(
                vendor,
                product,
            ),
{
    if usb::segment_marker(seg) == Some(m) {
        lemma_marker_has_form(seg, m);
    }
    if exists|vendor: Seq<char>, product: Seq<char>, rest: Seq<char>| #[trigger]
        is_hid_segment(text::ascii_lower(seg), vendor, product, rest) && m == ids(
            vendor,
            product,
        ) {
        let (vendor, product, rest) = choose|
            vendor: Seq<char>,
            product: Seq<char>,
            rest: Seq<char>,
        | #[trigger]
            is_hid_segment(text::ascii_lower(seg), vendor, product, rest) && m == ids(
                vendor,
                product,
            );
        lemma_form_has_marker(seg, vendor, product, rest);
    }
}

/// The marker of a path is that of the first segment that has one; segments
/// that have none are skipped.
pub proof fn law_first_marker_counts(segs: Seq<Seq<char>>)
    ensures
        match usb::first_marker(segs) {
            Some(m) => exists|k: int|
                0 <= k < segs.len() && usb::segment_marker(#[trigger] segs[k]) == Some(m) && (
                forall|j: int| 0 <= j < k ==> usb::segment_marker(#[trigger] segs[j]) is None),
            None => forall|k: int|
                0 <= k < segs.len() ==> usb::segment_marker(#[trigger] segs[k]) is None,
        },
    decreases segs.len(),
{
    if segs.len() > 0 {
        let rest = segs.drop_first();
        law_first_marker_counts(rest);
        if usb::segment_marker(segs[0]) is Some {
            assert(usb::segment_marker(segs[0]) == usb::first_marker(segs));
        } else {
            match usb::first_marker(segs) {
                Some(m) => {
                    let k = choose|k: int|
                        0 <= k < rest.len() && usb::segment_marker(#[trigger] rest[k]) == Some(m)
                            && (forall|j: int|
                            0 <= j < k ==> usb::segment_marker(#[trigger] rest[j]) is None);
                    assert(segs[k + 1] == rest[k]);
                    assert forall|j: int| 0 <= j < k + 1 implies usb::segment_marker(
                        #[trigger] segs[j],
                    ) is None by {
                        if j > 0 {
                            assert(rest[j - 1] == segs[j]);
                        }
                    }
                },
                None => {
                    assert forall|k: int| 0 <= k < segs.len() implies usb::segment_marker(
                        #[trigger] segs[k],
                    ) is None by {
                        if k > 0 {
                            assert(rest[k - 1] == segs[k]);
                        }
                    }
                },
            }
        }
    }
}

} // verus!
