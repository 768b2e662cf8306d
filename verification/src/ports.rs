//! What lies in the scope of a dongle whose USB port is known.
use crate::sniper;
use crate::sniper::Candidate;
use crate::split;
use crate::text;
use crate::usb;
use crate::usb::Scope;
use vstd::prelude::*;

verus! {

/// The names in lower case.
pub open spec fn lower_all(segs: Seq<Seq<char>>) -> Seq<Seq<char>> {
    Seq::new(segs.len(), |i: int| text::ascii_lower(segs[i]))
}

/// From segment `k` on the path goes the way of the device, down to the
/// device's own directory.
pub open spec fn passes_at(segs: Seq<Seq<char>>, device: Seq<Seq<char>>, k: int) -> bool {
    &&& 0 <= k
    &&& k + device.len() <= segs.len()
    &&& segs.subrange(k, k + device.len()) == device
}

// ---------------------------------------------------------------- lower case
proof fn lemma_lower_joined(segs: Seq<Seq<char>>)
    ensures
        text::ascii_lower(text::joined(segs, "/"@)) == text::joined(lower_all(segs), "/"@),
    decreases segs.len(),
{
    reveal_strlit("/");
    let low = lower_all(segs);
    if segs.len() == 0 {
        assert(text::ascii_lower(text::joined(segs, "/"@)) =~= Seq::<char>::empty());
    } else if segs.len() > 1 {
        lemma_lower_joined(segs.drop_last());
        assert(low.drop_last() =~= lower_all(segs.drop_last()));
        assert(low.last() == text::ascii_lower(segs.last()));
        assert(text::ascii_lower(text::joined(segs, "/"@)) =~= text::ascii_lower(
            text::joined(segs.drop_last(), "/"@),
        ) + "/"@ + low.last());
    }
}

proof fn lemma_lower_path(segs: Seq<Seq<char>>)
    ensures
        text::ascii_lower(usb::path_of(segs)) == usb::path_of(lower_all(segs)),
{
    reveal_strlit("/");
    lemma_lower_joined(segs);
    assert(text::ascii_lower(usb::path_of(segs)) =~= "/"@ + text::ascii_lower(
        text::joined(segs, "/"@),
    ));
}

proof fn lemma_lower_names(segs: Seq<Seq<char>>)
    requires
        usb::are_names(segs),
    ensures
        usb::are_names(lower_all(segs)),
{
    let low = lower_all(segs);
    assert forall|i: int| 0 <= i < low.len() implies (#[trigger] low[i]).len() > 0
        && !low[i].contains('/') by {
        assert(segs[i].len() > 0 && !segs[i].contains('/'));
        if low[i].contains('/') {
            let j = choose|j: int| 0 <= j < low[i].len() && low[i][j] == '/';
            assert(text::lower_char(segs[i][j]) == '/');
            assert(segs[i][j] == '/');
        }
    }
}

// ---------------------------------------------------------------- from text to segments
/// A name and what follows it, if that begins with a slash: the name is the
/// first piece.
proof fn lemma_name_ends(name: Seq<char>, z: Seq<char>)
    requires
        !name.contains('/'),
        z.len() == 0 || z[0] == '/',
    ensures
        split::split_on(name + z, '/').len() >= 1,
        split::split_on(name + z, '/')[0] == name,
{
    split::lemma_split_single(name, '/');
    if z.len() == 0 {
        assert(name + z =~= name);
    } else {
        assert(name + z =~= name.push('/') + z.drop_first());
        split::lemma_split_concat(name, '/', z.drop_first());
    }
}

proof fn lemma_text_gives_segments(segs: Seq<Seq<char>>, device: Seq<Seq<char>>, at: int) -> (k:
    int)
    requires
        segs.len() >= 1,
        device.len() >= 1,
        usb::are_names(segs),
        usb::are_names(device),
        text::occurs_at(usb::path_of(segs), usb::path_of(device), at),
        at + usb::path_of(device).len() == usb::path_of(segs).len() || usb::path_of(
            segs,
        )[at + usb::path_of(device).len()] == '/',
    ensures
        passes_at(segs, device, k),
{
    reveal_strlit("/");
    let n = usb::path_of(segs);
    let d = usb::path_of(device);
    let x = n.take(at);
    let z = n.skip(at + d.len());
    let front = device.drop_last();
    let last = device.last();
    let empty = Seq::<char>::empty();
    assert(last == device[device.len() - 1]);
    usb::lemma_path_split(segs);
    split::lemma_split_not_empty(x, '/');
    lemma_name_ends(last, z);
    let tail = split::split_on(last + z, '/');
    let head = split::split_on(x, '/');
    let whole = seq![empty] + segs;
    let k = head.len() - 1;
    assert(n =~= x + d + z) by {
        assert(n.subrange(at, at + d.len()) == d);
        assert forall|i: int| 0 <= i < n.len() implies n[i] == (x + d + z)[i] by {
            if at <= i < at + d.len() {
                assert(n.subrange(at, at + d.len())[i - at] == n[i]);
            }
        }
    }
    if device.len() == 1 {
        assert(d =~= "/"@ + last);
        assert(n =~= x.push('/') + (last + z));
        split::lemma_split_concat(x, '/', last + z);
        assert(whole == head + tail);
        assert(whole[k + 1] == tail[0]);
        assert(segs.subrange(k, k + 1) =~= device);
    } else {
        assert(usb::are_names(front)) by {
            assert forall|i: int| 0 <= i < front.len() implies (#[trigger] front[i]).len() > 0
                && !front[i].contains('/') by {
                assert(front[i] == device[i]);
            }
        }
        let way = text::joined(front, "/"@);
        assert(d =~= "/"@ + (way + "/"@ + last));
        assert(n =~= x.push('/') + (way.push('/') + (last + z)));
        split::lemma_split_concat(x, '/', way.push('/') + (last + z));
        split::lemma_split_concat(way, '/', last + z);
        usb::lemma_path_split(front);
        assert(usb::path_of(front) =~= empty.push('/') + way);
        split::lemma_split_concat(empty, '/', way);
        assert(split::split_on(empty, '/') =~= seq![empty]);
        assert(split::split_on(way, '/') =~= front) by {
            let both = seq![empty] + split::split_on(way, '/');
            assert(both == seq![empty] + front);
            assert(both.skip(1) =~= split::split_on(way, '/'));
            assert((seq![empty] + front).skip(1) =~= front);
        }
        assert(whole == head + (front + tail));
        assert(whole[k + 1 + front.len()] == tail[0]);
        assert forall|i: int| 0 <= i < device.len() implies segs[k + i] == device[i] by {
            if i < front.len() {
                assert(whole[k + 1 + i] == front[i]);
            }
        }
        assert(segs.subrange(k, k + device.len()) =~= device);
    }
    k
}

// ---------------------------------------------------------------- from segments to text
proof fn lemma_path_ends(segs: Seq<Seq<char>>, k: int)
    requires
        0 <= k < segs.len(),
    ensures
        ({
            let whole = usb::path_of(segs);
            let end = usb::path_of(segs.skip(k));
            end.len() <= whole.len() && whole.skip(whole.len() - end.len()) == end
        }),
    decreases segs.len(),
{
    reveal_strlit("/");
    let whole = usb::path_of(segs);
    let rest = segs.skip(k);
    let end = usb::path_of(rest);
    if k == segs.len() - 1 {
        assert(rest =~= seq![segs.last()]);
        if segs.len() > 1 {
            assert(whole =~= "/"@ + text::joined(segs.drop_last(), "/"@) + "/"@ + segs.last());
        }
        assert(whole.skip(whole.len() - end.len()) =~= end);
    } else {
        let front = segs.drop_last();
        lemma_path_ends(front, k);
        assert(rest.drop_last() =~= front.skip(k));
        assert(rest.last() == segs.last());
        let shorter = usb::path_of(front);
        let ending = usb::path_of(front.skip(k));
        assert(whole =~= shorter + "/"@ + segs.last());
        assert(end =~= ending + "/"@ + segs.last());
        assert forall|i: int| 0 <= i < end.len() implies whole.skip(whole.len() - end.len())[i]
            == end[i] by {
            if i < ending.len() {
                assert(shorter.skip(shorter.len() - ending.len())[i] == ending[i]);
            }
        }
        assert(whole.skip(whole.len() - end.len()) =~= end);
    }
}

proof fn lemma_segments_give_text(segs: Seq<Seq<char>>, device: Seq<Seq<char>>, k: int)
    requires
        device.len() >= 1,
        passes_at(segs, device, k),
    ensures
        usb::under(usb::path_of(segs), usb::path_of(device)),
{
    let m = device.len() as int;
    let whole = usb::path_of(segs);
    let d = usb::path_of(device);
    let rest = segs.skip(k);
    let more = rest.skip(m);
    let end = usb::path_of(rest);
    lemma_path_ends(segs, k);
    assert(rest =~= device + more) by {
        assert forall|i: int| 0 <= i < m implies rest[i] == device[i] by {
            assert(segs.subrange(k, k + m)[i] == segs[k + i]);
        }
    }
    usb::lemma_path_extends(device, more);
    let at = whole.len() - end.len();
    assert(whole.subrange(at, at + d.len()) =~= d) by {
        assert forall|i: int| 0 <= i < d.len() implies whole[at + i] == d[i] by {
            assert(whole.skip(at)[i] == end[i]);
            assert(end.subrange(0, d.len() as int)[i] == d[i]);
        }
    }
    assert(text::occurs_at(whole, d, at));
    if more.len() == 0 {
        assert(rest =~= device);
    } else {
        assert(whole.skip(at)[d.len() as int] == end[d.len() as int]);
    }
}

// ---------------------------------------------------------------- the law
/// A node is in the scope of a dongle exactly if its sysfs path goes, case
/// aside, through the directory of the dongle's USB device: with the dongle
/// on `5-2`, a keyboard on `5-3` or on `5-21` is out of scope.
pub proof fn law_scope_is_the_port(segs: Seq<Seq<char>>, device: Seq<Seq<char>>, scope: Scope)
    requires
        segs.len() >= 1,
        device.len() >= 1,
        usb::are_names(segs),
        usb::are_names(device),
        text::is_ascii(usb::path_of(segs)),
        text::is_ascii(usb::path_of(device)),
        text::opt_text(scope.usb_prefix) == Some(usb::path_of(device)),
    ensures
        scope.spec_needle().finds(text::lowercase(usb::path_of(segs))) <==> exists|k: int| #[trigger]
            passes_at(lower_all(segs), lower_all(device), k),
{
    let s = lower_all(segs);
    let d = lower_all(device);
    let path = usb::path_of(s);
    let prefix = usb::path_of(d);
    lemma_lower_path(segs);
    lemma_lower_path(device);
    lemma_lower_names(segs);
    lemma_lower_names(device);
    if usb::under(path, prefix) {
        let at = choose|at: int| #[trigger]
            text::occurs_at(path, prefix, at) && (at + prefix.len() == path.len() || path[at
                + prefix.len()] == '/');
        let k = lemma_text_gives_segments(s, d, at);
        assert(passes_at(s, d, k));
    }
    if exists|k: int| #[trigger] passes_at(s, d, k) {
        let k = choose|k: int| #[trigger] passes_at(s, d, k);
        lemma_segments_give_text(s, d, k);
    }
}

/// Only the dongle's own nodes are considered: a node whose path does not go
/// through the directory of its USB device is never chosen, whatever keys it
/// has. A physical keyboard's Scroll Lock is not consumed.
pub proof fn law_other_devices_are_left_alone(
    c: Candidate,
    segs: Seq<Seq<char>>,
    device: Seq<Seq<char>>,
    scope: Scope,
)
    requires
        segs.len() >= 1,
        device.len() >= 1,
        usb::are_names(segs),
        usb::are_names(device),
        text::is_ascii(usb::path_of(segs)),
        text::is_ascii(usb::path_of(device)),
        text::opt_text(scope.usb_prefix) == Some(usb::path_of(device)),
        c.canon_lower == text::lowercase(usb::path_of(segs)),
        forall|k: int| !#[trigger] passes_at(lower_all(segs), lower_all(device), k),
    ensures
        !sniper::fits(c, scope.spec_needle()),
{
    law_scope_is_the_port(segs, device, scope);
}

} // verus!
