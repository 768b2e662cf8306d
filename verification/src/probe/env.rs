//! Who runs the probe, and whether that user can open the nodes.
use crate::number;
use crate::split;
use crate::text;
use std::collections::BTreeMap;
use vstd::prelude::*;

verus! {

/// The user and the groups.
#[derive(Debug)]
pub struct Env {
    pub user: String,
    pub uid: u32,
    pub euid: u32,
    pub groups: Vec<String>,
}

/// What the process status says of the user.
#[verifier::ext_equal]
pub struct Ids {
    pub uid: u32,
    pub euid: u32,
    pub gids: Seq<u32>,
}

/// The words that are numbers, as numbers.
pub open spec fn numbers(words: Seq<Seq<char>>) -> Seq<u32>
    decreases words.len(),
{
    if words.len() == 0 {
        Seq::empty()
    } else {
        let before = numbers(words.drop_last());
        match number::parsed(words.last(), 10, u32::MAX as int) {
            Ok(v) => before.push(v as u32),
            Err(_) => before,
        }
    }
}

/// One line of the status taken in.
pub open spec fn with_line(ids: Ids, line: Seq<char>) -> Ids {
    match text::stripped(line, "Uid:"@) {
        Some(rest) => {
            let n = numbers(split::words_of(rest));
            if n.len() >= 2 {
                Ids { uid: n[0], euid: n[1], gids: ids.gids }
            } else {
                ids
            }
        },
        None => match text::stripped(line, "Supplementary groups:"@) {
            Some(rest) => Ids {
                uid: ids.uid,
                euid: ids.euid,
                gids: numbers(split::words_of(rest)),
            },
            None => ids,
        },
    }
}

/// The ids in these lines; zero and none where they say nothing.
pub open spec fn ids_in(lines: Seq<Seq<char>>) -> Ids
    decreases lines.len(),
{
    if lines.len() == 0 {
        Ids { uid: 0, euid: 0, gids: Seq::empty() }
    } else {
        with_line(ids_in(lines.drop_last()), lines.last())
    }
}

fn read_numbers(s: &[char]) -> (r: Vec<u32>)
    ensures
        r@ == numbers(split::words_of(s@)),
{
    let words = split::words(s);
    let ghost all = split::pieces(words@);
    let mut out: Vec<u32> = Vec::new();
    assert(out@ =~= numbers(all.take(0)));
    for i in 0..words.len()
        invariant
            all == split::pieces(words@),
            out@ == numbers(all.take(i as int)),
    {
        assert(all.take(i + 1).drop_last() =~= all.take(i as int));
        assert(all.take(i + 1).last() == words@[i as int]@);
        match number::parse_uint(words[i].as_slice(), 10, u32::MAX) {
            Ok(v) => {
                out.push(v);
            },
            Err(_) => {},
        }
    }
    assert(all.take(all.len() as int) =~= all);
    out
}

/// What stands behind `prefix` in `line`.
fn behind<'a>(line: &'a [char], prefix: &str) -> (r: Option<&'a [char]>)
    ensures
        match r {
            Some(rest) => text::stripped(line@, prefix@) == Some(rest@),
            None => text::stripped(line@, prefix@) is None,
        },
{
    let head = text::chars_of(prefix);
    if text::starts_with_chars(line, head.as_slice()) {
        let rest = vstd::slice::slice_subrange(line, head.len(), line.len());
        assert(rest@ =~= line@.skip(head@.len() as int));
        Some(rest)
    } else {
        None
    }
}

/// Reads uid, effective uid and group ids from a process status.
pub fn read_ids(status: &str) -> (r: (u32, u32, Vec<u32>))
    ensures
        (Ids { uid: r.0, euid: r.1, gids: r.2@ }) == ids_in(split::lines_of(status@)),
{
    let lines = split::lines(status);
    let ghost all = split::pieces(lines@);
    let mut uid: u32 = 0;
    let mut euid: u32 = 0;
    let mut gids: Vec<u32> = Vec::new();
    assert((Ids { uid, euid, gids: gids@ }) =~= ids_in(all.take(0)));
    for i in 0..lines.len()
        invariant
            all == split::pieces(lines@),
            (Ids { uid, euid, gids: gids@ }) == ids_in(all.take(i as int)),
    {
        assert(all.take(i + 1).drop_last() =~= all.take(i as int));
        assert(all.take(i + 1).last() == lines@[i as int]@);
        match behind(lines[i].as_slice(), "Uid:") {
            Some(rest) => {
                let n = read_numbers(rest);
                if n.len() >= 2 {
                    uid = n[0];
                    euid = n[1];
                }
            },
            None => match behind(lines[i].as_slice(), "Supplementary groups:") {
                Some(rest) => {
                    gids = read_numbers(rest);
                },
                None => {},
            },
        }
    }
    assert(all.take(all.len() as int) =~= all);
    (uid, euid, gids)
}

// ---------------------------------------------------------------- group names
/// The texts in a table of names.
pub open spec fn table_texts(table: Map<u32, String>) -> Map<u32, Seq<char>> {
    Map::new(|g: u32| table.dom().contains(g), |g: u32| table[g]@)
}

/// One line of the group file taken in: the first field names the number in
/// the fourth.
pub open spec fn with_group(table: Map<u32, Seq<char>>, line: Seq<char>) -> Map<u32, Seq<char>> {
    let fields = split::split_on(line, ':');
    if fields.len() < 4 {
        table
    } else {
        match number::parsed(fields[3], 10, u32::MAX as int) {
            Ok(g) => table.insert(g as u32, fields[0]),
            Err(_) => table,
        }
    }
}

/// The names in these lines; of two for one number the later counts.
pub open spec fn groups_in(lines: Seq<Seq<char>>) -> Map<u32, Seq<char>>
    decreases lines.len(),
{
    if lines.len() == 0 {
        Map::empty()
    } else {
        with_group(groups_in(lines.drop_last()), lines.last())
    }
}

/// Reads the group file.
pub fn read_groups(groups: &str) -> (r: BTreeMap<u32, String>)
    ensures
        table_texts(r@) == groups_in(split::lines_of(groups@)),
{
    let lines = split::lines(groups);
    let ghost all = split::pieces(lines@);
    let mut table: BTreeMap<u32, String> = BTreeMap::new();
    assert(table_texts(table@) =~= groups_in(all.take(0)));
    for i in 0..lines.len()
        invariant
            all == split::pieces(lines@),
            table_texts(table@) == groups_in(all.take(i as int)),
    {
        let ghost before = table@;
        assert(all.take(i + 1).drop_last() =~= all.take(i as int));
        assert(all.take(i + 1).last() == lines@[i as int]@);
        let fields = split::split(lines[i].as_slice(), ':');
        assert(split::pieces(fields@) == split::split_on(lines@[i as int]@, ':'));
        if fields.len() >= 4 {
            assert(split::pieces(fields@)[3] == fields@[3]@);
            assert(split::pieces(fields@)[0] == fields@[0]@);
            match number::parse_uint(fields[3].as_slice(), 10, u32::MAX) {
                Ok(g) => {
                    let name = text::string_of(fields[0].as_slice());
                    let ghost shown = name@;
                    table.insert(g, name);
                    assert(table_texts(table@) =~= table_texts(before).insert(g, shown));
                },
                Err(_) => {},
            }
        }
    }
    assert(all.take(all.len() as int) =~= all);
    table
}

/// A group's name, or `gid` and its number.
pub open spec fn group_text(table: Map<u32, Seq<char>>, gid: u32) -> Seq<char> {
    if table.dom().contains(gid) {
        table[gid]
    } else {
        "gid"@ + number::dec(gid as nat)
    }
}

pub open spec fn group_texts(table: Map<u32, Seq<char>>, gids: Seq<u32>) -> Seq<Seq<char>> {
    Seq::new(gids.len(), |i: int| group_text(table, gids[i]))
}

fn name_group(table: &BTreeMap<u32, String>, gid: u32) -> (r: String)
    ensures
        r@ == group_text(table_texts(table@), gid),
{
    match table.get(&gid) {
        Some(name) => name.clone(),
        None => {
            let mut out = "gid".to_owned();
            out.append(number::to_dec(gid as u64).as_str());
            out
        },
    }
}

fn name_groups(table: &BTreeMap<u32, String>, gids: &Vec<u32>) -> (r: Vec<String>)
    ensures
        text::texts(r@) == group_texts(table_texts(table@), gids@),
{
    let mut out: Vec<String> = Vec::new();
    for i in 0..gids.len()
        invariant
            out@.len() == i,
            forall|j: int| 0 <= j < i ==> (#[trigger] out@[j])@ == group_text(
                table_texts(table@),
                gids@[j],
            ),
    {
        out.push(name_group(table, gids[i]));
    }
    assert(text::texts(out@) =~= group_texts(table_texts(table@), gids@));
    out
}

// ---------------------------------------------------------------- the section
/// The name of the user, of the two variables that may hold it.
pub open spec fn user_text(user: Option<String>, logname: Option<String>) -> Seq<char> {
    match user {
        Some(u) => u@,
        None => match logname {
            Some(l) => l@,
            None => "?"@,
        },
    }
}

/// Collects who runs the probe: from the process status, the group file (each
/// empty where it cannot be read) and the two variables with the user's name.
pub fn read_env(
    status: &str,
    groups: &str,
    user: Option<String>,
    logname: Option<String>,
) -> (r: Env)
    ensures
        r.user@ == user_text(user, logname),
        ({
            let ids = ids_in(split::lines_of(status@));
            &&& r.uid == ids.uid
            &&& r.euid == ids.euid
            &&& text::texts(r.groups@) == group_texts(
                groups_in(split::lines_of(groups@)),
                ids.gids,
            )
        }),
{
    let (uid, euid, gids) = read_ids(status);
    let table = read_groups(groups);
    let named = name_groups(&table, &gids);
    let shown = match user {
        Some(u) => u,
        None => match logname {
            Some(l) => l,
            None => "?".to_owned(),
        },
    };
    Env { user: shown, uid, euid, groups: named }
}

impl Env {
    /// Root, or a member of the group `input`.
    pub open spec fn spec_can_open(self) -> bool {
        self.euid == 0 || text::texts(self.groups@).contains("input"@)
    }

    pub fn can_open(&self) -> (r: bool)
        ensures
            r == self.spec_can_open(),
    {
        if self.euid == 0 {
            return true;
        }
        for i in 0..self.groups.len()
            invariant
                forall|j: int| 0 <= j < i ==> (#[trigger] self.groups@[j])@ != "input"@,
        {
            if text::same_text(self.groups[i].as_str(), "input") {
                assert(text::texts(self.groups@)[i as int] == "input"@);
                return true;
            }
        }
        assert forall|j: int| 0 <= j < self.groups@.len() implies text::texts(self.groups@)[j]
            != "input"@ by {
            assert(self.groups@[j]@ != "input"@);
        }
        false
    }

    pub open spec fn spec_report(self) -> Seq<char> {
        "\n== whoami / permissions ==\n  user: "@ + self.user@ + "  uid: "@ + number::dec(
            self.uid as nat,
        ) + "  euid: "@ + number::dec(self.euid as nat) + "\n  groups: "@ + text::joined(
            text::texts(self.groups@),
            " "@,
        ) + (if self.spec_can_open() {
            "\n  input group: YES (evdev + hidraw nodes should be openable)\n"@
        } else {
            "\n  input group: NO — wl-sniper will not be able to open /dev/input/* or /dev/hidraw*\n"@
        })
    }

    /// The section of the report.
    pub fn report(&self) -> (r: String)
        ensures
            r@ == self.spec_report(),
    {
        let mut out = "\n== whoami / permissions ==\n  user: ".to_owned();
        out.append(self.user.as_str());
        out.append("  uid: ");
        out.append(number::to_dec(self.uid as u64).as_str());
        out.append("  euid: ");
        out.append(number::to_dec(self.euid as u64).as_str());
        out.append("\n  groups: ");
        out.append(text::join(&self.groups, " ").as_str());
        out.append(
            if self.can_open() {
                "\n  input group: YES (evdev + hidraw nodes should be openable)\n"
            } else {
                "\n  input group: NO — wl-sniper will not be able to open /dev/input/* or /dev/hidraw*\n"
            },
        );
        out
    }
}

} // verus!
