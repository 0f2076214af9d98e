//! Paths as they are written: reading the text of a path into its
//! components, and writing it.

use vstd::prelude::*;

use crate::native_path;
use crate::native_path::{NativePath, PathModel};

verus! {

/// Whether a code unit is a slash or a backslash.
pub open spec fn is_separator(unit: u16) -> bool {
    unit == 92 || unit == 47
}

/// Whether a code unit stands between names; in a text that is taken as it
/// stands a slash does not.
pub open spec fn separates(unit: u16, verbatim: bool) -> bool {
    unit == 92 || (unit == 47 && !verbatim)
}

/// The names that are complete in a text, and the one that it may go on with.
pub open spec fn cut(units: Seq<u16>, verbatim: bool) -> (Seq<Seq<u16>>, Seq<u16>)
    decreases units.len(),
{
    if units.len() == 0 {
        (Seq::empty(), Seq::empty())
    } else {
        let (done, current) = cut(units.drop_last(), verbatim);
        if !separates(units.last(), verbatim) {
            (done, current.push(units.last()))
        } else if current.len() > 0 {
            (done.push(current), Seq::empty())
        } else {
            (done, Seq::empty())
        }
    }
}

/// The names in a text: what stands between separators and is not empty.
pub open spec fn names_in(units: Seq<u16>, verbatim: bool) -> Seq<Seq<u16>> {
    let (done, current) = cut(units, verbatim);
    if current.len() > 0 {
        done.push(current)
    } else {
        done
    }
}

/// Names without `.`, but for one in front where it is kept.
pub open spec fn without_current(names: Seq<Seq<u16>>, keep_first: bool) -> Seq<Seq<u16>>
    decreases names.len(),
{
    if names.len() == 0 {
        Seq::empty()
    } else {
        let head = without_current(names.drop_last(), keep_first);
        if names.last() == native_path::current_name() && !(keep_first && names.len() == 1) {
            head
        } else {
            head.push(names.last())
        }
    }
}

/// The place of the first separator in a text, from a place on; the end of the
/// text where there is none.
pub open spec fn next_separator(units: Seq<u16>, from: int, verbatim: bool) -> int
    decreases units.len() - from,
{
    if from >= units.len() || from < 0 {
        units.len() as int
    } else if separates(units[from], verbatim) {
        from
    } else {
        next_separator(units, from + 1, verbatim)
    }
}

/// Where the prefix of a text ends: behind a drive, a share, a device or what
/// a text that is taken as it stands begins with; at the start where there is
/// no prefix.
pub open spec fn prefix_end(units: Seq<u16>) -> int {
    if units.len() >= 2 && is_separator(units[0]) && is_separator(units[1]) {
        if native_path::is_verbatim_share(units) {
            let server = next_separator(units, 8, true);
            let share = next_separator(units, server + 1, true);
            if share > server + 1 {
                share
            } else {
                server
            }
        } else if native_path::is_verbatim(units) {
            if native_path::is_drive_at(units, 4) && (units.len() == 6 || is_separator(units[6])) {
                6
            } else {
                next_separator(units, 4, true)
            }
        } else if units.len() >= 4 && units[2] == 46 && is_separator(units[3]) {
            next_separator(units, 4, false)
        } else {
            let server = next_separator(units, 2, false);
            let share = next_separator(units, server + 1, false);
            if server > 2 && share > server + 1 {
                share
            } else {
                0
            }
        }
    } else if native_path::is_drive_at(units, 0) {
        2
    } else {
        0
    }
}

/// Whether a separator stands behind the prefix.
pub open spec fn root_is_written(units: Seq<u16>) -> bool {
    prefix_end(units) < units.len() && is_separator(units[prefix_end(units)])
}

/// Whether a root follows the prefix: it is written, or the prefix is that of a
/// share or device, behind which there is always one.
pub open spec fn is_rooted(units: Seq<u16>) -> bool {
    root_is_written(units) || (prefix_end(units) > 2 && !native_path::is_verbatim(units))
}

/// The text behind the prefix and the root.
pub open spec fn body(units: Seq<u16>) -> Seq<u16> {
    units.skip(
        prefix_end(units) + if root_is_written(units) {
            1int
        } else {
            0
        },
    )
}

/// The path that a text says. A name `.` is left out, but for one in front of a
/// relative path and for those in a text that is taken as it stands.
pub open spec fn parsed(units: Seq<u16>) -> PathModel {
    let verbatim = native_path::is_verbatim(units);
    let names = names_in(body(units), verbatim);
    PathModel {
        prefix: units.take(prefix_end(units)),
        rooted: is_rooted(units),
        parts: if verbatim {
            names
        } else {
            without_current(names, prefix_end(units) == 0 && !is_rooted(units))
        },
    }
}

/// The place of the first separator in a text, from a place on.
fn find_separator(units: &[u16], from: usize, verbatim: bool) -> (at: usize)
    ensures
        at == next_separator(units@, from as int, verbatim),
        at <= units@.len(),
        from <= units@.len() ==> from <= at,
{
    if from >= units.len() {
        return units.len();
    }
    let mut at: usize = from;
    while at < units.len() && !(units[at] == 92 || (units[at] == 47 && !verbatim))
        invariant
            from <= at <= units@.len(),
            next_separator(units@, at as int, verbatim) == next_separator(
                units@,
                from as int,
                verbatim,
            ),
        decreases units@.len() - at,
    {
        at = at + 1;
    }
    at
}

/// Where the share of a server ends, whose name starts at a place; at the end
/// of the server's name where there is no share.
fn find_share(units: &[u16], from: usize, verbatim: bool) -> (ends: (usize, usize))
    requires
        from <= units@.len(),
    ensures
        ends.0 == next_separator(units@, from as int, verbatim),
        ends.1 == next_separator(units@, ends.0 + 1, verbatim),
        from <= ends.0 <= units@.len(),
        ends.1 <= units@.len(),
{
    let server: usize = find_separator(units, from, verbatim);
    if server == units.len() {
        (server, server)
    } else {
        (server, find_separator(units, server + 1, verbatim))
    }
}

/// Where the prefix of a text ends.
fn find_prefix_end(units: &[u16]) -> (end: usize)
    ensures
        end == prefix_end(units@),
        end <= units@.len(),
{
    assert(units.len() == units@.len());
    if units.len() >= 2 && (units[0] == 92 || units[0] == 47) && (units[1] == 92 || units[1]
        == 47) {
        if native_path::begins_verbatim_share(units) {
            let (server, share) = find_share(units, 8, true);
            if share > server && share - server > 1 {
                share
            } else {
                server
            }
        } else if native_path::begins_verbatim(units) {
            if native_path::drive_at(units, 4) && (units.len() == 6 || units[6] == 92 || units[6]
                == 47) {
                6
            } else {
                find_separator(units, 4, true)
            }
        } else if units.len() >= 4 && units[2] == 46 && (units[3] == 92 || units[3] == 47) {
            find_separator(units, 4, false)
        } else {
            let (server, share) = find_share(units, 2, false);
            if server > 2 && share > server && share - server > 1 {
                share
            } else {
                0
            }
        }
    } else if native_path::drive_at(units, 0) {
        2
    } else {
        0
    }
}

/// The names in a text from a place on.
fn read_names(units: &[u16], from: usize, verbatim: bool) -> (names: Vec<Vec<u16>>)
    requires
        from <= units@.len(),
    ensures
        native_path::unit_lists(names@) == names_in(units@.skip(from as int), verbatim),
{
    let ghost rest = units@.skip(from as int);
    let mut names: Vec<Vec<u16>> = Vec::new();
    let mut current: Vec<u16> = Vec::new();
    assert(native_path::unit_lists(names@) =~= Seq::<Seq<u16>>::empty());
    assert(rest.take(0) =~= Seq::<u16>::empty());
    for i in from..units.len()
        invariant
            from <= units@.len(),
            rest == units@.skip(from as int),
            cut(rest.take(i - from), verbatim) == (native_path::unit_lists(names@), current@),
    {
        let ghost seen = rest.take(i - from + 1);
        let ghost held = native_path::unit_lists(names@);
        assert(seen.drop_last() =~= rest.take(i - from));
        assert(seen.last() == units@[i as int]);
        let unit: u16 = units[i];
        if unit == 92 || (unit == 47 && !verbatim) {
            if current.len() > 0 {
                names.push(current);
                assert(native_path::unit_lists(names@) =~= held.push(
                    cut(seen.drop_last(), verbatim).1,
                ));
                current = Vec::new();
            }
            assert(current@ =~= Seq::<u16>::empty());
        } else {
            current.push(unit);
        }
    }
    assert(rest.take(rest.len() as int) =~= rest);
    let ghost held = native_path::unit_lists(names@);
    if current.len() > 0 {
        let ghost last = current@;
        names.push(current);
        assert(native_path::unit_lists(names@) =~= held.push(last));
    }
    names
}

/// Names without `.`, but for one in front where it is kept.
fn leave_out_current(names: &Vec<Vec<u16>>, keep_first: bool) -> (kept: Vec<Vec<u16>>)
    ensures
        native_path::unit_lists(kept@) == without_current(
            native_path::unit_lists(names@),
            keep_first,
        ),
{
    let ghost lists = native_path::unit_lists(names@);
    let mut kept: Vec<Vec<u16>> = Vec::new();
    assert(native_path::unit_lists(kept@) =~= without_current(lists.take(0), keep_first));
    for i in 0..names.len()
        invariant
            lists == native_path::unit_lists(names@),
            native_path::unit_lists(kept@) == without_current(lists.take(i as int), keep_first),
    {
        let ghost before = native_path::unit_lists(kept@);
        assert(lists.take(i + 1).drop_last() =~= lists.take(i as int));
        assert(lists.take(i + 1).last() == names@[i as int]@);
        if (keep_first && i == 0) || !native_path::is_current(&names[i]) {
            kept.push(native_path::copy_units(&names[i]));
            assert(native_path::unit_lists(kept@) =~= before.push(names@[i as int]@));
        }
    }
    assert(lists.take(names@.len() as int) =~= lists);
    kept
}

/// The code units before a place.
fn units_before(units: &[u16], end: usize) -> (prefix: Vec<u16>)
    requires
        end <= units@.len(),
    ensures
        prefix@ == units@.take(end as int),
{
    let mut prefix: Vec<u16> = Vec::new();
    for i in 0..end
        invariant
            end <= units@.len(),
            prefix@ == units@.take(i as int),
    {
        prefix.push(units[i]);
        assert(prefix@ =~= units@.take(i + 1));
    }
    prefix
}

impl NativePath {
    /// The path that a text says: a drive, a share or another prefix, and the
    /// names behind it.
    pub fn parse(units: &[u16]) -> (path: NativePath)
        ensures
            path@ == parsed(units@),
    {
        assert(units.len() == units@.len());
        let verbatim = native_path::begins_verbatim(units);
        let end: usize = find_prefix_end(units);
        let written = end < units.len() && (units[end] == 92 || units[end] == 47);
        let rooted = written || (end > 2 && !verbatim);
        let from: usize = if written {
            end + 1
        } else {
            end
        };
        let names = read_names(units, from, verbatim);
        assert(units@.skip(from as int) == body(units@));
        let parts = if verbatim {
            names
        } else {
            leave_out_current(&names, end == 0 && !rooted)
        };
        NativePath { prefix: units_before(units, end), rooted, parts }
    }

    /// The text of the path.
    pub fn text_units(&self) -> (units: Vec<u16>)
        ensures
            units@ == self@.units(),
    {
        let ghost lists = native_path::unit_lists(self.parts@);
        let mut units = native_path::copy_units(&self.prefix);
        if self.rooted {
            units.push(92);
        }
        let ghost front = units@;
        for i in 0..self.parts.len()
            invariant
                lists == native_path::unit_lists(self.parts@),
                units@ == front + native_path::joined(lists.take(i as int)),
        {
            let ghost taken = lists.take(i + 1);
            assert(taken.drop_last() =~= lists.take(i as int));
            assert(taken.last() == self.parts@[i as int]@);
            if i > 0 {
                units.push(92);
            }
            native_path::append_units(&mut units, &self.parts[i]);
            assert(units@ =~= front + native_path::joined(taken));
        }
        assert(lists.take(self.parts@.len() as int) =~= lists);
        assert(units@ =~= self@.units());
        units
    }
}

/// Whether a name can stand in a text: it is not empty, and nothing in it
/// stands between names.
pub open spec fn is_name(name: Seq<u16>, verbatim: bool) -> bool {
    &&& name.len() > 0
    &&& forall|i: int| 0 <= i < name.len() ==> !separates(#[trigger] name[i], verbatim)
}

/// Whether names can stand in a text.
pub open spec fn are_names(names: Seq<Seq<u16>>, verbatim: bool) -> bool {
    forall|i: int| 0 <= i < names.len() ==> is_name(#[trigger] names[i], verbatim)
}

/// A text goes on with a name.
proof fn name_goes_on(units: Seq<u16>, name: Seq<u16>, verbatim: bool)
    requires
        forall|i: int| 0 <= i < name.len() ==> !separates(#[trigger] name[i], verbatim),
    ensures
        cut(units + name, verbatim) == (cut(units, verbatim).0, cut(units, verbatim).1 + name),
    decreases name.len(),
{
    if name.len() == 0 {
        assert(units + name =~= units);
        assert(cut(units, verbatim).1 + name =~= cut(units, verbatim).1);
    } else {
        let shorter = name.drop_last();
        assert forall|i: int| 0 <= i < shorter.len() implies !separates(
            #[trigger] shorter[i],
            verbatim,
        ) by {
            assert(shorter[i] == name[i]);
        }
        name_goes_on(units, shorter, verbatim);
        assert((units + name).drop_last() =~= units + shorter);
        assert((units + name).last() == name[name.len() - 1]);
        assert((cut(units, verbatim).1 + shorter).push(name.last()) =~= cut(units, verbatim).1
            + name);
    }
}

/// Names that are written one behind the other are found again.
proof fn names_are_found(names: Seq<Seq<u16>>, verbatim: bool)
    requires
        are_names(names, verbatim),
    ensures
        names_in(native_path::joined(names), verbatim) == names,
        names.len() > 0 ==> cut(native_path::joined(names), verbatim) == (
            names.drop_last(),
            names.last(),
        ),
    decreases names.len(),
{
    let whole = native_path::joined(names);
    let none = Seq::<u16>::empty();
    assert(cut(none, verbatim) == (Seq::<Seq<u16>>::empty(), none));
    if names.len() == 0 {
        assert(names =~= Seq::<Seq<u16>>::empty());
    } else {
        let before = names.drop_last();
        let last = names.last();
        assert(is_name(names[names.len() - 1], verbatim));
        assert(none + last =~= last);
        assert(are_names(before, verbatim)) by {
            assert forall|i: int| 0 <= i < before.len() implies is_name(
                #[trigger] before[i],
                verbatim,
            ) by {
                assert(before[i] == names[i]);
            }
        }
        names_are_found(before, verbatim);
        if before.len() == 0 {
            name_goes_on(none, last, verbatim);
            assert(names.drop_last() =~= Seq::<Seq<u16>>::empty());
        } else {
            let shorter = native_path::joined(before);
            assert(is_name(before[before.len() - 1], verbatim));
            assert(whole =~= shorter.push(92u16) + last);
            assert(shorter.push(92u16).drop_last() =~= shorter);
            assert(before.drop_last().push(before.last()) =~= before);
            assert(cut(shorter.push(92u16), verbatim) == (before, none));
            name_goes_on(shorter.push(92u16), last, verbatim);
        }
        assert(names.drop_last().push(names.last()) =~= names);
    }
}

/// Where no name is `.`, none is left out.
proof fn names_are_kept(names: Seq<Seq<u16>>)
    requires
        !names.contains(native_path::current_name()),
    ensures
        without_current(names, false) == names,
    decreases names.len(),
{
    if names.len() > 0 {
        let before = names.drop_last();
        assert(names.contains(names[names.len() - 1]));
        assert(!before.contains(native_path::current_name())) by {
            if before.contains(native_path::current_name()) {
                let i = choose|i: int|
                    0 <= i < before.len() && before[i] == native_path::current_name();
                assert(names[i] == native_path::current_name());
            }
        }
        names_are_kept(before);
        assert(before.push(names.last()) =~= names);
    } else {
        assert(names =~= Seq::<Seq<u16>>::empty());
    }
}

/// A text behind the root of a drive is read as its names.
proof fn drive_is_found(path: PathModel)
    requires
        is_drive_root(path),
        are_names(path.parts, native_path::is_verbatim(path.prefix)),
    ensures
        parsed(path.units()) == (PathModel {
            parts: if native_path::is_verbatim(path.prefix) {
                path.parts
            } else {
                without_current(path.parts, false)
            },
            ..path
        }),
{
    let units = path.units();
    let names = native_path::joined(path.parts);
    let end = path.prefix.len() as int;
    let verbatim = native_path::is_verbatim(path.prefix);
    assert(units =~= path.prefix + (seq![92u16] + names));
    assert(units[end] == 92);
    assert forall|i: int| 0 <= i < end implies units[i] == path.prefix[i] by {}
    assert(native_path::is_verbatim(units) == verbatim);
    assert(prefix_end(units) == end);
    assert(units.take(end) =~= path.prefix);
    assert(body(units) =~= names);
    names_are_found(path.parts, verbatim);
}

/// Whether a path starts at the root of a drive, verbatim or not.
pub open spec fn is_drive_root(path: PathModel) -> bool {
    &&& path.rooted
    &&& {
        ||| path.prefix.len() == 2 && native_path::is_drive_at(path.prefix, 0)
        ||| path.prefix.len() == 6 && native_path::is_verbatim(path.prefix)
            && native_path::is_drive_at(path.prefix, 4)
    }
}

/// The text of a path from the root of a drive says that path.
pub proof fn written_paths_are_read_back(path: PathModel)
    requires
        is_drive_root(path),
        are_names(path.parts, native_path::is_verbatim(path.prefix)),
        native_path::is_verbatim(path.prefix) || !path.parts.contains(native_path::current_name()),
    ensures
        parsed(path.units()) == path,
{
    drive_is_found(path);
    if !native_path::is_verbatim(path.prefix) {
        names_are_kept(path.parts);
    }
}

/// The root of a drive with nothing but `.` behind it is read as a volume root.
pub proof fn current_names_are_no_names(path: PathModel)
    requires
        is_drive_root(path),
        !native_path::is_verbatim(path.prefix),
        forall|i: int|
            0 <= i < path.parts.len() ==> #[trigger] path.parts[i] == native_path::current_name(),
    ensures
        parsed(path.units()).is_volume_root(),
{
    drive_is_found(path);
    current_names_are_left_out(path.parts);
}

/// Where all names are `.`, none is kept.
proof fn current_names_are_left_out(names: Seq<Seq<u16>>)
    requires
        forall|i: int| 0 <= i < names.len() ==> #[trigger] names[i] == native_path::current_name(),
    ensures
        without_current(names, false) == Seq::<Seq<u16>>::empty(),
    decreases names.len(),
{
    if names.len() > 0 {
        let before = names.drop_last();
        assert(names[names.len() - 1] == native_path::current_name());
        assert forall|i: int| 0 <= i < before.len() implies #[trigger] before[i]
            == native_path::current_name() by {
            assert(names[i] == before[i]);
        }
        current_names_are_left_out(before);
    }
}

/// What a relative path, or one from the root of the drive, is written as is read
/// back as that path.
pub proof fn relative_paths_are_read_back(path: PathModel)
    requires
        path.prefix.len() == 0,
        path.parts.len() > 0,
        are_names(path.parts, false),
        path.rooted || !native_path::is_drive_at(path.units(), 0),
        forall|i: int|
            0 <= i < path.parts.len() && (i > 0 || path.rooted) ==> #[trigger] path.parts[i]
                != native_path::current_name(),
    ensures
        parsed(path.units()) == path,
{
    let names = native_path::joined(path.parts);
    let units = path.units();
    names_are_found(path.parts, false);
    starts_with_its_first_name(path.parts);
    let first = path.parts[0];
    assert(is_name(first, false));
    assert(names[0] == first[0]);
    assert(!separates(first[0], false));
    assert(path.prefix =~= Seq::empty());
    if path.rooted {
        assert(units =~= seq![92u16] + names);
        assert(units[1] == first[0]);
        assert(body(units) =~= names);
        assert(!path.parts.contains(native_path::current_name()));
        names_are_kept(path.parts);
    } else {
        assert(units =~= names);
        assert(body(units) =~= names);
        first_is_kept(path.parts);
    }
    assert(units.take(0) =~= path.prefix);
}

/// Joined names start with the first of them.
proof fn starts_with_its_first_name(names: Seq<Seq<u16>>)
    requires
        names.len() > 0,
        are_names(names, false),
    ensures
        native_path::joined(names).len() >= names[0].len(),
        native_path::joined(names).take(names[0].len() as int) == names[0],
        native_path::joined(names)[0] == names[0][0],
    decreases names.len(),
{
    assert(is_name(names[0], false));
    if names.len() > 1 {
        let front = names.drop_last();
        assert(forall|i: int| 0 <= i < front.len() ==> #[trigger] front[i] == names[i]);
        starts_with_its_first_name(front);
        assert(native_path::joined(names).take(names[0].len() as int) =~= names[0]);
    } else {
        assert(names[0].take(names[0].len() as int) =~= names[0]);
    }
}

/// Only the first of some names may lead nowhere, and it is kept.
proof fn first_is_kept(names: Seq<Seq<u16>>)
    requires
        forall|i: int|
            0 < i < names.len() ==> #[trigger] names[i] != native_path::current_name(),
    ensures
        without_current(names, true) == names,
    decreases names.len(),
{
    if names.len() > 0 {
        let front = names.drop_last();
        assert(forall|i: int| 0 <= i < front.len() ==> #[trigger] front[i] == names[i]);
        first_is_kept(front);
        if names.len() > 1 {
            assert(names[names.len() - 1] != native_path::current_name());
        }
        assert(front.push(names.last()) =~= names);
    }
}

} // verus!
