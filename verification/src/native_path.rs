//! Windows paths as their components, and the identity under which two
//! spellings are one path.
//!
//! What the components of a path are, and how paths are taken apart and put
//! together, is as `std::path` has it on Windows. The identity of paths is this
//! library's own reading: two names are one where their lower-case forms are
//! the same, `..` takes back the name before it, and a verbatim drive or share
//! is the drive or share that it stands for.

use vstd::prelude::*;

use crate::ordering;
use crate::outside;
use crate::text;
use crate::utf16;

verus! {

/// A path as its prefix (a drive, a share or another one), whether a root
/// follows it, and the names behind them, as UTF-16 code units.
#[derive(Debug, PartialEq, Eq)]
pub struct NativePath {
    /// The drive, such as `C:` or `\\?\C:`, the share or another prefix, as it
    /// is written; empty where there is none.
    pub prefix: Vec<u16>,
    /// Whether a root follows the prefix.
    pub rooted: bool,
    /// The names, with `..` as it is written.
    pub parts: Vec<Vec<u16>>,
}

/// What a path holds.
#[verifier::ext_equal]
pub struct PathModel {
    /// The drive, the share or another prefix.
    pub prefix: Seq<u16>,
    /// Whether a root follows it.
    pub rooted: bool,
    /// The names.
    pub parts: Seq<Seq<u16>>,
}

impl View for NativePath {
    type V = PathModel;

    open spec fn view(&self) -> PathModel {
        PathModel { prefix: self.prefix@, rooted: self.rooted, parts: unit_lists(self.parts@) }
    }
}

/// The sequences that a list of vectors holds.
pub open spec fn unit_lists(parts: Seq<Vec<u16>>) -> Seq<Seq<u16>> {
    parts.map_values(|part: Vec<u16>| part@)
}

/// The paths that a list holds.
pub open spec fn models(paths: Seq<NativePath>) -> Seq<PathModel> {
    paths.map_values(|path: NativePath| path@)
}

/// The name of the current directory.
pub open spec fn current_name() -> Seq<u16> {
    seq![46u16]
}

/// The name of the parent directory.
pub open spec fn parent_name() -> Seq<u16> {
    seq![46u16, 46u16]
}

/// The names with `.` left out and each `..` taken together with the name
/// before it; at the root `..` stays at the root.
pub open spec fn normalized_parts(rooted: bool, parts: Seq<Seq<u16>>) -> Seq<Seq<u16>>
    decreases parts.len(),
{
    if parts.len() == 0 {
        Seq::empty()
    } else {
        let head = normalized_parts(rooted, parts.drop_last());
        let last = parts.last();
        if last == current_name() {
            head
        } else if last == parent_name() {
            if head.len() > 0 && head.last() != parent_name() {
                head.drop_last()
            } else if rooted {
                head
            } else {
                head.push(last)
            }
        } else {
            head.push(last)
        }
    }
}

/// Whether a prefix has a text taken as it stands: it begins with `\\?\`.
pub open spec fn is_verbatim(prefix: Seq<u16>) -> bool {
    prefix.len() >= 4 && prefix[0] == 92 && prefix[1] == 92 && prefix[2] == 63 && prefix[3] == 92
}

/// Whether a drive is written at a place: a letter and a colon.
pub open spec fn is_drive_at(units: Seq<u16>, i: int) -> bool {
    &&& 0 <= i
    &&& i + 2 <= units.len()
    &&& 65 <= units[i] <= 90 || 97 <= units[i] <= 122
    &&& units[i + 1] == 58
}

/// Whether a verbatim prefix is that of a share: `UNC` and a separator follow.
pub open spec fn is_verbatim_share(prefix: Seq<u16>) -> bool {
    &&& is_verbatim(prefix)
    &&& prefix.len() >= 8
    &&& prefix[4] == 85 && prefix[5] == 78 && prefix[6] == 67
    &&& prefix[7] == 92 || prefix[7] == 47
}

/// A code unit with a backslash for a slash.
pub open spec fn plain_separator(unit: u16) -> u16 {
    if unit == 47 {
        92
    } else {
        unit
    }
}

/// The prefix under which spellings of one path agree: the drive or share that
/// a verbatim one stands for, and backslashes for slashes.
pub open spec fn plain_prefix(prefix: Seq<u16>) -> Seq<u16> {
    if is_verbatim_share(prefix) {
        seq![92u16, 92u16] + prefix.skip(8)
    } else if is_verbatim(prefix) {
        if prefix.len() == 6 && is_drive_at(prefix, 4) {
            prefix.skip(4)
        } else {
            prefix
        }
    } else {
        prefix.map_values(|unit: u16| plain_separator(unit))
    }
}

/// Names behind others, where the text is taken as it stands: `.` is left out,
/// and `..` takes back a name before it.
pub open spec fn names_behind(base: Seq<Seq<u16>>, names: Seq<Seq<u16>>) -> Seq<Seq<u16>>
    decreases names.len(),
{
    if names.len() == 0 {
        base
    } else {
        let head = names_behind(base, names.drop_last());
        let last = names.last();
        if last == current_name() {
            head
        } else if last == parent_name() {
            if head.len() > 0 && head.last() != current_name() && head.last() != parent_name() {
                head.drop_last()
            } else {
                head
            }
        } else {
            head.push(last)
        }
    }
}

/// Code units in the case under which two spellings are one name: lower
/// case, where they spell a text.
pub open spec fn fold_units(units: Seq<u16>) -> Seq<u16> {
    match utf16::decode(units) {
        Some(chars) => utf16::encode(outside::unicode_lower(chars)),
        None => units,
    }
}

/// One name as words of a key: every unit raised by one, and a zero behind.
pub open spec fn name_words(units: Seq<u16>) -> Seq<u32> {
    fold_units(units).map_values(|unit: u16| (unit as u32 + 1) as u32).push(0)
}

/// Names as words of a key.
pub open spec fn names_words(names: Seq<Seq<u16>>) -> Seq<u32>
    decreases names.len(),
{
    if names.len() == 0 {
        Seq::empty()
    } else {
        names_words(names.drop_last()) + name_words(names.last())
    }
}

impl PathModel {
    /// Whether the names start at a root: one follows the prefix, or the prefix
    /// is taken as it stands.
    pub open spec fn has_root(self) -> bool {
        self.rooted || is_verbatim(self.prefix)
    }

    /// Whether the path names one place whatever the current directory.
    pub open spec fn is_absolute(self) -> bool {
        self.prefix.len() > 0 && self.has_root()
    }

    /// Whether nothing is written.
    pub open spec fn is_blank(self) -> bool {
        self.prefix.len() == 0 && !self.rooted && self.parts.len() == 0
    }

    /// Whether a name leads to a parent directory.
    pub open spec fn has_parent_traversal(self) -> bool {
        exists|i: int| 0 <= i < self.parts.len() && #[trigger] self.parts[i] == parent_name()
    }

    /// Whether a code unit is zero.
    pub open spec fn has_nul(self) -> bool {
        self.prefix.contains(0) || exists|i: int|
            0 <= i < self.parts.len() && (#[trigger] self.parts[i]).contains(0)
    }

    /// The path without its last name.
    pub open spec fn parent(self) -> Option<PathModel> {
        if self.parts.len() == 0 {
            None
        } else {
            Some(PathModel { parts: self.parts.drop_last(), ..self })
        }
    }

    /// A path taken relative to this one.
    pub open spec fn join(self, relative: PathModel) -> PathModel {
        if relative.prefix.len() > 0 {
            relative
        } else if is_verbatim(self.prefix) && !relative.is_blank() {
            let parts = names_behind(
                if relative.rooted {
                    Seq::empty()
                } else {
                    self.parts
                },
                relative.parts,
            );
            PathModel {
                prefix: self.prefix,
                rooted: self.rooted || relative.rooted || parts.len() > 0,
                parts,
            }
        } else if relative.rooted {
            PathModel { prefix: self.prefix, ..relative }
        } else if self.is_blank() {
            relative
        } else {
            PathModel {
                prefix: self.prefix,
                rooted: self.has_root(),
                parts: self.parts + without_first_current(relative.parts),
            }
        }
    }

    /// What lies in the directory under a name.
    pub open spec fn child(self, name: Seq<u16>) -> PathModel {
        PathModel { prefix: self.prefix, rooted: self.has_root(), parts: self.parts.push(name) }
    }

    /// The number of components, the prefix and the root among them.
    pub open spec fn component_count(self) -> nat {
        (if self.prefix.len() > 0 {
            1nat
        } else {
            0
        }) + (if self.rooted {
            1nat
        } else {
            0
        }) + self.parts.len()
    }

    /// The path without `.` and, as far as they can be taken back, `..`, behind
    /// the prefix under which spellings agree.
    pub open spec fn normalized(self) -> PathModel {
        PathModel {
            prefix: plain_prefix(self.prefix),
            rooted: self.has_root(),
            parts: normalized_parts(self.has_root(), self.parts),
        }
    }

    /// The words under which two spellings of one path agree.
    pub open spec fn key(self) -> Seq<u32> {
        name_words(plain_prefix(self.prefix)) + seq![if self.has_root() {
            1u32
        } else {
            0u32
        }] + names_words(self.normalized().parts)
    }

    /// Whether two spellings are one path.
    pub open spec fn same_path(self, other: PathModel) -> bool {
        self.key() == other.key()
    }

    /// Whether the path is another one or lies below it.
    pub open spec fn is_within(self, root: PathModel) -> bool {
        root.key().is_prefix_of(self.key())
    }

    /// Whether the path is the root of a drive or share: a prefix and a root,
    /// and nothing else.
    pub open spec fn is_volume_root(self) -> bool {
        self.prefix.len() > 0 && self.rooted && self.parts.len() == 0
    }

    /// The code units of the path's text.
    pub open spec fn units(self) -> Seq<u16> {
        self.prefix + (if self.rooted {
            seq![92u16]
        } else {
            Seq::empty()
        }) + joined(self.parts)
    }

    /// The code units under which spellings of one path agree, as text.
    pub open spec fn canonical_units(self) -> Seq<u16> {
        fold_units(self.normalized().units())
    }
}

/// Names without a `.` in front.
pub open spec fn without_first_current(names: Seq<Seq<u16>>) -> Seq<Seq<u16>> {
    if names.len() > 0 && names[0] == current_name() {
        names.skip(1)
    } else {
        names
    }
}

/// The keys of paths.
pub open spec fn path_keys(paths: Seq<PathModel>) -> Seq<Seq<u32>> {
    paths.map_values(|path: PathModel| path.key())
}

/// Paths in the order of their keys and once each, with one more; the first
/// spelling of a path is kept.
pub open spec fn with_path(paths: Seq<PathModel>, path: PathModel) -> Seq<PathModel> {
    let keys = path_keys(paths);
    if ordering::is_present(keys, path.key()) {
        paths
    } else {
        paths.insert(ordering::slot(keys, path.key()), path)
    }
}

/// Names with a backslash between them.
pub open spec fn joined(names: Seq<Seq<u16>>) -> Seq<u16>
    decreases names.len(),
{
    if names.len() == 0 {
        Seq::empty()
    } else if names.len() == 1 {
        names[0]
    } else {
        joined(names.drop_last()).push(92u16) + names.last()
    }
}

/// A copy of code units.
pub fn copy_units(units: &Vec<u16>) -> (copy: Vec<u16>)
    ensures
        copy@ == units@,
{
    let mut copy: Vec<u16> = Vec::new();
    for i in 0..units.len()
        invariant
            copy@ == units@.take(i as int),
    {
        copy.push(units[i]);
    }
    assert(units@.take(units@.len() as int) =~= units@);
    copy
}

/// Appends code units to others.
pub fn append_units(units: &mut Vec<u16>, more: &Vec<u16>)
    ensures
        final(units)@ == old(units)@ + more@,
{
    let ghost before = units@;
    for i in 0..more.len()
        invariant
            before == old(units)@,
            units@ == before + more@.take(i as int),
    {
        units.push(more[i]);
        assert(units@ =~= before + more@.take(i + 1));
    }
    assert(more@.take(more@.len() as int) =~= more@);
}

/// Whether two sequences of code units are the same.
pub fn same_units(a: &Vec<u16>, b: &Vec<u16>) -> (same: bool)
    ensures
        same == (a@ == b@),
{
    if a.len() != b.len() {
        return false;
    }
    for i in 0..a.len()
        invariant
            a.len() == b.len(),
            forall|j: int| 0 <= j < i ==> a@[j] == b@[j],
    {
        if a[i] != b[i] {
            return false;
        }
    }
    assert(a@ =~= b@);
    true
}

/// Whether a name is `.`.
pub fn is_current(units: &Vec<u16>) -> (yes: bool)
    ensures
        yes == (units@ == current_name()),
{
    let yes = units.len() == 1 && units[0] == 46;
    assert(yes ==> units@ =~= current_name());
    yes
}

/// Whether a name is `..`.
fn is_parent(units: &Vec<u16>) -> (yes: bool)
    ensures
        yes == (units@ == parent_name()),
{
    let yes = units.len() == 2 && units[0] == 46 && units[1] == 46;
    assert(yes ==> units@ =~= parent_name());
    yes
}

/// Whether a prefix has a text taken as it stands.
pub fn begins_verbatim(prefix: &[u16]) -> (yes: bool)
    ensures
        yes == is_verbatim(prefix@),
{
    prefix.len() >= 4 && prefix[0] == 92 && prefix[1] == 92 && prefix[2] == 63 && prefix[3] == 92
}

/// Whether a verbatim prefix is that of a share.
pub fn begins_verbatim_share(prefix: &[u16]) -> (yes: bool)
    ensures
        yes == is_verbatim_share(prefix@),
{
    begins_verbatim(prefix) && prefix.len() >= 8 && prefix[4] == 85 && prefix[5] == 78 && prefix[6]
        == 67 && (prefix[7] == 92 || prefix[7] == 47)
}

/// Whether a drive is written at a place.
pub fn drive_at(units: &[u16], i: usize) -> (yes: bool)
    requires
        i <= units@.len(),
    ensures
        yes == is_drive_at(units@, i as int),
{
    units.len() - i >= 2 && ((65 <= units[i] && units[i] <= 90) || (97 <= units[i] && units[i]
        <= 122)) && units[i + 1] == 58
}

/// The prefix under which spellings of one path agree.
fn plain(prefix: &Vec<u16>) -> (result: Vec<u16>)
    ensures
        result@ == plain_prefix(prefix@),
{
    let verbatim = begins_verbatim(prefix);
    let share = begins_verbatim_share(prefix);
    let mut result: Vec<u16> = Vec::new();
    let mut from: usize = 0;
    if share {
        result.push(92);
        result.push(92);
        from = 8;
    } else if verbatim && prefix.len() == 6 && drive_at(prefix, 4) {
        from = 4;
    }
    let ghost front = result@;
    let ghost rest = prefix@.skip(from as int).map_values(
        |unit: u16|
            if verbatim {
                unit
            } else {
                plain_separator(unit)
            },
    );
    for i in from..prefix.len()
        invariant
            from <= prefix@.len(),
            rest == prefix@.skip(from as int).map_values(
                |unit: u16|
                    if verbatim {
                        unit
                    } else {
                        plain_separator(unit)
                    },
            ),
            result@ == front + rest.take(i - from),
    {
        let unit: u16 = prefix[i];
        let ghost before = result@;
        result.push(
            if !verbatim && unit == 47 {
                92
            } else {
                unit
            },
        );
        assert(result@ =~= front + rest.take(i - from + 1));
    }
    assert(rest.take(prefix@.len() - from) =~= rest);
    assert(result@ =~= plain_prefix(prefix@));
    result
}

/// Names behind others, where the text is taken as it stands.
fn put_behind(base: Vec<Vec<u16>>, names: &Vec<Vec<u16>>) -> (result: Vec<Vec<u16>>)
    ensures
        unit_lists(result@) == names_behind(unit_lists(base@), unit_lists(names@)),
{
    let ghost first = unit_lists(base@);
    let ghost lists = unit_lists(names@);
    let mut result = base;
    assert(lists.take(0) =~= Seq::<Seq<u16>>::empty());
    for i in 0..names.len()
        invariant
            lists == unit_lists(names@),
            unit_lists(result@) == names_behind(first, lists.take(i as int)),
    {
        let ghost before = unit_lists(result@);
        assert(lists.take(i + 1).drop_last() =~= lists.take(i as int));
        assert(lists.take(i + 1).last() == names@[i as int]@);
        assert(before.len() == result@.len());
        if is_current(&names[i]) {
        } else if is_parent(&names[i]) {
            let count: usize = result.len();
            assert(count > 0 ==> before.last() == result@[count - 1]@);
            if count > 0 && !is_current(&result[count - 1]) && !is_parent(&result[count - 1]) {
                result.pop();
                assert(unit_lists(result@) =~= before.drop_last());
            }
        } else {
            result.push(copy_units(&names[i]));
            assert(unit_lists(result@) =~= before.push(names@[i as int]@));
        }
    }
    assert(lists.take(names@.len() as int) =~= lists);
    result
}

/// The names with `.` and `..` taken out.
fn normalize(rooted: bool, parts: &Vec<Vec<u16>>) -> (names: Vec<Vec<u16>>)
    ensures
        unit_lists(names@) == normalized_parts(rooted, unit_lists(parts@)),
{
    let ghost lists = unit_lists(parts@);
    let mut names: Vec<Vec<u16>> = Vec::new();
    assert(unit_lists(names@) =~= normalized_parts(rooted, lists.take(0)));
    for i in 0..parts.len()
        invariant
            lists == unit_lists(parts@),
            unit_lists(names@) == normalized_parts(rooted, lists.take(i as int)),
    {
        let ghost before = unit_lists(names@);
        assert(lists.take(i + 1).drop_last() =~= lists.take(i as int));
        assert(lists.take(i + 1).last() == parts@[i as int]@);
        assert(before.len() == names@.len());
        if is_current(&parts[i]) {
        } else if is_parent(&parts[i]) {
            let count: usize = names.len();
            assert(count > 0 ==> before.last() == names@[count - 1]@);
            if count > 0 && !is_parent(&names[count - 1]) {
                names.pop();
                assert(unit_lists(names@) =~= before.drop_last());
            } else if !rooted {
                names.push(copy_units(&parts[i]));
                assert(unit_lists(names@) =~= before.push(parts@[i as int]@));
            }
        } else {
            names.push(copy_units(&parts[i]));
            assert(unit_lists(names@) =~= before.push(parts@[i as int]@));
        }
    }
    assert(lists.take(parts@.len() as int) =~= lists);
    names
}

/// Code units in the case under which two spellings are one name.
pub fn folded(units: &Vec<u16>) -> (result: Vec<u16>)
    ensures
        result@ == fold_units(units@),
{
    match utf16::decode_units(units) {
        Some(chars) => utf16::encode_text(&outside::lower_case(&text::text_of(&chars))),
        None => copy_units(units),
    }
}

/// Appends the words of one name to a key.
fn push_name(words: &mut Vec<u32>, units: &Vec<u16>)
    ensures
        final(words)@ == old(words)@ + name_words(units@),
{
    let name = folded(units);
    let ghost before = words@;
    for i in 0..name.len()
        invariant
            before == old(words)@,
            words@ == before + name@.take(i as int).map_values(
                |unit: u16| (unit as u32 + 1) as u32,
            ),
    {
        words.push(name[i] as u32 + 1);
        assert(words@ =~= before + name@.take(i + 1).map_values(
            |unit: u16| (unit as u32 + 1) as u32,
        ));
    }
    assert(name@.take(name@.len() as int) =~= name@);
    words.push(0);
    assert(words@ =~= before + name_words(units@));
}

impl Clone for NativePath {
    fn clone(&self) -> (copy: Self)
        ensures
            copy@ == self@,
    {
        let mut parts: Vec<Vec<u16>> = Vec::new();
        for i in 0..self.parts.len()
            invariant
                parts@.len() == i,
                forall|j: int| 0 <= j < i ==> (#[trigger] parts@[j])@ == self.parts@[j]@,
        {
            parts.push(copy_units(&self.parts[i]));
        }
        assert(unit_lists(parts@) =~= unit_lists(self.parts@));
        NativePath { prefix: copy_units(&self.prefix), rooted: self.rooted, parts }
    }
}

impl NativePath {
    /// Whether the path names one place whatever the current directory.
    pub fn is_absolute(&self) -> (yes: bool)
        ensures
            yes == self@.is_absolute(),
    {
        self.prefix.len() > 0 && self.starts_at_root()
    }

    /// Whether the names start at a root.
    fn starts_at_root(&self) -> (yes: bool)
        ensures
            yes == self@.has_root(),
    {
        self.rooted || begins_verbatim(&self.prefix)
    }

    /// Whether a name leads to a parent directory.
    pub fn contains_parent_traversal(&self) -> (yes: bool)
        ensures
            yes == self@.has_parent_traversal(),
    {
        for i in 0..self.parts.len()
            invariant
                forall|j: int| 0 <= j < i ==> #[trigger] self@.parts[j] != parent_name(),
        {
            assert(self@.parts[i as int] == self.parts@[i as int]@);
            if is_parent(&self.parts[i]) {
                return true;
            }
        }
        false
    }

    /// Whether a code unit is zero.
    pub fn contains_nul(&self) -> (yes: bool)
        ensures
            yes == self@.has_nul(),
    {
        if has_zero(&self.prefix) {
            return true;
        }
        for i in 0..self.parts.len()
            invariant
                !self.prefix@.contains(0),
                forall|j: int| 0 <= j < i ==> !(#[trigger] self@.parts[j]).contains(0),
        {
            assert(self@.parts[i as int] == self.parts@[i as int]@);
            if has_zero(&self.parts[i]) {
                return true;
            }
        }
        false
    }

    /// The path without its last name.
    pub fn parent(&self) -> (parent: Option<NativePath>)
        ensures
            match parent {
                Some(parent) => self@.parent() == Some(parent@),
                None => self@.parent() is None,
            },
    {
        if self.parts.len() == 0 {
            None
        } else {
            let mut path = self.clone();
            let ghost before = path@;
            path.parts.pop();
            assert(path@.parts =~= before.parts.drop_last());
            Some(path)
        }
    }

    /// A path taken relative to this one.
    pub fn join(&self, relative: &NativePath) -> (path: NativePath)
        ensures
            path@ == self@.join(relative@),
    {
        if relative.prefix.len() > 0 {
            return relative.clone();
        }
        let blank = !relative.rooted && relative.parts.len() == 0;
        if begins_verbatim(&self.prefix) && !blank {
            let base = self.clone();
            let none: Vec<Vec<u16>> = Vec::new();
            assert(unit_lists(none@) =~= Seq::<Seq<u16>>::empty());
            let parts = put_behind(
                if relative.rooted {
                    none
                } else {
                    base.parts
                },
                &relative.parts,
            );
            assert(unit_lists(parts@).len() == parts@.len());
            return NativePath {
                prefix: base.prefix,
                rooted: self.rooted || relative.rooted || parts.len() > 0,
                parts,
            };
        }
        if relative.rooted {
            let other = relative.clone();
            return NativePath {
                prefix: copy_units(&self.prefix),
                rooted: true,
                parts: other.parts,
            };
        }
        if self.prefix.len() == 0 && !self.rooted && self.parts.len() == 0 {
            return relative.clone();
        }
        let mut path = self.clone();
        path.rooted = self.starts_at_root();
        let ghost front = path@.parts;
        let ghost added = without_first_current(relative@.parts);
        let mut from: usize = 0;
        if relative.parts.len() > 0 && is_current(&relative.parts[0]) {
            assert(relative@.parts[0] == relative.parts@[0]@);
            from = 1;
        } else if relative.parts.len() > 0 {
            assert(relative@.parts[0] == relative.parts@[0]@);
        }
        assert(added =~= relative@.parts.skip(from as int));
        assert(added.take(0) =~= Seq::<Seq<u16>>::empty());
        for i in from..relative.parts.len()
            invariant
                from <= relative.parts@.len(),
                path@.prefix == self@.prefix,
                path@.rooted == self@.has_root(),
                front == self@.parts,
                added == relative@.parts.skip(from as int),
                path@.parts == front + added.take(i - from),
        {
            let ghost before = path@.parts;
            path.parts.push(copy_units(&relative.parts[i]));
            assert(added[i - from] == relative.parts@[i as int]@);
            assert(path@.parts =~= before.push(added[i - from]));
            assert(path@.parts =~= front + added.take(i - from + 1));
        }
        assert(added.take(relative.parts@.len() - from) =~= added);
        path
    }

    /// What lies in the directory under a name.
    pub fn child(&self, name: &str) -> (path: NativePath)
        ensures
            path@ == self@.child(utf16::encode(name@)),
    {
        self.child_named(utf16::encode_text(name))
    }

    /// What lies in the directory under a name that is given by its code units.
    pub fn child_named(&self, name: Vec<u16>) -> (path: NativePath)
        ensures
            path@ == self@.child(name@),
    {
        let mut path = self.clone();
        let ghost before = path@.parts;
        path.rooted = self.starts_at_root();
        path.parts.push(name);
        assert(path@.parts =~= before.push(name@));
        path
    }

    /// The number of components, the prefix and the root among them.
    pub fn component_count(&self) -> (count: u128)
        ensures
            count == self@.component_count(),
    {
        let prefix: u128 = if self.prefix.len() > 0 {
            1
        } else {
            0
        };
        let root: u128 = if self.rooted {
            1
        } else {
            0
        };
        prefix + root + self.parts.len() as u128
    }

    /// The words under which two spellings of one path agree.
    pub fn key(&self) -> (words: Vec<u32>)
        ensures
            words@ == self@.key(),
    {
        let rooted = self.starts_at_root();
        let names = normalize(rooted, &self.parts);
        let ghost lists = unit_lists(names@);
        let prefix = plain(&self.prefix);
        let mut words: Vec<u32> = Vec::new();
        push_name(&mut words, &prefix);
        assert(words@ =~= name_words(plain_prefix(self.prefix@)));
        words.push(
            if rooted {
                1
            } else {
                0
            },
        );
        let ghost front = words@;
        for i in 0..names.len()
            invariant
                lists == unit_lists(names@),
                words@ == front + names_words(lists.take(i as int)),
        {
            assert(lists.take(i + 1).drop_last() =~= lists.take(i as int));
            let ghost before = words@;
            push_name(&mut words, &names[i]);
            assert(words@ =~= front + names_words(lists.take(i + 1)));
        }
        assert(lists.take(names@.len() as int) =~= lists);
        assert(words@ =~= self@.key());
        words
    }

    /// Whether two spellings are one path.
    pub fn same_path(&self, other: &NativePath) -> (same: bool)
        ensures
            same == self@.same_path(other@),
    {
        ordering::same_words(&self.key(), &other.key())
    }

    /// Whether the path is another one or lies below it.
    pub fn is_within(&self, root: &NativePath) -> (within: bool)
        ensures
            within == self@.is_within(root@),
    {
        let words = self.key();
        let outer = root.key();
        if outer.len() > words.len() {
            return false;
        }
        for i in 0..outer.len()
            invariant
                outer@.len() <= words@.len(),
                words@ == self@.key(),
                outer@ == root@.key(),
                forall|j: int| 0 <= j < i ==> outer@[j] == words@[j],
        {
            if outer[i] != words[i] {
                assert(outer@[i as int] != words@.subrange(0, outer@.len() as int)[i as int]);
                return false;
            }
        }
        assert(outer@ =~= words@.subrange(0, outer@.len() as int));
        true
    }

    /// Whether the path is the root of a drive or share.
    pub fn is_complete_volume_root(&self) -> (yes: bool)
        ensures
            yes == self@.is_volume_root(),
    {
        self.prefix.len() > 0 && self.rooted && self.parts.len() == 0
    }

    /// The code units under which spellings of one path agree, as text.
    pub fn canonical_path_units(&self) -> (units: Vec<u16>)
        ensures
            units@ == self@.canonical_units(),
    {
        let rooted = self.starts_at_root();
        let names = normalize(rooted, &self.parts);
        let ghost lists = unit_lists(names@);
        let mut units = plain(&self.prefix);
        if rooted {
            units.push(92);
        }
        let ghost front = units@;
        for i in 0..names.len()
            invariant
                lists == unit_lists(names@),
                units@ == front + joined(lists.take(i as int)),
        {
            let ghost taken = lists.take(i + 1);
            assert(taken.drop_last() =~= lists.take(i as int));
            assert(taken.last() == names@[i as int]@);
            if i > 0 {
                units.push(92);
            }
            append_units(&mut units, &names[i]);
            assert(units@ =~= front + joined(taken));
        }
        assert(lists.take(names@.len() as int) =~= lists);
        assert(units@ =~= self@.normalized().units());
        folded(&units)
    }
}

/// Whether a sequence of code units holds a zero.
fn has_zero(units: &Vec<u16>) -> (yes: bool)
    ensures
        yes == units@.contains(0),
{
    for i in 0..units.len()
        invariant
            forall|j: int| 0 <= j < i ==> units@[j] != 0,
    {
        if units[i] == 0 {
            return true;
        }
    }
    false
}

/// A path lies within itself.
pub proof fn path_is_within_itself(path: PathModel)
    ensures
        path.is_within(path),
{
    assert(path.key() =~= path.key().subrange(0, path.key().len() as int));
}

/// A path from the root of a verbatim drive is the path from the root of the
/// drive, whether the verbatim root is written or not.
pub proof fn verbatim_drive_is_the_drive(path: PathModel, rooted: bool)
    requires
        path.prefix.len() == 2,
        is_drive_at(path.prefix, 0),
        path.rooted,
    ensures
        path.same_path(
            PathModel {
                prefix: seq![92u16, 92u16, 63u16, 92u16] + path.prefix,
                rooted,
                parts: path.parts,
            },
        ),
{
    let prefix = seq![92u16, 92u16, 63u16, 92u16] + path.prefix;
    assert(is_verbatim(prefix) && is_drive_at(prefix, 4) && !is_verbatim_share(prefix));
    assert(plain_prefix(prefix) =~= path.prefix);
    assert(plain_prefix(path.prefix) =~= path.prefix);
}

/// What lies below a path that lies below a root lies below the root.
pub proof fn within_is_transitive(a: PathModel, b: PathModel, c: PathModel)
    requires
        a.is_within(b),
        b.is_within(c),
    ensures
        a.is_within(c),
{
    assert(c.key() =~= a.key().subrange(0, c.key().len() as int)) by {
        assert(b.key() == a.key().subrange(0, b.key().len() as int));
        assert(c.key() == b.key().subrange(0, c.key().len() as int));
    }
}

/// Two paths that lie within each other are one path.
pub proof fn within_each_other_is_same(a: PathModel, b: PathModel)
    requires
        a.is_within(b),
        b.is_within(a),
    ensures
        a.same_path(b),
{
    assert(a.key() =~= b.key());
}

/// The names of a path as they are compared.
pub open spec fn folded_names(names: Seq<Seq<u16>>) -> Seq<Seq<u16>> {
    names.map_values(|name: Seq<u16>| fold_units(name))
}

/// A name's words end it: what stands behind them begins where they end.
proof fn words_end_a_name(a: Seq<u16>, b: Seq<u16>, x: Seq<u32>, y: Seq<u32>)
    requires
        name_words(a) + x == name_words(b) + y,
    ensures
        fold_units(a) == fold_units(b),
        x == y,
{
    let u = fold_units(a);
    let v = fold_units(b);
    let all = name_words(a) + x;
    let same = name_words(b) + y;
    assert(forall|i: int| 0 <= i < u.len() ==> #[trigger] all[i] == u[i] + 1);
    assert(forall|i: int| 0 <= i < v.len() ==> #[trigger] same[i] == v[i] + 1);
    assert(all[u.len() as int] == 0);
    assert(same[v.len() as int] == 0);
    if u.len() < v.len() {
        assert(same[u.len() as int] == v[u.len() as int] + 1);
    }
    if v.len() < u.len() {
        assert(all[v.len() as int] == u[v.len() as int] + 1);
    }
    assert forall|i: int| 0 <= i < u.len() implies u[i] == v[i] by {
        assert(all[i] == same[i]);
    }
    assert(u =~= v);
    assert(all.skip((u.len() + 1) as int) =~= x);
    assert(same.skip((u.len() + 1) as int) =~= y);
}

/// What starts another is it up to the rest.
proof fn prefix_and_rest(start: Seq<u32>, all: Seq<u32>)
    requires
        start.is_prefix_of(all),
    ensures
        all == start + all.skip(start.len() as int),
{
    assert forall|i: int| 0 <= i < start.len() implies start[i] == all[i] by {
        assert(start[i] == all.subrange(0, start.len() as int)[i]);
    }
    assert(all =~= start + all.skip(start.len() as int));
}

/// The words of some names start with those of the first.
proof fn words_start_with_the_first(names: Seq<Seq<u16>>)
    requires
        names.len() > 0,
    ensures
        names_words(names) == name_words(names[0]) + names_words(names.skip(1)),
    decreases names.len(),
{
    if names.len() > 1 {
        words_start_with_the_first(names.drop_last());
        assert(names.drop_last().skip(1) =~= names.skip(1).drop_last());
        assert(names.skip(1).last() == names.last());
        assert(names_words(names) =~= name_words(names[0]) + names_words(names.skip(1)));
    } else {
        assert(names.drop_last() =~= Seq::empty());
        assert(names.skip(1) =~= Seq::empty());
        assert(names_words(names) =~= name_words(names[0]) + names_words(names.skip(1)));
    }
}

/// The words of some names start those of others exactly where the names do.
proof fn words_are_the_names(a: Seq<Seq<u16>>, b: Seq<Seq<u16>>)
    ensures
        names_words(a).is_prefix_of(names_words(b)) <==> folded_names(a).is_prefix_of(
            folded_names(b),
        ),
    decreases a.len(),
{
    let f = folded_names(a);
    let g = folded_names(b);
    if a.len() == 0 {
        assert(names_words(a) =~= names_words(b).take(0));
        assert(f =~= g.take(0));
    } else if b.len() == 0 {
        words_start_with_the_first(a);
    } else {
        words_start_with_the_first(a);
        words_start_with_the_first(b);
        let rest_a = names_words(a.skip(1));
        let rest_b = names_words(b.skip(1));
        words_are_the_names(a.skip(1), b.skip(1));
        assert(folded_names(a.skip(1)) =~= f.skip(1));
        assert(folded_names(b.skip(1)) =~= g.skip(1));
        if names_words(a).is_prefix_of(names_words(b)) {
            let behind = names_words(b).skip(names_words(a).len() as int);
            prefix_and_rest(names_words(a), names_words(b));
            assert(names_words(a) + behind =~= name_words(a[0]) + (rest_a + behind));
            words_end_a_name(a[0], b[0], rest_a + behind, rest_b);
            assert(rest_a =~= rest_b.take(rest_a.len() as int));
            assert(f.skip(1) =~= g.skip(1).take(f.len() - 1));
            assert forall|i: int| 0 <= i < f.len() implies f[i] == g.take(f.len() as int)[i] by {
                if i > 0 {
                    assert(f.skip(1)[i - 1] == g.skip(1)[i - 1]);
                }
            }
            assert(f =~= g.take(f.len() as int));
        }
        if f.is_prefix_of(g) {
            assert(f[0] == g.take(f.len() as int)[0]);
            assert(f.skip(1) =~= g.skip(1).take(f.len() - 1));
            assert(name_words(a[0]) == name_words(b[0]));
            let whole = names_words(b);
            assert(names_words(a) =~= whole.take(names_words(a).len() as int)) by {
                assert(rest_a == rest_b.take(rest_a.len() as int));
                assert(whole.take((name_words(b[0]).len() + rest_a.len()) as int) =~= name_words(
                    b[0],
                ) + rest_b.take(rest_a.len() as int));
            }
        }
    }
}

/// A path lies within another exactly where both start at the same place and the
/// names of the other, once nothing in them leads up or nowhere, start its own. Two are
/// one path exactly where the names are the same too. Case makes no difference.
pub proof fn paths_are_compared_by_name(path: PathModel, root: PathModel)
    ensures
        path.is_within(root) <==> {
            &&& fold_units(plain_prefix(path.prefix)) == fold_units(plain_prefix(root.prefix))
            &&& path.has_root() == root.has_root()
            &&& folded_names(normalized_parts(root.has_root(), root.parts)).is_prefix_of(
                folded_names(normalized_parts(path.has_root(), path.parts)),
            )
        },
        path.same_path(root) <==> {
            &&& fold_units(plain_prefix(path.prefix)) == fold_units(plain_prefix(root.prefix))
            &&& path.has_root() == root.has_root()
            &&& folded_names(normalized_parts(root.has_root(), root.parts)) == folded_names(
                normalized_parts(path.has_root(), path.parts),
            )
        },
{
    within_by_name(path, root);
    within_by_name(root, path);
    let a = folded_names(normalized_parts(root.has_root(), root.parts));
    let b = folded_names(normalized_parts(path.has_root(), path.parts));
    if path.same_path(root) {
        path_is_within_itself(path);
        path_is_within_itself(root);
        assert(path.is_within(root) && root.is_within(path));
        assert(a.len() == b.len());
        assert(a =~= b);
    }
    if path.is_within(root) && a == b {
        assert(b =~= a.take(b.len() as int));
        within_each_other_is_same(path, root);
    }
}

/// A path lies within another where its names say so.
proof fn within_by_name(path: PathModel, root: PathModel)
    ensures
        path.is_within(root) <==> {
            &&& fold_units(plain_prefix(path.prefix)) == fold_units(plain_prefix(root.prefix))
            &&& path.has_root() == root.has_root()
            &&& folded_names(normalized_parts(root.has_root(), root.parts)).is_prefix_of(
                folded_names(normalized_parts(path.has_root(), path.parts)),
            )
        },
{
    let p = path.key();
    let r = root.key();
    let (px, rx) = (name_words(plain_prefix(path.prefix)), name_words(plain_prefix(root.prefix)));
    let pf = seq![if path.has_root() {
        1u32
    } else {
        0u32
    }];
    let rf = seq![if root.has_root() {
        1u32
    } else {
        0u32
    }];
    let pn = names_words(path.normalized().parts);
    let rn = names_words(root.normalized().parts);
    words_are_the_names(root.normalized().parts, path.normalized().parts);
    if r.is_prefix_of(p) {
        let behind = p.skip(r.len() as int);
        prefix_and_rest(r, p);
        assert(r + behind =~= rx + (rf + rn + behind));
        assert(p =~= px + (pf + pn));
        words_end_a_name(
            plain_prefix(root.prefix),
            plain_prefix(path.prefix),
            rf + rn + behind,
            pf + pn,
        );
        let rest = pf + pn;
        assert(rest[0] == pf[0]);
        assert((rf + rn + behind)[0] == rf[0]);
        assert(rest.skip(1) =~= pn);
        assert((rf + rn + behind).skip(1) =~= rn + behind);
        assert(rn =~= pn.take(rn.len() as int));
    }
    if px == rx && pf == rf && rn.is_prefix_of(pn) {
        assert(r =~= p.take(r.len() as int)) by {
            assert(p.take(r.len() as int) =~= px + pf + pn.take(rn.len() as int));
        }
    }
}

/// Whether a name leads somewhere: neither nowhere nor up.
pub open spec fn leads_down(name: Seq<u16>) -> bool {
    name != seq![46u16] && name != seq![46u16, 46u16]
}

/// A child lies in its directory, and the directory not in the child; up from the
/// child is back in the directory, and the name for nowhere leads nowhere.
pub proof fn children_lie_below(path: PathModel, name: Seq<u16>)
    requires
        leads_down(name),
    ensures
        path.child(name).is_within(path),
        !path.is_within(path.child(name)),
        path.child(name).child(seq![46u16, 46u16]).same_path(path),
        path.child(seq![46u16]).same_path(path),
        path.child(name).parent() matches Some(parent) && parent.same_path(path),
        path.child(name).component_count() == (PathModel {
            rooted: path.has_root(),
            ..path
        }).component_count() + 1,
{
    let child = path.child(name);
    let up = child.child(parent_name());
    let same = path.child(current_name());
    let parent = child.parent()->0;
    let names = normalized_parts(path.has_root(), path.parts);
    assert(child.parts.drop_last() =~= path.parts);
    assert(up.parts.drop_last() =~= child.parts);
    assert(same.parts.drop_last() =~= path.parts);
    let below = normalized_parts(path.has_root(), child.parts);
    assert(below == names.push(name));
    assert(name != parent_name() && name != current_name());
    assert(up.parts.last() == parent_name());
    assert(parent_name() != current_name()) by {
        assert(parent_name().len() != current_name().len());
    }
    assert(below.drop_last() =~= names);
    assert(normalized_parts(path.has_root(), up.parts) == names);
    assert(normalized_parts(path.has_root(), same.parts) == names);
    paths_are_compared_by_name(child, path);
    paths_are_compared_by_name(path, child);
    paths_are_compared_by_name(up, path);
    paths_are_compared_by_name(same, path);
    paths_are_compared_by_name(parent, path);
    assert(folded_names(names) =~= folded_names(below).take(names.len() as int));
    assert(up.has_root() == path.has_root());
}

/// Names put behind a path lie within it, under their own spelling; a path that has a
/// start of its own stays what it is, and one from the root of the drive keeps the
/// drive only.
pub proof fn joined_names_lie_below(path: PathModel, relative: PathModel)
    requires
        path.prefix.len() > 0,
        forall|i: int| 0 <= i < relative.parts.len() ==> leads_down(#[trigger] relative.parts[i]),
    ensures
        relative.prefix.len() > 0 ==> path.join(relative) == relative,
        relative.prefix.len() == 0 ==> path.join(relative).prefix == path.prefix,
        relative.prefix.len() == 0 && relative.rooted ==> path.join(relative).rooted && path.join(
            relative,
        ).parts == relative.parts,
        relative.prefix.len() == 0 && !relative.rooted ==> path.join(relative).parts == path.parts
            + relative.parts && path.join(relative).has_root() == path.has_root() && path.join(
            relative,
        ).is_within(path),
{
    let joined = path.join(relative);
    names_go_behind(path.parts, relative.parts);
    names_go_behind(Seq::empty(), relative.parts);
    assert(Seq::<Seq<u16>>::empty() + relative.parts =~= relative.parts);
    if relative.parts.len() > 0 {
        assert(leads_down(relative.parts[0]));
    }
    if relative.prefix.len() == 0 && !relative.rooted {
        assert(path.parts + relative.parts =~= joined.parts);
        names_stay_behind(path.has_root(), path.parts, relative.parts);
        paths_are_compared_by_name(joined, path);
        let a = normalized_parts(path.has_root(), path.parts);
        let b = normalized_parts(path.has_root(), joined.parts);
        assert(folded_names(a) =~= folded_names(b).take(a.len() as int));
    }
}

/// Names that lead down go behind others one by one.
proof fn names_go_behind(base: Seq<Seq<u16>>, names: Seq<Seq<u16>>)
    requires
        forall|i: int| 0 <= i < names.len() ==> leads_down(#[trigger] names[i]),
    ensures
        names_behind(base, names) == base + names,
    decreases names.len(),
{
    if names.len() > 0 {
        assert(leads_down(names[names.len() - 1]));
        assert(forall|i: int|
            0 <= i < names.drop_last().len() ==> #[trigger] names.drop_last()[i] == names[i]);
        names_go_behind(base, names.drop_last());
        assert((base + names.drop_last()).push(names.last()) =~= base + names);
    } else {
        assert(base + names =~= base);
    }
}

/// Names that lead down stay where they are.
proof fn names_stay_behind(rooted: bool, base: Seq<Seq<u16>>, names: Seq<Seq<u16>>)
    requires
        forall|i: int| 0 <= i < names.len() ==> leads_down(#[trigger] names[i]),
    ensures
        normalized_parts(rooted, base + names) == normalized_parts(rooted, base) + names,
    decreases names.len(),
{
    if names.len() > 0 {
        assert(leads_down(names[names.len() - 1]));
        assert(forall|i: int|
            0 <= i < names.drop_last().len() ==> #[trigger] names.drop_last()[i] == names[i]);
        names_stay_behind(rooted, base, names.drop_last());
        assert((base + names).drop_last() =~= base + names.drop_last());
        assert((normalized_parts(rooted, base) + names.drop_last()).push(names.last())
            =~= normalized_parts(rooted, base) + names);
    } else {
        assert(base + names =~= base);
        assert(normalized_parts(rooted, base) + names =~= normalized_parts(rooted, base));
    }
}

/// A verbatim share is the share that it stands for, and the direction of a slash in
/// a plain one makes no difference.
pub proof fn verbatim_share_is_the_share(path: PathModel, tail: Seq<u16>, rooted: bool)
    requires
        path.prefix == seq![92u16, 92u16] + tail,
        path.rooted,
        tail.len() >= 2 ==> !(tail[0] == 63 && tail[1] == 92),
        !tail.contains(47),
    ensures
        path.same_path(
            PathModel {
                prefix: seq![92u16, 92u16, 63u16, 92u16, 85u16, 78u16, 67u16, 92u16] + tail,
                rooted,
                parts: path.parts,
            },
        ),
        path.same_path(PathModel { prefix: seq![47u16, 47u16] + tail, ..path }),
{
    let verbatim = seq![92u16, 92u16, 63u16, 92u16, 85u16, 78u16, 67u16, 92u16] + tail;
    let slashes = seq![47u16, 47u16] + tail;
    assert(verbatim.skip(8) =~= tail);
    assert forall|i: int| 0 <= i < tail.len() implies plain_separator(#[trigger] tail[i])
        == tail[i] by {
        assert(tail.contains(tail[i]));
    }
    assert(plain_prefix(path.prefix) =~= path.prefix) by {
        assert forall|i: int| 0 <= i < path.prefix.len() implies plain_separator(path.prefix[i])
            == path.prefix[i] by {
            if i >= 2 {
                assert(path.prefix[i] == tail[i - 2]);
            }
        }
    }
    assert(plain_prefix(slashes) =~= path.prefix) by {
        assert forall|i: int| 0 <= i < slashes.len() implies plain_separator(slashes[i])
            == path.prefix[i] by {
            if i >= 2 {
                assert(slashes[i] == tail[i - 2]);
            }
        }
    }
    assert(plain_prefix(verbatim) =~= path.prefix);
    paths_are_compared_by_name(path, PathModel { prefix: verbatim, rooted, parts: path.parts });
    paths_are_compared_by_name(path, PathModel { prefix: slashes, ..path });
}

/// A complete volume is a rooted drive or share that nothing lies above.
pub proof fn volumes_have_nothing_above(path: PathModel)
    ensures
        path.is_volume_root() <==> path.is_absolute() && path.rooted && path.parent() is None,
        path.parent() matches Some(parent) ==> parent.component_count() + 1
            == path.component_count() && path == (PathModel {
            parts: parent.parts.push(path.parts.last()),
            ..parent
        }),
{
    if path.parts.len() > 0 {
        assert(path.parts.drop_last().push(path.parts.last()) =~= path.parts);
    }
}

} // verus!
