//! The access-control plan: which objects get which entries, roots before
//! what lies below them.

use vstd::prelude::*;

use crate::acl_entries;
use crate::acl_error::{AclError, AclErrorModel, FilesystemAclError};
use crate::filesystem_plan;
use crate::filesystem_plan::FilesystemPlan;
use crate::keyed;
use crate::keyed::Keyed;
use crate::native_path;
use crate::native_path::{NativePath, PathModel};
use crate::ordering;
use crate::text;

verus! {

/// What an authority is for.
#[derive(Clone, Copy, Debug, PartialEq, Eq, Structural)]
pub enum CapabilityRole {
    /// Guarding what a profile may not write.
    ProfileGuard,
    /// Writing below a root.
    WriteRoot,
}

/// The authorities of a profile.
#[verifier::ext_equal]
pub struct AuthorityModel {
    /// Who may read.
    pub read_base: Seq<char>,
    /// Who is kept from what the profile guards.
    pub guard: Seq<char>,
    /// Who may write below a root, by the root's key.
    pub writers: Map<Seq<u32>, Seq<char>>,
}

/// Who may write below the first `count` roots; of roots that are one path
/// the last one counts.
pub open spec fn writers_of(
    roots: Seq<PathModel>,
    sids: Seq<Seq<char>>,
    count: int,
) -> Map<Seq<u32>, Seq<char>>
    decreases count,
{
    if count <= 0 {
        Map::empty()
    } else {
        writers_of(roots, sids, count - 1).insert(roots[count - 1].key(), sids[count - 1])
    }
}

/// The authorities of a profile.
#[derive(Debug)]
pub struct FilesystemAuthorities {
    read_base_sid: String,
    profile_guard_sid: String,
    write_root_sids: Keyed<String>,
    token_sids: Vec<String>,
}

impl View for FilesystemAuthorities {
    type V = AuthorityModel;

    closed spec fn view(&self) -> AuthorityModel {
        AuthorityModel {
            read_base: self.read_base_sid@,
            guard: self.profile_guard_sid@,
            writers: held_writers(self.write_root_sids),
        }
    }
}

/// Who may write below a root, as a list holds it.
closed spec fn held_writers(list: Keyed<String>) -> Map<Seq<u32>, Seq<char>> {
    Map::new(
        |key: Seq<u32>| ordering::is_present(list.keys(), key),
        |key: Seq<u32>| list.items()[ordering::slot(list.keys(), key)]@,
    )
}

/// Whether texts are in order, once each, and just those that `wanted` has.
pub open spec fn is_text_set(values: Seq<Seq<char>>, wanted: spec_fn(Seq<char>) -> bool) -> bool {
    &&& ordering::strictly_ascending(acl_entries::text_keys(values))
    &&& forall|value: Seq<char>| #[trigger] values.contains(value) <==> wanted(value)
}

impl AuthorityModel {
    /// Whether someone belongs to a token of the profile.
    pub open spec fn in_token(self, sid: Seq<char>) -> bool {
        ||| sid == self.read_base
        ||| sid == self.guard
        ||| exists|key: Seq<u32>| #[trigger]
            self.writers.dom().contains(key) && self.writers[key] == sid
    }
}

/// The authorities that a plan asks for, with what each is for: one guard
/// for the profile, and one writer for each writable root.
pub fn authority_declarations(plan: &FilesystemPlan) -> (declarations: Vec<
    (NativePath, CapabilityRole),
>)
    ensures
        declarations@.len() == 1 + filesystem_plan::write_root_paths(plan@.targets).len(),
        declarations@[0].0@ == plan@.anchor,
        declarations@[0].1 is ProfileGuard,
        forall|i: int|
            1 <= i < declarations@.len() ==> {
                &&& (#[trigger] declarations@[i]).0@ == filesystem_plan::write_root_paths(
                    plan@.targets,
                )[i - 1]
                &&& declarations@[i].1 is WriteRoot
            },
{
    let roots = filesystem_plan::write_roots(plan.targets());
    let ghost paths = filesystem_plan::write_root_paths(plan@.targets);
    let mut declarations: Vec<(NativePath, CapabilityRole)> = Vec::new();
    declarations.push((plan.profile_anchor().clone(), CapabilityRole::ProfileGuard));
    assert(roots@.len() == native_path::models(roots@).len());
    for i in 0..roots.len()
        invariant
            native_path::models(roots@) == paths,
            declarations@.len() == 1 + i,
            declarations@[0].0@ == plan@.anchor,
            declarations@[0].1 is ProfileGuard,
            forall|j: int|
                1 <= j < declarations@.len() ==> {
                    &&& (#[trigger] declarations@[j]).0@ == paths[j - 1]
                    &&& declarations@[j].1 is WriteRoot
                },
    {
        assert(paths[i as int] == roots@[i as int]@);
        declarations.push((roots[i].clone(), CapabilityRole::WriteRoot));
    }
    declarations
}

/// Texts in order and once each.
struct TextSet {
    list: Keyed<String>,
}

impl TextSet {
    /// Whether the keys are those of the texts.
    spec fn wf(self) -> bool {
        &&& self.list.wf()
        &&& self.list.keys() == acl_entries::text_keys(text::texts(self.list.items()))
    }

    /// The texts.
    spec fn values(self) -> Seq<Seq<char>> {
        text::texts(self.list.items())
    }

    /// Adds a text, unless it is there already.
    fn insert(&mut self, value: &String)
        requires
            old(self).wf(),
        ensures
            final(self).wf(),
            forall|other: Seq<char>| #[trigger]
                final(self).values().contains(other) <==> old(self).values().contains(other)
                    || other == value@,
    {
        let ghost before = self.values();
        let ghost keys = self.list.keys();
        let key = acl_entries::words_of(value.as_str());
        let (i, present) = self.list.locate(&key);
        proof {
            ordering::slot_divides(keys, key@);
        }
        if present {
            proof {
                acl_entries::words_determine_text(before[i as int], value@);
                assert(before.contains(value@));
            }
        } else {
            self.list.insert(i, key, value.clone());
            proof {
                let now = self.values();
                assert(now =~= before.insert(i as int, value@));
                assert(acl_entries::text_keys(now) =~= keys.insert(i as int, key@));
                assert forall|other: Seq<char>| #[trigger] now.contains(other) <==> before.contains(
                    other,
                ) || other == value@ by {
                    if now.contains(other) {
                        let k = choose|k: int| 0 <= k < now.len() && now[k] == other;
                        if k < i {
                            assert(before[k] == other);
                        } else if k > i {
                            assert(before[k - 1] == other);
                        }
                    }
                    if before.contains(other) {
                        let k = choose|k: int| 0 <= k < before.len() && before[k] == other;
                        if k < i {
                            assert(now[k] == other);
                        } else {
                            assert(now[k + 1] == other);
                        }
                    }
                    if other == value@ {
                        assert(now[i as int] == other);
                    }
                }
            }
        }
    }
}

impl FilesystemAuthorities {
    /// Whether roots are in order and the token holds just the authorities.
    pub closed spec fn wf(&self) -> bool {
        &&& self.write_root_sids.wf()
        &&& is_text_set(text::texts(self.token_sids@), |sid: Seq<char>| self@.in_token(sid))
    }

    /// Whom a token of the profile holds.
    pub closed spec fn token(&self) -> Seq<Seq<char>> {
        text::texts(self.token_sids@)
    }

    /// Assigns the authorities that the capability state returned for a
    /// plan's declarations.
    pub fn load(plan: &FilesystemPlan, sids: &Vec<String>, read_base_sid: &str) -> (result: Result<
        FilesystemAuthorities,
        AclError,
    >)
        ensures
            ({
                let roots = filesystem_plan::write_root_paths(plan@.targets);
                match result {
                    Ok(authorities) => {
                        &&& sids@.len() == roots.len() + 1
                        &&& authorities.wf()
                        &&& authorities@.read_base == read_base_sid@
                        &&& authorities@.guard == sids@[0]@
                        &&& authorities@.writers == writers_of(
                            roots,
                            text::texts(sids@).skip(1),
                            roots.len() as int,
                        )
                    },
                    Err(error) => {
                        &&& sids@.len() != roots.len() + 1
                        &&& error@ == (AclErrorModel::AuthorityCount {
                            expected: (roots.len() + 1) as usize,
                            actual: sids@.len() as usize,
                        })
                    },
                }
            }),
    {
        let declarations = authority_declarations(plan);
        let ghost roots = filesystem_plan::write_root_paths(plan@.targets);
        let ghost writers = text::texts(sids@).skip(1);
        if sids.len() != declarations.len() {
            return Err(
                FilesystemAclError::AuthorityCount {
                    expected: declarations.len(),
                    actual: sids.len(),
                },
            );
        }
        let mut list: Keyed<String> = Keyed::new();
        let count: usize = declarations.len();
        assert(held_writers(list) =~= writers_of(roots, writers, 0));
        for i in 1..count
            invariant
                count == declarations@.len(),
                count == sids@.len(),
                count == roots.len() + 1,
                writers == text::texts(sids@).skip(1),
                forall|j: int|
                    1 <= j < declarations@.len() ==> (#[trigger] declarations@[j]).0@ == roots[j
                        - 1],
                list.wf(),
                held_writers(list) == writers_of(roots, writers, i - 1),
        {
            let key = declarations[i].0.key();
            let (at, present) = list.locate(&key);
            let ghost keys = list.keys();
            let ghost items = list.items();
            let ghost before = held_writers(list);
            let sid = sids[i].clone();
            assert(writers[i - 1] == sids@[i as int]@);
            if present {
                list.replace(at, sid);
            } else {
                list.insert(at, ordering::copy_words(&key), sid);
            }
            proof {
                let after = held_writers(list);
                let expected = before.insert(key@, writers[i - 1]);
                assert forall|other: Seq<u32>| #[trigger]
                    after.dom().contains(other) == expected.dom().contains(other) && (
                after.dom().contains(other) ==> after[other] == expected[other]) by {
                    if present {
                        keyed::found_after_replace(keys, items, key@, sid, other);
                    } else {
                        keyed::found_after_insert(keys, items, key@, sid, other);
                    }
                    assert(keyed::item_at(list.keys(), list.items(), other) == (if other == key@ {
                        Some(sid)
                    } else {
                        keyed::item_at(keys, items, other)
                    }));
                }
                assert(after =~= expected);
            }
        }
        let read_base = read_base_sid.to_owned();
        let guard = sids[0].clone();
        let mut token = TextSet { list: Keyed::new() };
        proof {
            assert(token.values() =~= Seq::empty());
            assert(token.list.keys() =~= acl_entries::text_keys(token.values()));
        }
        token.insert(&read_base);
        token.insert(&guard);
        let ghost start = token.values();
        let length: usize = list.len();
        for i in 0..length
            invariant
                length == list.items().len(),
                list.wf(),
                token.wf(),
                forall|value: Seq<char>| #[trigger]
                    token.values().contains(value) <==> start.contains(value) || (exists|j: int|
                        0 <= j < i && value == (#[trigger] list.items()[j])@),
        {
            let ghost before = token.values();
            token.insert(list.get(i));
            assert forall|value: Seq<char>| #[trigger]
                token.values().contains(value) <==> start.contains(value) || (exists|j: int|
                0 <= j < i + 1 && value == (#[trigger] list.items()[j])@) by {
                assert(before.contains(value) <==> start.contains(value) || (exists|j: int|
                    0 <= j < i && value == (#[trigger] list.items()[j])@));
                if value == list.items()[i as int]@ {
                    assert(exists|j: int|
                        0 <= j < i + 1 && value == (#[trigger] list.items()[j])@);
                }
            }
        }
        let ghost values = token.values();
        let authorities = FilesystemAuthorities {
            read_base_sid: read_base,
            profile_guard_sid: guard,
            write_root_sids: list,
            token_sids: token.list.into_items(),
        };
        proof {
            let model = authorities@;
            assert forall|value: Seq<char>| #[trigger] values.contains(value) <==> model.in_token(
                value,
            ) by {
                if exists|j: int| 0 <= j < length && value == (#[trigger] list.items()[j])@ {
                    let j = choose|j: int| 0 <= j < length && value == (#[trigger] list.items()[j])@;
                    let key = list.keys()[j];
                    assert(list.keys().contains(key));
                    ordering::present_where_contained(list.keys(), key);
                    ordering::slot_divides(list.keys(), key);
                    keyed::one_position(list.keys(), j, ordering::slot(list.keys(), key));
                    assert(model.writers.dom().contains(key) && model.writers[key] == value);
                }
                if exists|key: Seq<u32>| #[trigger]
                    model.writers.dom().contains(key) && model.writers[key] == value {
                    let key = choose|key: Seq<u32>| #[trigger]
                        model.writers.dom().contains(key) && model.writers[key] == value;
                    let j = ordering::slot(list.keys(), key);
                    ordering::slot_divides(list.keys(), key);
                    assert(value == list.items()[j]@);
                }
            }
            assert(is_text_set(values, |sid: Seq<char>| model.in_token(sid)));
        }
        Ok(authorities)
    }

    /// Who may write below a root.
    pub fn write_sid(&self, path: &NativePath) -> (sid: Option<&String>)
        requires
            self.wf(),
        ensures
            match sid {
                Some(sid) => {
                    &&& self@.writers.dom().contains(path@.key())
                    &&& sid@ == self@.writers[path@.key()]
                },
                None => !self@.writers.dom().contains(path@.key()),
            },
    {
        let (at, present) = self.write_root_sids.locate(&path.key());
        if present {
            Some(self.write_root_sids.get(at))
        } else {
            None
        }
    }

    /// Who may read.
    pub fn read_base_sid(&self) -> (sid: &str)
        ensures
            sid@ == self@.read_base,
    {
        self.read_base_sid.as_str()
    }

    /// Who is kept from what the profile guards.
    pub fn profile_guard_sid(&self) -> (sid: &str)
        ensures
            sid@ == self@.guard,
    {
        self.profile_guard_sid.as_str()
    }

    /// Whom a token of the profile holds.
    pub fn token_sids(&self) -> (sids: &Vec<String>)
        ensures
            text::texts(sids@) == self.token(),
    {
        &self.token_sids
    }
}

/// A token of a profile holds its readers, its guard and its writers, in
/// order and once each.
pub proof fn token_is_the_profile(authorities: FilesystemAuthorities, sid: Seq<char>)
    requires
        authorities.wf(),
    ensures
        authorities.token().contains(sid) <==> authorities@.in_token(sid),
        ordering::strictly_ascending(acl_entries::text_keys(authorities.token())),
{
}

/// Every writable root has the authority that was given for it, and no other path
/// has one.
pub proof fn roots_have_their_own_writers(
    roots: Seq<PathModel>,
    sids: Seq<Seq<char>>,
    count: int,
    key: Seq<u32>,
    k: int,
)
    requires
        0 <= count <= roots.len(),
        roots.len() == sids.len(),
    ensures
        writers_of(roots, sids, count).dom().contains(key) <==> exists|i: int|
            0 <= i < count && (#[trigger] roots[i]).key() == key,
        (0 <= k < count && forall|i: int| k < i < count ==> (#[trigger] roots[i]).key()
            != roots[k].key()) ==> writers_of(roots, sids, count)[roots[k].key()] == sids[k],
    decreases count,
{
    if count > 0 {
        roots_have_their_own_writers(roots, sids, count - 1, key, k);
        if exists|i: int| 0 <= i < count && (#[trigger] roots[i]).key() == key {
            let i = choose|i: int| 0 <= i < count && (#[trigger] roots[i]).key() == key;
            if i < count - 1 {
                assert(roots[i].key() == key);
            }
        }
        if roots[count - 1].key() == key {
            assert(roots[count - 1].key() == key);
        }
        if 0 <= k < count - 1 {
            assert(roots[k].key() == roots[k].key());
        }
    }
}

/// A token of a profile holds its reader, its guard and the writer of every root,
/// and no one else.
pub proof fn tokens_hold_every_authority(
    authorities: AuthorityModel,
    roots: Seq<PathModel>,
    sids: Seq<Seq<char>>,
    sid: Seq<char>,
)
    requires
        roots.len() == sids.len(),
        authorities.writers == writers_of(roots, sids, roots.len() as int),
        forall|i: int, j: int|
            0 <= i < j < roots.len() ==> (#[trigger] roots[i]).key() != (#[trigger] roots[j]).key(),
    ensures
        authorities.in_token(sid) <==> sid == authorities.read_base || sid == authorities.guard
            || sids.contains(sid),
{
    let n = roots.len() as int;
    if sids.contains(sid) {
        let k = choose|k: int| 0 <= k < sids.len() && sids[k] == sid;
        roots_have_their_own_writers(roots, sids, n, roots[k].key(), k);
        assert(authorities.writers.dom().contains(roots[k].key()));
    }
    if exists|key: Seq<u32>| #[trigger]
        authorities.writers.dom().contains(key) && authorities.writers[key] == sid {
        let key = choose|key: Seq<u32>| #[trigger]
            authorities.writers.dom().contains(key) && authorities.writers[key] == sid;
        roots_have_their_own_writers(roots, sids, n, key, 0);
        let k = choose|k: int| 0 <= k < n && (#[trigger] roots[k]).key() == key;
        roots_have_their_own_writers(roots, sids, n, key, k);
        assert(sids[k] == sid);
    }
}

} // verus!
