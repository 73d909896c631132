//! The launch-profile record an install registers, and the keyed upsert
//! that registers it. The launcher's registry file itself is external JSON
//! that the surrounding program reads whole, converts to keyed entries,
//! upserts through this module, and rewrites whole; it must never recreate
//! a registry whose required structure is missing.
use vstd::prelude::*;

use crate::strutil::str_eq;

verus! {

/// One profile record, as the launcher's registry stores it. A fresh custom
/// profile: `created` and `last_used` carry the same timestamp.
pub struct ProfileRecord {
    pub name: String,
    /// Always `custom`.
    pub profile_type: String,
    pub created: String,
    pub last_used: String,
    pub last_version_id: String,
    pub icon: Option<String>,
    /// Present only when the install targeted a non-default directory; a
    /// default-directory install must leave it out so the launcher's own
    /// resolution applies.
    pub game_dir: Option<String>,
}

/// Relies on time's `OffsetDateTime::now_utc` and its ISO-8601 formatting;
/// the value depends on the clock, so nothing is promised of it.
#[verifier::external_body]
pub fn now_iso8601() -> (r: Option<String>) {
    time::OffsetDateTime::now_utc().format(
        &time::format_description::well_known::Iso8601::DEFAULT,
    ).ok()
}

/// Index of the first entry whose key reads `key`.
pub open spec fn spec_assoc_find<V>(entries: Seq<(String, V)>, key: Seq<char>) -> Option<int>
    decreases entries.len(),
{
    if entries.len() == 0 {
        None
    } else if entries[0].0@ == key {
        Some(0)
    } else {
        match spec_assoc_find(entries.skip(1), key) {
            Some(j) => Some(j + 1),
            None => None,
        }
    }
}

proof fn lemma_assoc_find_hit<V>(entries: Seq<(String, V)>, key: Seq<char>, i: int)
    requires
        0 <= i < entries.len(),
        entries[i].0@ == key,
        forall|k: int| 0 <= k < i ==> entries[k].0@ != key,
    ensures
        spec_assoc_find(entries, key) == Some(i),
    decreases i,
{
    if i > 0 {
        assert(forall|k: int|
            0 <= k < i - 1 ==> entries.skip(1)[k] == entries[k + 1] && entries[k + 1].0@ != key);
        assert(entries.skip(1)[i - 1] == entries[i]);
        lemma_assoc_find_hit(entries.skip(1), key, i - 1);
    }
}

proof fn lemma_assoc_find_none<V>(entries: Seq<(String, V)>, key: Seq<char>)
    requires
        forall|k: int| 0 <= k < entries.len() ==> entries[k].0@ != key,
    ensures
        spec_assoc_find(entries, key) is None,
    decreases entries.len(),
{
    if entries.len() > 0 {
        assert(forall|k: int|
            0 <= k < entries.len() - 1 ==> entries.skip(1)[k] == entries[k + 1] && entries[k
                + 1].0@ != key);
        lemma_assoc_find_none(entries.skip(1), key);
    }
}

/// Inserts or replaces: the first entry whose key reads `key` is replaced
/// by the pair, else the pair is appended; every other entry stays as it
/// was. Registering a pack under its id a second time thus replaces its
/// profile instead of adding another.
pub fn upsert_entry<V>(entries: &mut Vec<(String, V)>, key: String, value: V)
    ensures
        match spec_assoc_find(old(entries)@, key@) {
            Some(j) => final(entries)@ == old(entries)@.update(j, (key, value)),
            None => final(entries)@ == old(entries)@.push((key, value)),
        },
{
    let n = entries.len();
    let mut i: usize = 0;
    while i < n
        invariant
            n == entries@.len(),
            entries@ == old(entries)@,
            0 <= i <= n,
            forall|k: int| 0 <= k < i ==> entries@[k].0@ != key@,
        decreases n - i,
    {
        if str_eq(entries[i].0.as_str(), key.as_str()) {
            proof {
                lemma_assoc_find_hit(entries@, key@, i as int);
            }
            let ghost pre = entries@;
            let _ = entries.remove(i);
            entries.insert(i, (key, value));
            proof {
                assert(entries@ =~= pre.update(i as int, entries@[i as int]));
            }
            return ;
        }
        i = i + 1;
    }
    proof {
        lemma_assoc_find_none(entries@, key@);
    }
    entries.push((key, value));
}

/// Builds the profile record for one install: type `custom`, both
/// timestamps equal to `now`, and the remaining fields exactly as given.
pub fn build_profile_record(
    name: String,
    icon: Option<String>,
    version_id: String,
    game_dir: Option<String>,
    now: String,
) -> (r: ProfileRecord)
    ensures
        r.name == name,
        r.profile_type@ == "custom"@,
        r.created@ == now@,
        r.last_used@ == now@,
        r.last_version_id == version_id,
        r.icon == icon,
        r.game_dir == game_dir,
{
    let created = now.clone();
    ProfileRecord {
        name,
        profile_type: String::from_str("custom"),
        created,
        last_used: now,
        last_version_id: version_id,
        icon,
        game_dir,
    }
}

} // verus!
