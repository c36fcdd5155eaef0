//! The manifest cache: which agents were seen before, and with which hash.

use crate::table::Table;
use crate::text::same;
use vstd::prelude::*;

verus! {

broadcast use vstd::string::group_string_axioms;

/// What is remembered of one manifest.
#[derive(Debug, PartialEq, Eq)]
pub struct KnownManifest {
    pub path: String,
    pub sha256: String,
    pub first_seen_at: String,
    pub last_seen_at: String,
}

/// What is remembered of one manifest.
#[verifier::ext_equal]
pub struct KnownView {
    pub path: Seq<char>,
    pub sha256: Seq<char>,
    pub first_seen_at: Seq<char>,
    pub last_seen_at: Seq<char>,
}

/// What a remembered manifest says.
pub open spec fn known_view(k: KnownManifest) -> KnownView {
    KnownView {
        path: k.path@,
        sha256: k.sha256@,
        first_seen_at: k.first_seen_at@,
        last_seen_at: k.last_seen_at@,
    }
}

/// What the cache says.
pub open spec fn cache_view(rows: Map<Seq<char>, KnownManifest>) -> Map<Seq<char>, KnownView> {
    rows.map_values(|k: KnownManifest| known_view(k))
}

/// A manifest on disk. `sha256` is absent when the file could not be read.
#[derive(Debug, PartialEq, Eq)]
pub struct SeenManifest {
    pub agent: String,
    pub path: String,
    pub sha256: Option<String>,
}

/// What is audited about a manifest.
#[derive(Debug, PartialEq, Eq)]
pub enum ManifestEntry {
    /// An agent nobody had seen.
    PhantomAgent { agent: String, path: String, sha256: String },
    /// First sight of a manifest.
    Loaded { agent: String, path: String, sha256: String },
    /// A manifest whose hash changed.
    Drift { agent: String, path: String, expected: String, actual: String },
}

/// What an audit entry says.
#[verifier::ext_equal]
pub enum EntryView {
    PhantomAgent { agent: Seq<char>, path: Seq<char>, sha256: Seq<char> },
    Loaded { agent: Seq<char>, path: Seq<char>, sha256: Seq<char> },
    Drift { agent: Seq<char>, path: Seq<char>, expected: Seq<char>, actual: Seq<char> },
}

/// What an audit entry says.
pub open spec fn entry_view(e: ManifestEntry) -> EntryView {
    match e {
        ManifestEntry::PhantomAgent { agent, path, sha256 } => EntryView::PhantomAgent {
            agent: agent@,
            path: path@,
            sha256: sha256@,
        },
        ManifestEntry::Loaded { agent, path, sha256 } => EntryView::Loaded {
            agent: agent@,
            path: path@,
            sha256: sha256@,
        },
        ManifestEntry::Drift { agent, path, expected, actual } => EntryView::Drift {
            agent: agent@,
            path: path@,
            expected: expected@,
            actual: actual@,
        },
    }
}

/// What a list of audit entries says.
pub open spec fn entry_views(entries: Seq<ManifestEntry>) -> Seq<EntryView> {
    entries.map_values(|e: ManifestEntry| entry_view(e))
}

/// The cache after one manifest was seen.
pub open spec fn noted(
    cache: Map<Seq<char>, KnownView>,
    seen: SeenManifest,
    now: Seq<char>,
) -> Map<Seq<char>, KnownView> {
    match seen.sha256 {
        None => cache,
        Some(sha) => {
            let row = if !cache.dom().contains(seen.agent@) {
                KnownView {
                    path: seen.path@,
                    sha256: sha@,
                    first_seen_at: now,
                    last_seen_at: now,
                }
            } else if cache[seen.agent@].sha256 != sha@ {
                KnownView {
                    path: seen.path@,
                    sha256: sha@,
                    last_seen_at: now,
                    ..cache[seen.agent@]
                }
            } else {
                KnownView { last_seen_at: now, ..cache[seen.agent@] }
            };
            cache.insert(seen.agent@, row)
        },
    }
}

/// What is audited about one manifest: an unseen name is a phantom agent and
/// its first load, a changed hash is drift, the same hash again is no news.
pub open spec fn news(cache: Map<Seq<char>, KnownView>, seen: SeenManifest) -> Seq<EntryView> {
    match seen.sha256 {
        None => Seq::empty(),
        Some(sha) => if !cache.dom().contains(seen.agent@) {
            seq![
                EntryView::PhantomAgent { agent: seen.agent@, path: seen.path@, sha256: sha@ },
                EntryView::Loaded { agent: seen.agent@, path: seen.path@, sha256: sha@ },
            ]
        } else if cache[seen.agent@].sha256 != sha@ {
            seq![
                EntryView::Drift {
                    agent: seen.agent@,
                    path: seen.path@,
                    expected: cache[seen.agent@].sha256,
                    actual: sha@,
                },
            ]
        } else {
            Seq::empty()
        },
    }
}

/// The cache after a list of manifests was seen.
pub open spec fn noted_all(
    cache: Map<Seq<char>, KnownView>,
    seen: Seq<SeenManifest>,
    now: Seq<char>,
) -> Map<Seq<char>, KnownView>
    decreases seen.len(),
{
    if seen.len() == 0 {
        cache
    } else {
        noted(noted_all(cache, seen.drop_last(), now), seen.last(), now)
    }
}

/// What is audited about a list of manifests.
pub open spec fn all_news(
    cache: Map<Seq<char>, KnownView>,
    seen: Seq<SeenManifest>,
    now: Seq<char>,
) -> Seq<EntryView>
    decreases seen.len(),
{
    if seen.len() == 0 {
        Seq::empty()
    } else {
        all_news(cache, seen.drop_last(), now) + news(
            noted_all(cache, seen.drop_last(), now),
            seen.last(),
        )
    }
}

fn check_one(
    known: &mut Table<KnownManifest>,
    agent: &str,
    path: &str,
    sha: &String,
    now: &str,
    entries: &mut Vec<ManifestEntry>,
    Ghost(seen): Ghost<SeenManifest>,
)
    requires
        seen.agent@ == agent@,
        seen.path@ == path@,
        seen.sha256 == Some(*sha),
    ensures
        cache_view(final(known)@) == noted(cache_view(old(known)@), seen, now@),
        entry_views(final(entries)@) == entry_views(old(entries)@) + news(
            cache_view(old(known)@),
            seen,
        ),
{
    let ghost rows = known@;
    let ghost before = cache_view(known@);
    let ghost said = entry_views(entries@);
    let removed = known.remove(agent);
    proof {
        assert(before.dom() =~= rows.dom());
    }
    match removed {
        Some(entry) => {
            let drifted = !same(entry.sha256.as_str(), sha.as_str());
            let mut row = entry;
            if drifted {
                entries.push(
                    ManifestEntry::Drift {
                        agent: agent.to_owned(),
                        path: path.to_owned(),
                        expected: row.sha256.clone(),
                        actual: sha.clone(),
                    },
                );
                row.sha256 = sha.clone();
                row.path = path.to_owned();
            }
            row.last_seen_at = now.to_owned();
            known.insert(agent, row);
            proof {
                assert(entry_views(entries@) =~= said + news(before, seen));
                assert(cache_view(known@) =~= noted(before, seen, now@));
            }
        },
        None => {
            entries.push(
                ManifestEntry::PhantomAgent {
                    agent: agent.to_owned(),
                    path: path.to_owned(),
                    sha256: sha.clone(),
                },
            );
            entries.push(
                ManifestEntry::Loaded {
                    agent: agent.to_owned(),
                    path: path.to_owned(),
                    sha256: sha.clone(),
                },
            );
            known.insert(
                agent,
                KnownManifest {
                    path: path.to_owned(),
                    sha256: sha.clone(),
                    first_seen_at: now.to_owned(),
                    last_seen_at: now.to_owned(),
                },
            );
            proof {
                assert(entry_views(entries@) =~= said + news(before, seen));
                assert(cache_view(known@) =~= noted(before, seen, now@));
            }
        },
    }
}

/// Update the manifest cache with what is on disk, and say what is audited. A
/// manifest that cannot be read is left as it was. The cache has to be written
/// exactly when there is news.
pub fn check_cache(known: &mut Table<KnownManifest>, seen: &Vec<SeenManifest>, now: &str) -> (r: Vec<
    ManifestEntry,
>)
    ensures
        cache_view(final(known)@) == noted_all(cache_view(old(known)@), seen@, now@),
        entry_views(r@) == all_news(cache_view(old(known)@), seen@, now@),
{
    let ghost start = cache_view(known@);
    let mut entries: Vec<ManifestEntry> = Vec::new();
    let mut i: usize = 0;
    proof {
        assert(entry_views(entries@) =~= Seq::<EntryView>::empty());
    }
    while i < seen.len()
        invariant
            i <= seen@.len(),
            cache_view(known@) == noted_all(start, seen@.take(i as int), now@),
            entry_views(entries@) == all_news(start, seen@.take(i as int), now@),
        decreases seen@.len() - i,
    {
        let s = &seen[i];
        let ghost said = entry_views(entries@);
        match &s.sha256 {
            Some(sha) => {
                check_one(
                    known,
                    s.agent.as_str(),
                    s.path.as_str(),
                    sha,
                    now,
                    &mut entries,
                    Ghost(*s),
                );
            },
            None => {
                proof {
                    assert(said + Seq::<EntryView>::empty() =~= said);
                }
            },
        }
        i = i + 1;
        proof {
            assert(seen@.take(i as int).drop_last() =~= seen@.take(i as int - 1));
        }
    }
    proof {
        assert(seen@.take(seen@.len() as int) =~= seen@);
    }
    entries
}

/// A manifest that was noted is not news again: with the same hash, the next
/// look audits nothing, and when it was first seen stays.
pub proof fn an_unchanged_manifest_is_no_news(
    cache: Map<Seq<char>, KnownView>,
    seen: SeenManifest,
    t1: Seq<char>,
    t2: Seq<char>,
)
    ensures
        news(noted(cache, seen, t1), seen).len() == 0,
        seen.sha256 is Some ==> noted(noted(cache, seen, t1), seen, t2)[seen.agent@].first_seen_at
            == noted(cache, seen, t1)[seen.agent@].first_seen_at,
{
}

/// Whether no name is claimed by two manifests with different contents.
pub open spec fn consistent(seen: Seq<SeenManifest>) -> bool {
    forall|i: int, j: int|
        #![trigger seen[i], seen[j]]
        0 <= i < j < seen.len() && seen[i].agent@ == seen[j].agent@ && seen[i].sha256 is Some
            && seen[j].sha256 is Some ==> seen[i].sha256->0@ == seen[j].sha256->0@
}

/// Whether the cache holds the hash of every manifest that could be read.
spec fn settled(cache: Map<Seq<char>, KnownView>, seen: Seq<SeenManifest>) -> bool {
    forall|i: int|
        0 <= i < seen.len() && (#[trigger] seen[i]).sha256 is Some ==> cache.dom().contains(
            seen[i].agent@,
        ) && cache[seen[i].agent@].sha256 == seen[i].sha256->0@
}

proof fn lemma_a_pass_settles(
    cache: Map<Seq<char>, KnownView>,
    seen: Seq<SeenManifest>,
    now: Seq<char>,
)
    requires
        consistent(seen),
    ensures
        settled(noted_all(cache, seen, now), seen),
    decreases seen.len(),
{
    if seen.len() > 0 {
        let head = seen.drop_last();
        assert(consistent(head)) by {
            assert forall|i: int, j: int|
                #![trigger head[i], head[j]]
                0 <= i < j < head.len() && head[i].agent@ == head[j].agent@
                    && head[i].sha256 is Some && head[j].sha256 is Some implies head[i].sha256->0@
                == head[j].sha256->0@ by {
                assert(head[i] == seen[i] && head[j] == seen[j]);
            }
        }
        lemma_a_pass_settles(cache, head, now);
        let after = noted_all(cache, seen, now);
        assert forall|i: int|
            0 <= i < seen.len() && (#[trigger] seen[i]).sha256 is Some implies after.dom().contains(
            seen[i].agent@,
        ) && after[seen[i].agent@].sha256 == seen[i].sha256->0@ by {
            if i < head.len() {
                assert(head[i] == seen[i]);
                assert(seen[seen.len() - 1] == seen.last());
            }
        }
    }
}

/// A pass over what the cache holds already audits nothing, and keeps every
/// hash.
proof fn lemma_a_settled_pass_is_quiet(
    cache: Map<Seq<char>, KnownView>,
    seen: Seq<SeenManifest>,
    now: Seq<char>,
)
    requires
        settled(cache, seen),
    ensures
        all_news(cache, seen, now) == Seq::<EntryView>::empty(),
        noted_all(cache, seen, now).dom() == cache.dom(),
        forall|a: Seq<char>|
            cache.dom().contains(a) ==> (#[trigger] noted_all(cache, seen, now)[a]).sha256
                == cache[a].sha256 && noted_all(cache, seen, now)[a].first_seen_at
                == cache[a].first_seen_at,
    decreases seen.len(),
{
    if seen.len() > 0 {
        let head = seen.drop_last();
        assert forall|i: int|
            0 <= i < head.len() && (#[trigger] head[i]).sha256 is Some implies cache.dom().contains(
            head[i].agent@,
        ) && cache[head[i].agent@].sha256 == head[i].sha256->0@ by {
            assert(head[i] == seen[i]);
        }
        lemma_a_settled_pass_is_quiet(cache, head, now);
        assert(seen[seen.len() - 1] == seen.last());
        assert(noted_all(cache, seen, now).dom() =~= cache.dom());
        assert(all_news(cache, seen, now) =~= Seq::<EntryView>::empty());
    }
}

/// A second pass over an unchanged list of manifests has no news, whenever it
/// is made, and leaves alone when each was first seen.
pub proof fn an_unchanged_list_is_no_news(
    cache: Map<Seq<char>, KnownView>,
    seen: Seq<SeenManifest>,
    t1: Seq<char>,
    t2: Seq<char>,
)
    requires
        consistent(seen),
    ensures
        all_news(noted_all(cache, seen, t1), seen, t2) == Seq::<EntryView>::empty(),
        forall|a: Seq<char>|
            noted_all(cache, seen, t1).dom().contains(a) ==> (#[trigger] noted_all(
                noted_all(cache, seen, t1),
                seen,
                t2,
            )[a]).first_seen_at == noted_all(cache, seen, t1)[a].first_seen_at,
{
    lemma_a_pass_settles(cache, seen, t1);
    lemma_a_settled_pass_is_quiet(noted_all(cache, seen, t1), seen, t2);
}

/// Every change of a manifest is audited: without news the hash in the cache
/// is the hash that was seen.
pub proof fn no_change_goes_unaudited(
    cache: Map<Seq<char>, KnownView>,
    seen: SeenManifest,
)
    requires
        seen.sha256 is Some,
        news(cache, seen).len() == 0,
    ensures
        cache.dom().contains(seen.agent@),
        cache[seen.agent@].sha256 == seen.sha256->0@,
{
}

/// What is kept of a manifest is what was last seen of it: its hash and when.
/// When it was first seen is kept for as long as it is known, and no other
/// manifest is touched. One that could not be read changes nothing.
pub proof fn what_was_last_seen_is_kept(
    cache: Map<Seq<char>, KnownView>,
    seen: SeenManifest,
    now: Seq<char>,
    other: Seq<char>,
)
    ensures
        ({
            let after = noted(cache, seen, now);
            let agent = seen.agent@;
            &&& seen.sha256 is None ==> after == cache
            &&& seen.sha256 is Some ==> after.dom().contains(agent) && after[agent].sha256
                == seen.sha256->0@ && after[agent].last_seen_at == now
            &&& seen.sha256 is Some && cache.dom().contains(agent) ==> after[agent].first_seen_at
                == cache[agent].first_seen_at
            &&& seen.sha256 is Some && !cache.dom().contains(agent) ==> after[agent].first_seen_at
                == now && after[agent].path == seen.path@
            &&& seen.sha256 is Some && cache.dom().contains(agent) && cache[agent].sha256
                != seen.sha256->0@ ==> after[agent].path == seen.path@
            &&& other != agent ==> after.dom().contains(other) == cache.dom().contains(other)
            &&& other != agent && cache.dom().contains(other) ==> after[other] == cache[other]
        }),
{
}

/// A manifest that nobody had seen is told of as such, and as loaded; a change is
/// told of with the hash that was expected and the one that was found, in that
/// order.
pub proof fn a_change_is_told_from_old_to_new(
    cache: Map<Seq<char>, KnownView>,
    seen: SeenManifest,
    sha: String,
    i: int,
)
    requires
        seen.sha256 == Some(sha),
        0 <= i < news(cache, seen).len(),
    ensures
        news(cache, seen)[i] is Drift <==> cache.dom().contains(seen.agent@),
        news(cache, seen)[i] matches EntryView::Drift { agent, path, expected, actual } ==> agent
            == seen.agent@ && path == seen.path@ && expected == cache[seen.agent@].sha256 && actual
            == sha@ && expected != actual,
        news(cache, seen)[i] matches EntryView::PhantomAgent { agent, path, sha256 } ==> agent
            == seen.agent@ && path == seen.path@ && sha256 == sha@,
        news(cache, seen)[i] matches EntryView::Loaded { agent, path, sha256 } ==> agent
            == seen.agent@ && path == seen.path@ && sha256 == sha@,
        !cache.dom().contains(seen.agent@) ==> news(cache, seen).len() == 2 && news(
            cache,
            seen,
        )[0] is PhantomAgent && news(cache, seen)[1] is Loaded,
{
}

} // verus!
