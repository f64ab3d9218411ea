//! From a flat list of entries to groups that can be routed.
//!
//! Entries that share a method and a URI without its query form one group.
//! The query tells the members of a group apart when a request comes in.

use vstd::prelude::*;
use crate::error::HarbingerError;
use crate::har::Entry;
use crate::har::EntryRecord;
use crate::har::Har;
use crate::method::HttpMethod;
use crate::text::text_eq;
use crate::uri::opt_text;
use crate::uri::ParsedUri;
use crate::uri::UriParts;

verus! {

/// One member of a group: an entry, its place in the archive, and the parts
/// of its URI that serving reads.
pub struct Candidate<'a> {
    pub index: usize,
    pub entry: &'a Entry,
    pub hostname: String,
    pub path: String,
    pub query: Option<String>,
}

/// The mathematical model of a [`Candidate`].
pub struct CandidateView {
    pub index: int,
    pub entry: EntryRecord,
    pub hostname: Seq<char>,
    pub path: Seq<char>,
    pub query: Option<Seq<char>>,
}

impl<'a> View for Candidate<'a> {
    type V = CandidateView;

    open spec fn view(&self) -> CandidateView {
        CandidateView {
            index: self.index as int,
            entry: self.entry@,
            hostname: self.hostname@,
            path: self.path@,
            query: opt_text(self.query),
        }
    }
}

/// The models of a list of candidates, in order.
pub open spec fn candidate_views(candidates: Seq<Candidate<'_>>) -> Seq<CandidateView> {
    Seq::new(candidates.len(), |i: int| candidates[i]@)
}

/// The entries that share one method and one URI without its query, in
/// capture order.
pub struct EntryGroup<'a> {
    pub method: HttpMethod,
    pub key: String,
    pub candidates: Vec<Candidate<'a>>,
}

/// The mathematical model of an [`EntryGroup`].
pub struct GroupView {
    pub method: HttpMethod,
    pub key: Seq<char>,
    pub candidates: Seq<CandidateView>,
}

impl<'a> View for EntryGroup<'a> {
    type V = GroupView;

    open spec fn view(&self) -> GroupView {
        GroupView {
            method: self.method,
            key: self.key@,
            candidates: candidate_views(self.candidates@),
        }
    }
}

/// The models of a list of groups, in order.
pub open spec fn group_views(groups: Seq<EntryGroup<'_>>) -> Seq<GroupView> {
    Seq::new(groups.len(), |i: int| groups[i]@)
}

/// What entries are grouped by: the method, and the authority and path of
/// the URI written one after the other.
pub struct RouteKey {
    pub method: HttpMethod,
    pub text: Seq<char>,
}

impl EntryRecord {
    /// The key of the entry, where its method is a known verb and its URL a
    /// URI reference with an authority.
    pub open spec fn route_key(self) -> Option<RouteKey> {
        match (self.verb(), self.uri()) {
            (Some(method), Some(uri)) => match uri.without_query() {
                Some(text) => Some(RouteKey { method, text }),
                None => None,
            },
            _ => None,
        }
    }

    /// Whether the entry can be routed: whether it has a key.
    pub open spec fn routable(self) -> bool {
        self.route_key() is Some
    }

    /// Whether `err` is the error that this entry, which cannot be routed, is
    /// turned down with: an invalid method where the method is unknown, else
    /// an invalid URI.
    pub open spec fn fault(self, err: HarbingerError) -> bool {
        if self.verb() is None {
            err matches HarbingerError::InvalidHarEntryMethod { method } && method@
                == self.method
        } else {
            err matches HarbingerError::InvalidHarEntryUri { uri } && uri@ == self.url
        }
    }
}

/// The candidate that stands for `entry`, which is the entry at `index` and
/// whose URI is `uri`.
pub open spec fn candidate_for(index: int, entry: EntryRecord, uri: UriParts) -> CandidateView {
    CandidateView {
        index,
        entry,
        hostname: match uri.host() {
            Some(h) => h,
            None => Seq::empty(),
        },
        path: uri.path,
        query: uri.query,
    }
}

impl GroupView {
    /// Whether this is the group for `key`.
    pub open spec fn has_key(self, key: RouteKey) -> bool {
        self.method == key.method && self.key == key.text
    }

    /// This group with one more candidate at its end.
    pub open spec fn with(self, candidate: CandidateView) -> GroupView {
        GroupView { candidates: self.candidates.push(candidate), ..self }
    }
}

/// The place of the first group at or after `from` that is the group for
/// `key`, or the number of groups where there is none.
pub open spec fn position_from(groups: Seq<GroupView>, key: RouteKey, from: int) -> int
    decreases groups.len() - from,
{
    if from < 0 || from >= groups.len() || groups[from].has_key(key) {
        from
    } else {
        position_from(groups, key, from + 1)
    }
}

/// The place of the group for `key`, or the number of groups where there is
/// none.
pub open spec fn position(groups: Seq<GroupView>, key: RouteKey) -> int {
    position_from(groups, key, 0)
}

/// `groups` after a candidate with this key has joined: it goes to the end
/// of the group for its key, or founds a new last group.
pub open spec fn joined(groups: Seq<GroupView>, key: RouteKey, candidate: CandidateView) -> Seq<
    GroupView,
> {
    let at = position(groups, key);
    if 0 <= at < groups.len() {
        groups.update(at, groups[at].with(candidate))
    } else {
        groups.push(GroupView { method: key.method, key: key.text, candidates: seq![candidate] })
    }
}

/// The groups of a list of entries: each entry in turn joins the groups of
/// those before it. Entries that cannot be routed join nothing.
pub open spec fn grouping(entries: Seq<EntryRecord>) -> Seq<GroupView>
    decreases entries.len(),
{
    if entries.len() == 0 {
        Seq::empty()
    } else {
        let before = grouping(entries.drop_last());
        let last = entries.last();
        match (last.route_key(), last.uri()) {
            (Some(key), Some(uri)) => joined(
                before,
                key,
                candidate_for(entries.len() - 1, last, uri),
            ),
            _ => before,
        }
    }
}

/// Whether `i` is the place of the first entry that cannot be routed.
pub open spec fn first_unroutable(entries: Seq<EntryRecord>, i: int) -> bool {
    &&& 0 <= i < entries.len()
    &&& !entries[i].routable()
    &&& forall|j: int| 0 <= j < i ==> (#[trigger] entries[j]).routable()
}

/// Whether every entry can be routed.
pub open spec fn all_routable(entries: Seq<EntryRecord>) -> bool {
    forall|i: int| 0 <= i < entries.len() ==> (#[trigger] entries[i]).routable()
}

/// Finds the group for a method and key text.
fn position_of(groups: &Vec<EntryGroup<'_>>, method: HttpMethod, text: &str) -> (at: usize)
    ensures
        at == position(group_views(groups@), RouteKey { method, text: text@ }),
        at <= groups.len(),
{
    let ghost key = RouteKey { method, text: text@ };
    let mut at: usize = 0;
    while at < groups.len()
        invariant
            at <= groups.len(),
            key == (RouteKey { method, text: text@ }),
            position(group_views(groups@), key) == position_from(
                group_views(groups@),
                key,
                at as int,
            ),
        decreases groups.len() - at,
    {
        if groups[at].method == method && text_eq(groups[at].key.as_str(), text) {
            return at;
        }
        at += 1;
    }
    at
}

/// The key text and the candidate for `entry`, the entry at `index`, given
/// the parts of its URI. A URI without an authority is an invalid URI.
pub fn candidate_of<'a>(index: usize, entry: &'a Entry, uri: ParsedUri) -> (r: Result<
    (String, Candidate<'a>),
    HarbingerError,
>)
    ensures
        match uri@.without_query() {
            Some(text) => r matches Ok(pair) && pair.0@ == text && pair.1@ == candidate_for(
                index as int,
                entry@,
                uri@,
            ),
            None => r matches Err(HarbingerError::InvalidHarEntryUri { uri: url }) && url@
                == entry.url@,
        },
{
    match uri.without_query() {
        Some(text) => {
            let hostname = match uri.authority {
                Some(a) => a.host,
                None => String::new(),
            };
            Ok((text, Candidate { index, entry, hostname, path: uri.path, query: uri.query }))
        },
        None => Err(HarbingerError::InvalidHarEntryUri { uri: entry.url.clone() }),
    }
}

/// Lets a candidate join the groups: it goes to the end of the group for
/// its method and key text, or founds a new last group.
pub fn join<'a>(
    groups: &mut Vec<EntryGroup<'a>>,
    method: HttpMethod,
    text: String,
    candidate: Candidate<'a>,
)
    ensures
        group_views(final(groups)@) == joined(
            group_views(old(groups)@),
            RouteKey { method, text: text@ },
            candidate@,
        ),
{
    let at = position_of(groups, method, text.as_str());
    if at < groups.len() {
        let ghost old_candidates = groups@[at as int].candidates@;
        groups[at].candidates.push(candidate);
        assert(candidate_views(groups@[at as int].candidates@) == candidate_views(
            old_candidates,
        ).push(candidate@));
    } else {
        let mut candidates: Vec<Candidate> = Vec::new();
        candidates.push(candidate);
        assert(candidate_views(candidates@) == seq![candidate@]);
        groups.push(EntryGroup { method, key: text, candidates });
    }
}

impl Har {
    /// The groups of the entries, in the order in which each group was first
    /// seen. An entry that cannot be routed fails the whole call: a route
    /// that is missing could not be told from one that was never recorded.
    pub fn entries(&self) -> (r: Result<Vec<EntryGroup<'_>>, HarbingerError>)
        ensures
            match r {
                Ok(groups) => all_routable(self@.entries) && group_views(groups@) == grouping(
                    self@.entries,
                ),
                Err(err) => exists|i: int|
                    first_unroutable(self@.entries, i) && self@.entries[i].fault(err),
            },
    {
        let ghost all = self@.entries;
        let mut groups: Vec<EntryGroup> = Vec::new();
        let mut i: usize = 0;
        while i < self.entries.len()
            invariant
                i <= self.entries.len(),
                all == self@.entries,
                all.len() == self.entries.len(),
                forall|j: int| 0 <= j < i ==> (#[trigger] all[j]).routable(),
                group_views(groups@) == grouping(all.take(i as int)),
            decreases self.entries.len() - i,
        {
            let entry = &self.entries[i];
            assert(all.take(i + 1).drop_last() == all.take(i as int));
            let method = match entry.method() {
                Ok(m) => m,
                Err(err) => {
                    assert(first_unroutable(all, i as int));
                    return Err(err);
                },
            };
            let uri = match entry.uri() {
                Ok(u) => u,
                Err(err) => {
                    assert(first_unroutable(all, i as int));
                    return Err(err);
                },
            };
            match candidate_of(i, entry, uri) {
                Ok((text, candidate)) => join(&mut groups, method, text, candidate),
                Err(err) => {
                    assert(first_unroutable(all, i as int));
                    return Err(err);
                },
            }
            i += 1;
        }
        assert(all.take(i as int) == all);
        Ok(groups)
    }
}

/// Whether `(g, c)` is the place of a member: candidate `c` of group `g`.
pub open spec fn member(groups: Seq<GroupView>, g: int, c: int) -> bool {
    0 <= g < groups.len() && 0 <= c < groups[g].candidates.len()
}

/// Whether `candidate`, a member of `group`, stands for an entry of
/// `entries` that has the key of the group, and carries the parts of the URI
/// of that entry.
pub open spec fn stands_for(
    candidate: CandidateView,
    group: GroupView,
    entries: Seq<EntryRecord>,
) -> bool {
    &&& 0 <= candidate.index < entries.len()
    &&& candidate.entry == entries[candidate.index]
    &&& candidate.entry.route_key() == Some(RouteKey { method: group.method, text: group.key })
    &&& candidate.entry.uri() matches Some(uri) && candidate == candidate_for(
        candidate.index,
        candidate.entry,
        uri,
    )
}

/// Whether the entry at `i` is a member of one of `groups`.
pub open spec fn covered(groups: Seq<GroupView>, i: int) -> bool {
    exists|g: int, c: int| #[trigger] member(groups, g, c) && groups[g].candidates[c].index == i
}

/// Whether `groups` is a grouping of `entries` by key:
/// every group has a member; every member stands for an entry with the key
/// of its group; the members of a group stand in capture order; no two
/// groups have the same key; every entry is a member of a group; and the
/// groups stand in the order of their first members.
pub open spec fn well_grouped(groups: Seq<GroupView>, entries: Seq<EntryRecord>) -> bool {
    &&& forall|g: int| 0 <= g < groups.len() ==> (#[trigger] groups[g]).candidates.len() > 0
    &&& forall|g: int, c: int| #[trigger]
        member(groups, g, c) ==> stands_for(groups[g].candidates[c], groups[g], entries)
    &&& forall|g: int, a: int, b: int|
        #![trigger member(groups, g, a), member(groups, g, b)]
        member(groups, g, a) && member(groups, g, b) && a < b ==> groups[g].candidates[a].index
            < groups[g].candidates[b].index
    &&& forall|g: int, h: int|
        0 <= g < h < groups.len() ==> !(#[trigger] groups[g]).has_key(
            RouteKey { method: (#[trigger] groups[h]).method, text: groups[h].key },
        )
    &&& forall|i: int| 0 <= i < entries.len() ==> #[trigger] covered(groups, i)
    &&& forall|g: int, h: int|
        0 <= g < h < groups.len() ==> (#[trigger] groups[g]).candidates[0].index < (
        #[trigger] groups[h]).candidates[0].index
}

/// The place that `position_from` gives lies between `from` and the number
/// of groups; the group there, if any, is the group for the key, and no
/// group between `from` and there is.
pub proof fn lemma_position_from(groups: Seq<GroupView>, key: RouteKey, from: int)
    requires
        0 <= from <= groups.len(),
    ensures
        from <= position_from(groups, key, from) <= groups.len(),
        position_from(groups, key, from) < groups.len() ==> groups[position_from(
            groups,
            key,
            from,
        )].has_key(key),
        forall|j: int|
            from <= j < position_from(groups, key, from) ==> !(#[trigger] groups[j]).has_key(key),
    decreases groups.len() - from,
{
    if from < groups.len() && !groups[from].has_key(key) {
        lemma_position_from(groups, key, from + 1);
    }
}

/// One more candidate joins well-grouped groups, and they stay well
/// grouped.
proof fn lemma_joined(
    before: Seq<GroupView>,
    entries: Seq<EntryRecord>,
    key: RouteKey,
    uri: UriParts,
)
    requires
        entries.len() > 0,
        well_grouped(before, entries.drop_last()),
        entries.last().route_key() == Some(key),
        entries.last().uri() == Some(uri),
    ensures
        well_grouped(
            joined(before, key, candidate_for(entries.len() - 1, entries.last(), uri)),
            entries,
        ),
{
    let n = entries.len() as int;
    let prev = entries.drop_last();
    let cand = candidate_for(n - 1, entries.last(), uri);
    let after = joined(before, key, cand);
    let p = position(before, key);
    lemma_position_from(before, key, 0);
    // what held of the shorter list of entries holds of the longer one
    if p < before.len() {
        assert forall|g: int, c: int| #[trigger] member(after, g, c) implies stands_for(
            after[g].candidates[c],
            after[g],
            entries,
        ) by {
            if g != p || c != before[p].candidates.len() {
                assert(member(before, g, c));
            }
        }
        assert forall|g: int, a: int, b: int|
            #![trigger member(after, g, a), member(after, g, b)]
            member(after, g, a) && member(after, g, b) && a < b implies after[g].candidates[a].index
            < after[g].candidates[b].index by {
            assert(member(before, g, a));
            if g != p || b != before[p].candidates.len() {
                assert(member(before, g, b));
            }
        }
        assert forall|i: int| 0 <= i < n implies #[trigger] covered(after, i) by {
            if i < n - 1 {
                assert(covered(before, i));
                let (g, c) = choose|g: int, c: int| #[trigger]
                    member(before, g, c) && before[g].candidates[c].index == i;
                assert(member(after, g, c));
            } else {
                assert(member(after, p, before[p].candidates.len() as int));
            }
        }
    } else {
        let last = before.len() as int;
        assert forall|g: int, c: int| #[trigger] member(after, g, c) implies stands_for(
            after[g].candidates[c],
            after[g],
            entries,
        ) by {
            if g < last {
                assert(member(before, g, c));
            }
        }
        assert forall|g: int, a: int, b: int|
            #![trigger member(after, g, a), member(after, g, b)]
            member(after, g, a) && member(after, g, b) && a < b implies after[g].candidates[a].index
            < after[g].candidates[b].index by {
            if g < last {
                assert(member(before, g, a));
                assert(member(before, g, b));
            }
        }
        assert forall|i: int| 0 <= i < n implies #[trigger] covered(after, i) by {
            if i < n - 1 {
                assert(covered(before, i));
                let (g, c) = choose|g: int, c: int| #[trigger]
                    member(before, g, c) && before[g].candidates[c].index == i;
                assert(member(after, g, c));
            } else {
                assert(member(after, last, 0));
            }
        }
        assert forall|g: int, h: int| 0 <= g < h < after.len() implies (
        #[trigger] after[g]).candidates[0].index < (#[trigger] after[h]).candidates[0].index by {
            assert(member(before, g, 0));
        }
    }
}

/// There are no more groups than entries.
pub proof fn lemma_grouping_len(entries: Seq<EntryRecord>)
    ensures
        grouping(entries).len() <= entries.len(),
    decreases entries.len(),
{
    if entries.len() > 0 {
        lemma_grouping_len(entries.drop_last());
    }
}

/// The groups of entries that can all be routed are a grouping of them by
/// key: a partition into groups of one key each, in capture order.
pub proof fn lemma_grouping(entries: Seq<EntryRecord>)
    requires
        all_routable(entries),
    ensures
        well_grouped(grouping(entries), entries),
    decreases entries.len(),
{
    if entries.len() > 0 {
        let prev = entries.drop_last();
        lemma_grouping(prev);
        let last = entries.last();
        lemma_joined(grouping(prev), entries, last.route_key().unwrap(), last.uri().unwrap());
    }
}

} // verus!
