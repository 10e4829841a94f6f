//! Partner roster and presence tracking.
//!
//! The tracker owns the mutable mapping from a partner's stable key to its
//! record and last-reported status.  Its mathematical value is a map from
//! key to entry; the entry order is kept as a secondary view so that probe
//! and display functions can speak about it.

use vstd::prelude::*;

use crate::codec::str_eq;

verus! {

/// A peer contact: a display nickname and the stable key that names the
/// peer on the wire.  Immutable once added; edits replace it wholesale.
#[derive(Debug, Clone, PartialEq)]
pub struct BoopPartner {
    pub nickname: String,
    pub user_key: String,
}

/// Mathematical shape of a partner record.
pub struct PartnerView {
    pub nickname: Seq<char>,
    pub user_key: Seq<char>,
}

impl View for BoopPartner {
    type V = PartnerView;

    open spec fn view(&self) -> PartnerView {
        PartnerView { nickname: self.nickname@, user_key: self.user_key@ }
    }
}

impl BoopPartner {
    /// Assemble a partner record.
    pub fn new(nickname: String, user_key: String) -> (r: BoopPartner)
        ensures
            r@.nickname == nickname@,
            r@.user_key == user_key@,
    {
        BoopPartner { nickname, user_key }
    }

    /// The display name.
    pub fn nickname(&self) -> (r: String)
        ensures
            r@ == self@.nickname,
    {
        self.nickname.clone()
    }

    /// The stable wire key.
    pub fn user_key(&self) -> (r: String)
        ensures
            r@ == self@.user_key,
    {
        self.user_key.clone()
    }

    /// A field-true copy, usable where the verifier must know the copy
    /// equals the original.
    pub fn duplicate(&self) -> (r: BoopPartner)
        ensures
            r@ == self@,
    {
        BoopPartner { nickname: self.nickname.clone(), user_key: self.user_key.clone() }
    }
}

/// A partner's online state as last reported by the server.  Ordered
/// `Afk < Unknown < Online` for display; the numeric codes follow it.
#[derive(Debug, Clone, Copy, PartialEq, Eq, Structural)]
pub enum PartnerOnlineStatus {
    Afk,
    Unknown,
    Online,
}

impl PartnerOnlineStatus {
    /// Numeric code handed to the UI boundary, rising with the ordering.
    pub open spec fn spec_code(self) -> int {
        match self {
            PartnerOnlineStatus::Afk => -1,
            PartnerOnlineStatus::Unknown => 0,
            PartnerOnlineStatus::Online => 1,
        }
    }

    /// Numeric code handed to the UI boundary.
    pub fn status_code(&self) -> (r: i8)
        ensures
            r as int == self.spec_code(),
    {
        match self {
            PartnerOnlineStatus::Afk => -1,
            PartnerOnlineStatus::Unknown => 0,
            PartnerOnlineStatus::Online => 1,
        }
    }
}

/// One tracked partner: the record and its current status.
#[derive(Debug, PartialEq)]
pub struct PresenceEntry {
    pub partner: BoopPartner,
    pub status: PartnerOnlineStatus,
}

/// Mathematical shape of a tracked partner.
pub struct PresenceView {
    pub partner: PartnerView,
    pub status: PartnerOnlineStatus,
}

impl View for PresenceEntry {
    type V = PresenceView;

    open spec fn view(&self) -> PresenceView {
        PresenceView { partner: self.partner@, status: self.status }
    }
}

/// Roster row handed to the UI boundary.
#[derive(Debug, Clone, PartialEq)]
pub struct FrontendPartnerObject {
    pub nickname: String,
    pub user_key: String,
    pub online: i8,
}

/// No two entries claim the same partner key.
pub open spec fn keys_distinct(s: Seq<PresenceEntry>) -> bool {
    forall|i: int, j: int|
        0 <= i < j < s.len() ==> s[i]@.partner.user_key != s[j]@.partner.user_key
}

/// The map that a sequence of entries denotes; later entries win.
pub open spec fn entries_map(s: Seq<PresenceEntry>) -> Map<Seq<char>, PresenceView>
    decreases s.len(),
{
    if s.len() == 0 {
        Map::empty()
    } else {
        entries_map(s.drop_last()).insert(s.last()@.partner.user_key, s.last()@)
    }
}

/// A key is in the map exactly when some entry carries it.
pub proof fn lemma_entries_map_contains(s: Seq<PresenceEntry>, k: Seq<char>)
    ensures
        entries_map(s).contains_key(k) <==> exists|i: int|
            0 <= i < s.len() && s[i]@.partner.user_key == k,
    decreases s.len(),
{
    if s.len() > 0 {
        lemma_entries_map_contains(s.drop_last(), k);
        if s.last()@.partner.user_key == k {
            assert(s[s.len() - 1]@.partner.user_key == k);
        } else if entries_map(s).contains_key(k) {
            let i = choose|i: int| 0 <= i < s.drop_last().len() && s.drop_last()[i]@.partner.user_key == k;
            assert(s[i]@.partner.user_key == k);
        } else {
            assert forall|i: int| 0 <= i < s.len() implies s[i]@.partner.user_key != k by {
                if i < s.len() - 1 {
                    assert(s.drop_last()[i] == s[i]);
                }
            }
        }
    }
}

/// With distinct keys, each entry is the map's value at its own key.
pub proof fn lemma_entries_map_index(s: Seq<PresenceEntry>, i: int)
    requires
        keys_distinct(s),
        0 <= i < s.len(),
    ensures
        entries_map(s).contains_key(s[i]@.partner.user_key),
        entries_map(s)[s[i]@.partner.user_key] == s[i]@,
    decreases s.len(),
{
    if i == s.len() - 1 {
    } else {
        assert(keys_distinct(s.drop_last())) by {
            assert forall|p: int, q: int|
                0 <= p < q < s.drop_last().len() implies s.drop_last()[p]@.partner.user_key
                != s.drop_last()[q]@.partner.user_key by {
                assert(s.drop_last()[p] == s[p]);
                assert(s.drop_last()[q] == s[q]);
            }
        }
        assert(s.drop_last()[i] == s[i]);
        lemma_entries_map_index(s.drop_last(), i);
        assert(s[i]@.partner.user_key != s.last()@.partner.user_key);
    }
}

/// Replacing the entry at an index, key kept, updates the map at that key.
pub proof fn lemma_entries_map_update(s: Seq<PresenceEntry>, i: int, e: PresenceEntry)
    requires
        keys_distinct(s),
        0 <= i < s.len(),
        e@.partner.user_key == s[i]@.partner.user_key,
    ensures
        entries_map(s.update(i, e)) == entries_map(s).insert(e@.partner.user_key, e@),
    decreases s.len(),
{
    let k = e@.partner.user_key;
    if i == s.len() - 1 {
        assert(s.update(i, e).drop_last() =~= s.drop_last());
        assert(s.update(i, e).last() == e);
        assert(entries_map(s.update(i, e)) =~= entries_map(s).insert(k, e@));
    } else {
        assert(keys_distinct(s.drop_last())) by {
            assert forall|p: int, q: int|
                0 <= p < q < s.drop_last().len() implies s.drop_last()[p]@.partner.user_key
                != s.drop_last()[q]@.partner.user_key by {
                assert(s.drop_last()[p] == s[p]);
                assert(s.drop_last()[q] == s[q]);
            }
        }
        assert(s.drop_last()[i] == s[i]);
        lemma_entries_map_update(s.drop_last(), i, e);
        assert(s.update(i, e).drop_last() =~= s.drop_last().update(i, e));
        assert(s.update(i, e).last() == s.last());
        assert(k != s.last()@.partner.user_key);
        assert(entries_map(s.update(i, e)) =~= entries_map(s).insert(k, e@));
    }
}

/// Appending an entry inserts it into the map.
pub proof fn lemma_entries_map_push(s: Seq<PresenceEntry>, e: PresenceEntry)
    ensures
        entries_map(s.push(e)) == entries_map(s).insert(e@.partner.user_key, e@),
{
    assert(s.push(e).drop_last() =~= s);
    assert(s.push(e).last() == e);
}

/// Removing the entry at an index removes its key from the map.
pub proof fn lemma_entries_map_remove(s: Seq<PresenceEntry>, i: int)
    requires
        keys_distinct(s),
        0 <= i < s.len(),
    ensures
        entries_map(s.remove(i)) == entries_map(s).remove(s[i]@.partner.user_key),
    decreases s.len(),
{
    let k = s[i]@.partner.user_key;
    assert(keys_distinct(s.drop_last())) by {
        assert forall|p: int, q: int|
            0 <= p < q < s.drop_last().len() implies s.drop_last()[p]@.partner.user_key
            != s.drop_last()[q]@.partner.user_key by {
            assert(s.drop_last()[p] == s[p]);
            assert(s.drop_last()[q] == s[q]);
        }
    }
    if i == s.len() - 1 {
        assert(s.remove(i) =~= s.drop_last());
        assert(!entries_map(s.drop_last()).contains_key(k)) by {
            lemma_entries_map_contains(s.drop_last(), k);
            if exists|j: int| 0 <= j < s.drop_last().len() && s.drop_last()[j]@.partner.user_key
                == k {
                let j = choose|j: int|
                    0 <= j < s.drop_last().len() && s.drop_last()[j]@.partner.user_key == k;
                assert(s[j]@.partner.user_key == s[i]@.partner.user_key);
            }
        }
        assert(entries_map(s.remove(i)) =~= entries_map(s).remove(k));
    } else {
        assert(s.drop_last()[i] == s[i]);
        lemma_entries_map_remove(s.drop_last(), i);
        assert(s.remove(i).drop_last() =~= s.drop_last().remove(i));
        assert(s.remove(i).last() == s.last());
        assert(k != s.last()@.partner.user_key);
        assert(entries_map(s.remove(i)) =~= entries_map(s).remove(k));
    }
}

/// The map a roster snapshot denotes: every partner starts `Unknown`, and
/// a repeated key keeps the later record.
pub open spec fn roster_map(s: Seq<BoopPartner>) -> Map<Seq<char>, PresenceView>
    decreases s.len(),
{
    if s.len() == 0 {
        Map::empty()
    } else {
        roster_map(s.drop_last()).insert(
            s.last()@.user_key,
            PresenceView { partner: s.last()@, status: PartnerOnlineStatus::Unknown },
        )
    }
}

/// Mutable roster of known partners and their last-reported presence.
#[derive(Debug)]
pub struct PresenceTracker {
    entries: Vec<PresenceEntry>,
}

impl View for PresenceTracker {
    type V = Map<Seq<char>, PresenceView>;

    closed spec fn view(&self) -> Map<Seq<char>, PresenceView> {
        entries_map(self.entries@)
    }
}

impl PresenceTracker {
    /// Well-formed: no two entries claim the same key.
    pub closed spec fn wf(&self) -> bool {
        keys_distinct(self.entries@)
    }

    /// The tracked entries in their kept order.
    pub closed spec fn entry_seq(&self) -> Seq<PresenceView> {
        self.entries@.map_values(|e: PresenceEntry| e@)
    }

    /// The partner keys in their kept order.
    pub open spec fn key_seq(&self) -> Seq<Seq<char>> {
        self.entry_seq().map_values(|v: PresenceView| v.partner.user_key)
    }

    /// The ordered entries and the map agree: each entry is the map's value
    /// at its own key, and the map holds no key outside the order.
    pub proof fn lemma_entries(&self)
        requires
            self.wf(),
        ensures
            forall|i: int|
                0 <= i < self.entry_seq().len() ==> {
                    let v = #[trigger] self.entry_seq()[i];
                    self@.contains_key(v.partner.user_key) && self@[v.partner.user_key] == v
                },
            forall|k: Seq<char>| #[trigger] self@.contains_key(k) ==> self.key_seq().contains(k),
    {
        assert forall|i: int| 0 <= i < self.entry_seq().len() implies {
            let v = #[trigger] self.entry_seq()[i];
            self@.contains_key(v.partner.user_key) && self@[v.partner.user_key] == v
        } by {
            lemma_entries_map_index(self.entries@, i);
            assert(self.entry_seq()[i] == self.entries@[i]@);
        }
        assert forall|k: Seq<char>| #[trigger] self@.contains_key(k) implies self.key_seq().contains(
            k,
        ) by {
            lemma_entries_map_contains(self.entries@, k);
            let i = choose|i: int|
                0 <= i < self.entries@.len() && self.entries@[i]@.partner.user_key == k;
            assert(self.key_seq()[i] == k);
        }
    }

    /// An empty tracker.
    pub fn new() -> (r: PresenceTracker)
        ensures
            r.wf(),
            r@ == Map::<Seq<char>, PresenceView>::empty(),
            r.entry_seq() == Seq::<PresenceView>::empty(),
    {
        let r = PresenceTracker { entries: Vec::new() };
        proof {
            assert(r.entry_seq() =~= Seq::<PresenceView>::empty());
        }
        r
    }

    /// Build the tracker from a persisted roster snapshot.
    pub fn from_roster(roster: Vec<BoopPartner>) -> (r: PresenceTracker)
        ensures
            r.wf(),
            r@ == roster_map(roster@),
    {
        let mut t = PresenceTracker::new();
        let n = roster.len();
        let mut i: usize = 0;
        while i < n
            invariant
                t.wf(),
                n == roster@.len(),
                i <= n,
                t@ == roster_map(roster@.take(i as int)),
            decreases n - i,
        {
            let p = roster[i].duplicate();
            t.insert_partner(p);
            proof {
                assert(roster@.take(i + 1).drop_last() =~= roster@.take(i as int));
                assert(roster@.take(i + 1).last() == roster@[i as int]);
            }
            i = i + 1;
        }
        proof {
            assert(roster@.take(n as int) =~= roster@);
        }
        t
    }

    /// Index of the entry that carries the key, if any.
    fn find_index(&self, key: &str) -> (r: Option<usize>)
        ensures
            match r {
                Some(i) => i < self.entries@.len() && self.entries@[i as int]@.partner.user_key
                    == key@,
                None => forall|i: int|
                    0 <= i < self.entries@.len() ==> self.entries@[i]@.partner.user_key != key@,
            },
    {
        let n = self.entries.len();
        let mut i: usize = 0;
        while i < n
            invariant
                n == self.entries@.len(),
                i <= n,
                forall|j: int| 0 <= j < i ==> self.entries@[j]@.partner.user_key != key@,
            decreases n - i,
        {
            if str_eq(self.entries[i].partner.user_key.as_str(), key) {
                return Some(i);
            }
            i = i + 1;
        }
        None
    }

    /// Whether the key names a known partner.
    pub fn has_partner(&self, key: &str) -> (r: bool)
        ensures
            r == self@.contains_key(key@),
    {
        proof {
            lemma_entries_map_contains(self.entries@, key@);
        }
        match self.find_index(key) {
            Some(i) => true,
            None => false,
        }
    }

    /// Install an entry wholesale, returning the one it displaced.
    fn put_entry(&mut self, e: PresenceEntry) -> (prior: Option<PresenceEntry>)
        requires
            old(self).wf(),
        ensures
            final(self).wf(),
            final(self)@ == old(self)@.insert(e@.partner.user_key, e@),
            match prior {
                Some(p) => old(self)@.contains_key(e@.partner.user_key) && p@ == old(
                    self,
                )@[e@.partner.user_key] && p@.partner.user_key == e@.partner.user_key,
                None => !old(self)@.contains_key(e@.partner.user_key),
            },
    {
        proof {
            lemma_entries_map_contains(self.entries@, e@.partner.user_key);
        }
        match self.find_index(e.partner.user_key.as_str()) {
            Some(i) => {
                proof {
                    lemma_entries_map_index(self.entries@, i as int);
                }
                let ghost s0 = self.entries@;
                let prior = self.entries.remove(i);
                self.entries.insert(i, e);
                proof {
                    assert(self.entries@ =~= s0.update(i as int, e));
                    lemma_entries_map_update(s0, i as int, e);
                    assert forall|p: int, q: int|
                        0 <= p < q < self.entries@.len() implies self.entries@[p]@.partner.user_key
                        != self.entries@[q]@.partner.user_key by {
                        if p != i {
                            assert(self.entries@[p] == s0[p]);
                        }
                        if q != i {
                            assert(self.entries@[q] == s0[q]);
                        }
                        assert(self.entries@[i as int]@.partner.user_key == s0[i as int]@.partner.user_key);
                    }
                }
                Some(prior)
            },
            None => {
                let ghost s0 = self.entries@;
                self.entries.push(e);
                proof {
                    lemma_entries_map_push(s0, e);
                    assert forall|p: int, q: int|
                        0 <= p < q < self.entries@.len() implies self.entries@[p]@.partner.user_key
                        != self.entries@[q]@.partner.user_key by {
                        assert(self.entries@[p] == s0[p]);
                        if q < s0.len() {
                            assert(self.entries@[q] == s0[q]);
                        } else {
                            assert(self.entries@[q] == e);
                        }
                    }
                }
                None
            },
        }
    }

    /// Add a partner or replace its record wholesale; the status resets to
    /// `Unknown`.  Hands back the displaced entry so that a failed persist
    /// can roll the edit back.
    pub fn insert_partner(&mut self, partner: BoopPartner) -> (prior: Option<PresenceEntry>)
        requires
            old(self).wf(),
        ensures
            final(self).wf(),
            final(self)@ == old(self)@.insert(
                partner@.user_key,
                PresenceView { partner: partner@, status: PartnerOnlineStatus::Unknown },
            ),
            match prior {
                Some(p) => old(self)@.contains_key(partner@.user_key) && p@ == old(
                    self,
                )@[partner@.user_key] && p@.partner.user_key == partner@.user_key,
                None => !old(self)@.contains_key(partner@.user_key),
            },
    {
        self.put_entry(PresenceEntry { partner, status: PartnerOnlineStatus::Unknown })
    }

    /// Forget a partner.  Hands back the removed entry so that a failed
    /// persist can roll the edit back.
    pub fn remove_partner(&mut self, key: &str) -> (prior: Option<PresenceEntry>)
        requires
            old(self).wf(),
        ensures
            final(self).wf(),
            final(self)@ == old(self)@.remove(key@),
            match prior {
                Some(p) => old(self)@.contains_key(key@) && p@ == old(self)@[key@]
                    && p@.partner.user_key == key@,
                None => !old(self)@.contains_key(key@) && final(self)@ == old(self)@,
            },
    {
        proof {
            lemma_entries_map_contains(self.entries@, key@);
        }
        match self.find_index(key) {
            Some(i) => {
                proof {
                    lemma_entries_map_index(self.entries@, i as int);
                    lemma_entries_map_remove(self.entries@, i as int);
                }
                let ghost s0 = self.entries@;
                let prior = self.entries.remove(i);
                proof {
                    assert forall|p: int, q: int|
                        0 <= p < q < self.entries@.len() implies self.entries@[p]@.partner.user_key
                        != self.entries@[q]@.partner.user_key by {
                        assert(self.entries@[p] == s0.remove(i as int)[p]);
                        assert(self.entries@[q] == s0.remove(i as int)[q]);
                        s0.remove_ensures(i as int);
                    }
                }
                Some(prior)
            },
            None => {
                proof {
                    assert(old(self)@.remove(key@) =~= old(self)@);
                }
                None
            },
        }
    }

    /// Undo a roster edit: put the prior entry back, or remove the key the
    /// edit had created.
    pub fn restore(&mut self, key: &str, prior: Option<PresenceEntry>)
        requires
            old(self).wf(),
            prior matches Some(p) ==> p@.partner.user_key == key@,
        ensures
            final(self).wf(),
            final(self)@ == match prior {
                Some(p) => old(self)@.insert(key@, p@),
                None => old(self)@.remove(key@),
            },
    {
        match prior {
            Some(p) => {
                self.put_entry(p);
            },
            None => {
                self.remove_partner(key);
            },
        }
    }

    /// Record a presence report: only the named partner changes, and only
    /// if it is known; an unknown key changes nothing.
    pub fn set_status(&mut self, key: &str, status: PartnerOnlineStatus) -> (changed: bool)
        requires
            old(self).wf(),
        ensures
            final(self).wf(),
            changed == old(self)@.contains_key(key@),
            changed ==> final(self)@ == old(self)@.insert(
                key@,
                PresenceView { partner: old(self)@[key@].partner, status },
            ),
            !changed ==> final(self)@ == old(self)@,
    {
        proof {
            lemma_entries_map_contains(self.entries@, key@);
        }
        match self.find_index(key) {
            Some(i) => {
                proof {
                    lemma_entries_map_index(self.entries@, i as int);
                }
                let ghost s0 = self.entries@;
                self.entries[i].status = status;
                proof {
                    let e = PresenceEntry { partner: s0[i as int].partner, status };
                    assert(self.entries@ =~= s0.update(i as int, e));
                    lemma_entries_map_update(s0, i as int, e);
                    assert forall|p: int, q: int|
                        0 <= p < q < self.entries@.len() implies self.entries@[p]@.partner.user_key
                        != self.entries@[q]@.partner.user_key by {
                        if p != i {
                            assert(self.entries@[p] == s0[p]);
                        }
                        if q != i {
                            assert(self.entries@[q] == s0[q]);
                        }
                        assert(self.entries@[i as int]@.partner.user_key == s0[i as int]@.partner.user_key);
                    }
                }
                true
            },
            None => false,
        }
    }

    /// The partner keys, in the tracker's kept order.
    pub fn keys(&self) -> (r: Vec<String>)
        ensures
            r.deep_view() == self.key_seq(),
    {
        let n = self.entries.len();
        let mut r: Vec<String> = Vec::new();
        proof {
            assert(r.deep_view() =~~= self.key_seq().take(0));
        }
        let mut i: usize = 0;
        while i < n
            invariant
                n == self.entries@.len(),
                i <= n,
                r.deep_view() == self.key_seq().take(i as int),
            decreases n - i,
        {
            let ghost old_dv = r.deep_view();
            r.push(self.entries[i].partner.user_key());
            proof {
                assert(r.deep_view() =~~= old_dv.push(self.entries@[i as int]@.partner.user_key));
                assert(r.deep_view() =~~= self.key_seq().take(i + 1));
            }
            i = i + 1;
        }
        proof {
            assert(self.key_seq().take(n as int) =~~= self.key_seq());
        }
        r
    }

    /// The status of the entry at a position of the kept order.
    pub fn status_at(&self, i: usize) -> (r: PartnerOnlineStatus)
        requires
            i < self.entry_seq().len(),
        ensures
            r == self.entry_seq()[i as int].status,
    {
        self.entries[i].status
    }

    /// The partner records in kept order, for persistence snapshots.
    pub fn partners_vec(&self) -> (r: Vec<BoopPartner>)
        ensures
            r@.len() == self.entry_seq().len(),
            forall|i: int| 0 <= i < r@.len() ==> (#[trigger] r@[i])@ == self.entry_seq()[i].partner,
    {
        let n = self.entries.len();
        let mut r: Vec<BoopPartner> = Vec::new();
        let mut i: usize = 0;
        while i < n
            invariant
                n == self.entries@.len(),
                i <= n,
                r@.len() == i,
                forall|j: int| 0 <= j < i ==> (#[trigger] r@[j])@ == self.entry_seq()[j].partner,
            decreases n - i,
        {
            r.push(self.entries[i].partner.duplicate());
            i = i + 1;
        }
        r
    }
}

/// Transforms the tracked roster into the event payload for UI updates.
pub fn get_partners_payload(partners: &PresenceTracker) -> (r: Vec<FrontendPartnerObject>)
    ensures
        r@.len() == partners.entry_seq().len(),
        forall|i: int|
            0 <= i < r@.len() ==> {
                let v = #[trigger] r@[i];
                let e = partners.entry_seq()[i];
                v.nickname@ == e.partner.nickname && v.user_key@ == e.partner.user_key && v.online
                    as int == e.status.spec_code()
            },
{
    let src_list = partners.partners_vec();
    let n = src_list.len();
    let mut r: Vec<FrontendPartnerObject> = Vec::new();
    let mut i: usize = 0;
    while i < n
        invariant
            n == src_list@.len(),
            src_list@.len() == partners.entry_seq().len(),
            forall|j: int|
                0 <= j < src_list@.len() ==> (#[trigger] src_list@[j])@ == partners.entry_seq()[j].partner,
            i <= n,
            r@.len() == i,
            forall|j: int|
                0 <= j < i ==> {
                    let v = #[trigger] r@[j];
                    let e = partners.entry_seq()[j];
                    v.nickname@ == e.partner.nickname && v.user_key@ == e.partner.user_key
                        && v.online as int == e.status.spec_code()
                },
        decreases n - i,
    {
        let p = &src_list[i];
        let status = partners.status_at(i);
        r.push(
            FrontendPartnerObject {
                nickname: p.nickname(),
                user_key: p.user_key(),
                online: status.status_code(),
            },
        );
        i = i + 1;
    }
    r
}

/// Roster-edit atomicity law: rolling an insert or a removal back with the
/// prior value restores exactly the roster map that stood before the edit.
pub proof fn lemma_roster_edit_rollback(
    m: Map<Seq<char>, PresenceView>,
    k: Seq<char>,
    v: PresenceView,
)
    ensures
        m.contains_key(k) ==> m.insert(k, v).insert(k, m[k]) == m,
        !m.contains_key(k) ==> m.insert(k, v).remove(k) == m,
        m.contains_key(k) ==> m.remove(k).insert(k, m[k]) == m,
        !m.contains_key(k) ==> m.remove(k) == m,
{
    if m.contains_key(k) {
        assert(m.insert(k, v).insert(k, m[k]) =~= m);
        assert(m.remove(k).insert(k, m[k]) =~= m);
    } else {
        assert(m.insert(k, v).remove(k) =~= m);
        assert(m.remove(k) =~= m);
    }
}

} // verus!
