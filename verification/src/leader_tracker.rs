//! The leaders of the upcoming slots.
use crate::collections::{is_walk, no_entries};
use crate::errors::AtlasTxnSenderError;
use dashmap::DashMap;
use indexmap::IndexMap;
use vstd::prelude::*;
use vstd::string::StringExecFns;

verus! {

/// Slots that one leader serves in a row.
pub const NUM_LEADERS_PER_SLOT: usize = 4;

/// How many slots ahead the leaders are looked up.
pub const SLOTS_AHEAD: u64 = 1000;

/// A node of the cluster: its identity and, if it takes transactions over QUIC,
/// the address for them.
pub struct ContactInfo {
    pub pubkey: String,
    pub tpu_quic: Option<String>,
}

/// What a [`ContactInfo`] stands for.
#[verifier::ext_equal]
pub struct ContactView {
    pub pubkey: Seq<char>,
    pub tpu_quic: Option<Seq<char>>,
}

/// An optional string by its view.
pub open spec fn text_view(text: Option<String>) -> Option<Seq<char>> {
    match text {
        Some(t) => Some(t@),
        None => None,
    }
}

impl View for ContactInfo {
    type V = ContactView;

    open spec fn view(&self) -> ContactView {
        ContactView { pubkey: self.pubkey@, tpu_quic: text_view(self.tpu_quic) }
    }
}

impl Clone for ContactInfo {
    fn clone(&self) -> (r: Self)
        ensures
            r@ == self@,
    {
        ContactInfo {
            pubkey: self.pubkey.clone(),
            tpu_quic: match &self.tpu_quic {
                Some(address) => Some(address.clone()),
                None => None,
            },
        }
    }
}

/// Contacts by their views.
pub open spec fn contact_views(contacts: Seq<ContactInfo>) -> Seq<ContactView> {
    contacts.map_values(|c: ContactInfo| c@)
}

/// An optional contact by its view.
pub open spec fn contact_view(contact: Option<ContactInfo>) -> Option<ContactView> {
    match contact {
        Some(c) => Some(c@),
        None => None,
    }
}

/// The entries of a map from slots to leaders.
pub uninterp spec fn leaders_contents(map: DashMap<u64, ContactInfo>) -> Map<u64, ContactView>;

/// Calls `DashMap::new`, which gives a map without entries.
#[verifier::external_body]
fn leaders_new() -> (r: DashMap<u64, ContactInfo>)
    ensures
        no_entries(leaders_contents(r)),
{
    DashMap::new()
}

/// Calls `DashMap::insert`, which puts the value under the key in place of what
/// was there.
#[verifier::external_body]
fn leaders_insert(map: &mut DashMap<u64, ContactInfo>, slot: u64, leader: ContactInfo)
    ensures
        leaders_contents(*final(map)) == leaders_contents(*old(map)).insert(slot, leader@),
{
    map.insert(slot, leader);
}

/// Calls `DashMap::get` and copies the value that the key has.
#[verifier::external_body]
fn leaders_get(map: &DashMap<u64, ContactInfo>, slot: u64) -> (r: Option<ContactInfo>)
    ensures
        contact_view(r) == leaders_contents(*map).get(slot),
{
    map.get(&slot).map(|entry| entry.value().clone())
}

/// Calls `DashMap::remove`, which takes the key's entry out of the map.
#[verifier::external_body]
fn leaders_remove(map: &mut DashMap<u64, ContactInfo>, slot: u64)
    ensures
        leaders_contents(*final(map)) == leaders_contents(*old(map)).remove(slot),
{
    map.remove(&slot);
}

/// Calls `DashMap::iter` and copies the keys: each key once, in an order that
/// differs from map to map.
#[verifier::external_body]
fn leaders_slots(map: &DashMap<u64, ContactInfo>) -> (r: Vec<u64>)
    ensures
        is_walk(r@, leaders_contents(*map)),
{
    map.iter().map(|entry| *entry.key()).collect()
}

/// The entries of a map from identities to contacts, in the order of the map.
pub uninterp spec fn indexed_contents(map: IndexMap<String, ContactInfo>) -> Seq<
    (Seq<char>, ContactView),
>;

/// Calls `IndexMap::new`, which gives a map without entries.
#[verifier::external_body]
fn indexed_new() -> (r: IndexMap<String, ContactInfo>)
    ensures
        indexed_contents(r).len() == 0,
{
    IndexMap::new()
}

/// The key has an entry.
pub open spec fn has_key(entries: Seq<(Seq<char>, ContactView)>, key: Seq<char>) -> bool {
    exists|i: int| 0 <= i < entries.len() && (#[trigger] entries[i]).0 == key
}

/// The entries after a value was put under a key: a key that is there keeps its
/// place and takes the value, a new one comes last.
pub open spec fn with_entry(
    entries: Seq<(Seq<char>, ContactView)>,
    key: Seq<char>,
    value: ContactView,
) -> Seq<(Seq<char>, ContactView)> {
    if has_key(entries, key) {
        entries.map_values(
            |entry: (Seq<char>, ContactView)|
                if entry.0 == key {
                    (key, value)
                } else {
                    entry
                },
        )
    } else {
        entries.push((key, value))
    }
}

/// Calls `IndexMap::insert`, which updates the value of a key that is there in its
/// place and appends a key that is not.
#[verifier::external_body]
fn indexed_insert(map: &mut IndexMap<String, ContactInfo>, key: String, value: ContactInfo)
    ensures
        indexed_contents(*final(map)) == with_entry(indexed_contents(*old(map)), key@, value@),
{
    map.insert(key, value);
}

/// Calls `IndexMap::len`, which counts the entries.
#[verifier::external_body]
fn indexed_len(map: &IndexMap<String, ContactInfo>) -> (r: usize)
    ensures
        r == indexed_contents(*map).len(),
{
    map.len()
}

/// Calls `IndexMap::into_values`, which gives the values in the order of the map.
#[verifier::external_body]
fn indexed_values(map: IndexMap<String, ContactInfo>) -> (r: Vec<ContactInfo>)
    ensures
        contact_views(r@) == values_of(indexed_contents(map)),
{
    map.into_values().collect()
}

/// The values of a list of entries.
pub open spec fn values_of(entries: Seq<(Seq<char>, ContactView)>) -> Seq<ContactView> {
    entries.map_values(|entry: (Seq<char>, ContactView)| entry.1)
}

/// The slot from which leaders are wanted, `leader_offset` leaders past the next
/// slot.
pub open spec fn start_slot(next_slot: u64, leader_offset: i64) -> int {
    next_slot + leader_offset * NUM_LEADERS_PER_SLOT
}

/// The start slot, and the way to it, can be represented.
pub open spec fn start_slot_defined(next_slot: u64, leader_offset: i64) -> bool {
    &&& i64::MIN < leader_offset * NUM_LEADERS_PER_SLOT <= i64::MAX
    &&& 0 <= start_slot(next_slot, leader_offset) <= u64::MAX
}

/// The slot that leaders are wanted from after word of the next slot, or none.
pub open spec fn slot_after(slot: u64, leader_offset: i64, next_slot: Option<u64>) -> int {
    match next_slot {
        Some(next) => if start_slot(next, leader_offset) > slot {
            start_slot(next, leader_offset)
        } else {
            slot as int
        },
        None => slot as int,
    }
}

/// Whether the start slot, and the way to it, can be represented.
pub fn is_start_slot_defined(next_slot: u64, leader_offset: i64) -> (r: bool)
    ensures
        r == start_slot_defined(next_slot, leader_offset),
{
    let buffer: i128 = leader_offset as i128 * NUM_LEADERS_PER_SLOT as i128;
    let start: i128 = next_slot as i128 + buffer;
    (i64::MIN as i128) < buffer && buffer <= i64::MAX as i128 && 0 <= start && start
        <= u64::MAX as i128
}

/// The slot from which leaders are wanted, `leader_offset` leaders past the next
/// slot.
pub fn _get_start_slot(next_slot: u64, leader_offset: i64) -> (r: u64)
    requires
        start_slot_defined(next_slot, leader_offset),
    ensures
        r == start_slot(next_slot, leader_offset),
{
    let slot_buffer: i64 = leader_offset * (NUM_LEADERS_PER_SLOT as i64);
    if slot_buffer > 0 {
        next_slot + slot_buffer as u64
    } else {
        next_slot - (-slot_buffer) as u64
    }
}

/// The leaders of the slots from `slot` on, up to `end` or until there are
/// `wanted` of them, each listed where it came up first.
pub open spec fn gathered(
    leaders: Map<u64, ContactView>,
    slot: int,
    end: int,
    wanted: nat,
    so_far: Seq<(Seq<char>, ContactView)>,
) -> Seq<(Seq<char>, ContactView)>
    decreases end - slot,
{
    if slot >= end {
        so_far
    } else {
        let found = match leaders.get(slot as u64) {
            Some(leader) => with_entry(so_far, leader.pubkey, leader),
            None => so_far,
        };
        if found.len() >= wanted {
            found
        } else {
            gathered(leaders, slot + 1, end, wanted, found)
        }
    }
}

/// The next leaders from a slot on, as many as are wanted: those of the slots that this
/// many leaders serve.
pub open spec fn next_leaders(
    leaders: Map<u64, ContactView>,
    slot: int,
    wanted: nat,
) -> Seq<ContactView> {
    values_of(
        gathered(leaders, slot, slot + wanted * NUM_LEADERS_PER_SLOT, wanted, Seq::empty()),
    )
}

/// The slot, unless it is zero, which stands for none.
pub open spec fn known_slot(slot: u64) -> Option<u64> {
    if slot == 0 {
        None
    } else {
        Some(slot)
    }
}

/// Who knows the leaders of the upcoming slots.
pub trait LeaderTracker: Sized {
    /// The slot from which leaders are wanted; zero before one is known.
    spec fn slot(&self) -> u64;

    /// The known leaders.
    spec fn leaders(&self) -> Map<u64, ContactView>;

    /// How many leaders are wanted.
    spec fn wanted(&self) -> usize;

    /// The slots that are searched for leaders can be represented.
    open spec fn window_defined(&self) -> bool {
        &&& self.wanted() * NUM_LEADERS_PER_SLOT <= usize::MAX
        &&& self.slot() + self.wanted() * NUM_LEADERS_PER_SLOT <= u64::MAX
    }

    /// The next slot leaders in order.
    fn get_leaders(&self) -> (r: Vec<ContactInfo>)
        requires
            self.window_defined(),
        ensures
            contact_views(r@) == next_leaders(
                self.leaders(),
                self.slot() as int,
                self.wanted() as nat,
            ),
    ;

    /// The slot from which leaders are wanted, if one is known.
    fn get_current_slot(&self) -> (r: Option<u64>)
        ensures
            r == known_slot(self.slot()),
    ;
}

/// A tracker that is fed with slots and leaders.
pub struct LeaderTrackerImpl {
    cur_slot: u64,
    cur_leaders: DashMap<u64, ContactInfo>,
    num_leaders: usize,
    leader_offset: i64,
}

impl LeaderTracker for LeaderTrackerImpl {
    closed spec fn slot(&self) -> u64 {
        self.cur_slot
    }

    closed spec fn leaders(&self) -> Map<u64, ContactView> {
        leaders_contents(self.cur_leaders)
    }

    closed spec fn wanted(&self) -> usize {
        self.num_leaders
    }

    fn get_leaders(&self) -> (r: Vec<ContactInfo>) {
        let start_slot: u64 = self.cur_slot;
        let end_slot: u64 = start_slot + (self.num_leaders * NUM_LEADERS_PER_SLOT) as u64;
        let mut leaders = indexed_new();
        let mut slot: u64 = start_slot;
        let ghost all = gathered(
            self.leaders(),
            start_slot as int,
            end_slot as int,
            self.num_leaders as nat,
            Seq::empty(),
        );
        assert(indexed_contents(leaders) =~= Seq::empty());
        while slot < end_slot
            invariant_except_break
                all == gathered(
                    self.leaders(),
                    slot as int,
                    end_slot as int,
                    self.num_leaders as nat,
                    indexed_contents(leaders),
                ),
            invariant
                slot <= end_slot,
            ensures
                all == indexed_contents(leaders),
            decreases end_slot - slot,
        {
            let leader = leaders_get(&self.cur_leaders, slot);
            if let Some(leader) = leader {
                indexed_insert(&mut leaders, leader.pubkey.clone(), leader);
            }
            if indexed_len(&leaders) >= self.num_leaders {
                break;
            }
            slot = slot + 1;
        }
        indexed_values(leaders)
    }

    fn get_current_slot(&self) -> (r: Option<u64>) {
        if self.cur_slot == 0 {
            None
        } else {
            Some(self.cur_slot)
        }
    }
}

/// The last node with the given identity.
pub open spec fn node_for(nodes: Seq<ContactView>, pubkey: Seq<char>) -> Option<ContactView>
    decreases nodes.len(),
{
    if nodes.len() == 0 {
        None
    } else if nodes.last().pubkey == pubkey {
        Some(nodes.last())
    } else {
        node_for(nodes.drop_last(), pubkey)
    }
}

/// The leaders of a run of slots whose nodes are known.
pub open spec fn found_leaders(
    from: u64,
    slot_leaders: Seq<Seq<char>>,
    nodes: Seq<ContactView>,
) -> Map<u64, ContactView> {
    Map::new(
        |slot: u64|
            from <= slot < from + slot_leaders.len() && node_for(
                nodes,
                slot_leaders[slot - from],
            ) is Some,
        |slot: u64| node_for(nodes, slot_leaders[slot - from])->0,
    )
}

/// The entries of slots that are not past.
pub open spec fn from_slot_on(leaders: Map<u64, ContactView>, slot: u64) -> Map<
    u64,
    ContactView,
> {
    Map::new(|s: u64| leaders.contains_key(s) && s >= slot, |s: u64| leaders[s])
}

/// The known leaders after a poll that told who leads the slots from `next_slot` on, and
/// which nodes there are, while leaders are wanted from `slot` on.
pub open spec fn polled(
    leaders: Map<u64, ContactView>,
    slot: u64,
    next_slot: u64,
    slot_leaders: Seq<Seq<char>>,
    nodes: Seq<ContactView>,
) -> Map<u64, ContactView> {
    from_slot_on(
        leaders.union_prefer_right(found_leaders(next_slot, slot_leaders, nodes)),
        slot,
    )
}

/// Finds the last node with the given identity.
fn find_node(nodes: &Vec<ContactInfo>, pubkey: &String) -> (r: Option<ContactInfo>)
    ensures
        contact_view(r) == node_for(contact_views(nodes@), pubkey@),
{
    let ghost views = contact_views(nodes@);
    let mut left: usize = nodes.len();
    assert(views.take(left as int) =~= views);
    while left > 0
        invariant
            left <= nodes.len(),
            views == contact_views(nodes@),
            node_for(views, pubkey@) == node_for(views.take(left as int), pubkey@),
        decreases left,
    {
        assert(views.take(left as int).drop_last() =~= views.take(left - 1));
        if nodes[left - 1].pubkey == *pubkey {
            return Some(nodes[left - 1].clone());
        }
        left = left - 1;
    }
    None
}

impl LeaderTrackerImpl {
    /// How many leaders past the next slot the wanted ones begin.
    pub closed spec fn offset(&self) -> i64 {
        self.leader_offset
    }

    /// A tracker that knows neither a slot nor a leader.
    pub fn new(num_leaders: usize, leader_offset: i64) -> (r: Self)
        ensures
            r.slot() == 0,
            no_entries(r.leaders()),
            r.wanted() == num_leaders,
            r.offset() == leader_offset,
    {
        LeaderTrackerImpl { cur_slot: 0, cur_leaders: leaders_new(), num_leaders, leader_offset }
    }

    /// Whether the slots that are searched for leaders can be represented.
    pub fn is_window_defined(&self) -> (r: bool)
        ensures
            r == self.window_defined(),
    {
        let slots: u128 = self.num_leaders as u128 * NUM_LEADERS_PER_SLOT as u128;
        slots <= usize::MAX as u128 && self.cur_slot as u128 + slots <= u64::MAX as u128
    }

    /// Takes note of the next slot, if there is word of one. The slot from which
    /// leaders are wanted only moves forward.
    pub fn poll_slot(&mut self, next_slot: Option<u64>)
        requires
            next_slot matches Some(next) ==> start_slot_defined(next, old(self).offset()),
        ensures
            final(self).slot() == slot_after(old(self).slot(), old(self).offset(), next_slot),
            final(self).leaders() == old(self).leaders(),
            final(self).wanted() == old(self).wanted(),
            final(self).offset() == old(self).offset(),
    {
        if let Some(next) = next_slot {
            let start = _get_start_slot(next, self.leader_offset);
            if start > self.cur_slot {
                self.cur_slot = start;
            }
        }
    }

    /// The request for the upcoming leaders: the slot from which they are to be looked
    /// up, and for how many slots.
    pub fn slot_leaders_request(&self) -> (r: Result<(u64, u64), AtlasTxnSenderError>)
        ensures
            match r {
                Ok((slot, count)) => slot == self.slot() && slot != 0 && count == SLOTS_AHEAD,
                Err(e) => e is NoStartSlot && self.slot() == 0,
            },
    {
        if self.cur_slot == 0 {
            return Err(AtlasTxnSenderError::NoStartSlot);
        }
        Ok((self.cur_slot, SLOTS_AHEAD))
    }

    /// Takes the replies to the two requests of a poll, for the leaders of the slots from
    /// `next_slot` on and for the nodes of the cluster. An error in either, the first one
    /// before the second, leaves everything as it was; else the leaders are recorded.
    pub fn finish_poll(
        &mut self,
        next_slot: u64,
        slot_leaders: Result<Vec<String>, String>,
        nodes: Result<Vec<ContactInfo>, String>,
    ) -> (r: Result<(), AtlasTxnSenderError>)
        requires
            slot_leaders is Ok && nodes is Ok ==> next_slot + slot_leaders->Ok_0.len() <= u64::MAX,
        ensures
            match (slot_leaders, nodes) {
                (Err(text), _) => poll_failed(r, "Error getting slot leaders: "@ + text@),
                (Ok(_), Err(text)) => poll_failed(r, "Error getting cluster nodes: "@ + text@),
                (Ok(_), Ok(_)) => r is Ok,
            },
            final(self).leaders() == match (slot_leaders, nodes) {
                (Ok(names), Ok(contacts)) => polled(
                    old(self).leaders(),
                    old(self).slot(),
                    next_slot,
                    crate::collections::texts(names@),
                    contact_views(contacts@),
                ),
                _ => old(self).leaders(),
            },
            final(self).slot() == old(self).slot(),
            final(self).wanted() == old(self).wanted(),
            final(self).offset() == old(self).offset(),
    {
        let slot_leaders = match slot_leaders_reply(slot_leaders) {
            Ok(slot_leaders) => slot_leaders,
            Err(e) => {
                return Err(e);
            },
        };
        let nodes = match cluster_nodes_reply(nodes) {
            Ok(nodes) => nodes,
            Err(e) => {
                return Err(e);
            },
        };
        self.record_slot_leaders(next_slot, &slot_leaders, &nodes);
        Ok(())
    }

    /// Takes note of who leads the slots from `next_slot` on, as far as the nodes
    /// are known, and forgets the slots that are past.
    pub fn record_slot_leaders(
        &mut self,
        next_slot: u64,
        slot_leaders: &Vec<String>,
        nodes: &Vec<ContactInfo>,
    )
        requires
            next_slot + slot_leaders.len() <= u64::MAX,
        ensures
            final(self).leaders() == polled(
                old(self).leaders(),
                old(self).slot(),
                next_slot,
                crate::collections::texts(slot_leaders@),
                contact_views(nodes@),
            ),
            final(self).slot() == old(self).slot(),
            final(self).wanted() == old(self).wanted(),
            final(self).offset() == old(self).offset(),
    {
        let ghost names = crate::collections::texts(slot_leaders@);
        let ghost views = contact_views(nodes@);
        let ghost before = self.leaders();
        assert(before.union_prefer_right(found_leaders(next_slot, names.take(0), views))
            =~= before);
        for i in 0..slot_leaders.len()
            invariant
                next_slot + slot_leaders.len() <= u64::MAX,
                names == crate::collections::texts(slot_leaders@),
                views == contact_views(nodes@),
                self.leaders() == before.union_prefer_right(
                    found_leaders(next_slot, names.take(i as int), views),
                ),
                self.slot() == old(self).slot(),
                self.wanted() == old(self).wanted(),
                self.offset() == old(self).offset(),
        {
            if let Some(node) = find_node(nodes, &slot_leaders[i]) {
                leaders_insert(&mut self.cur_leaders, next_slot + i as u64, node);
            }
            proof {
                let less = found_leaders(next_slot, names.take(i as int), views);
                let more = found_leaders(next_slot, names.take(i + 1), views);
                assert(names.take(i + 1)[i as int] == names[i as int]);
                assert forall|j: int| 0 <= j < i implies #[trigger] names.take(i + 1)[j]
                    == names.take(i as int)[j] by {}
                match node_for(views, names[i as int]) {
                    Some(node) => {
                        assert(more =~= less.insert((next_slot + i) as u64, node));
                    },
                    None => {
                        assert(more =~= less);
                    },
                }
                assert(self.leaders() =~= before.union_prefer_right(more));
            }
        }
        assert(names.take(slot_leaders.len() as int) =~= names);
        self.clean_up_slot_leaders();
    }

    /// Forgets the leaders of slots that are past.
    pub fn clean_up_slot_leaders(&mut self)
        ensures
            final(self).leaders() == from_slot_on(old(self).leaders(), old(self).slot()),
            final(self).slot() == old(self).slot(),
            final(self).wanted() == old(self).wanted(),
            final(self).offset() == old(self).offset(),
    {
        let slots = leaders_slots(&self.cur_leaders);
        let ghost before = self.leaders();
        let ghost now = self.slot();
        assert(before =~= without_past(before, now, slots@.take(0)));
        for i in 0..slots.len()
            invariant
                self.leaders() == without_past(before, now, slots@.take(i as int)),
                self.slot() == now,
                now == old(self).slot(),
                self.wanted() == old(self).wanted(),
                self.offset() == old(self).offset(),
        {
            let slot = slots[i];
            if slot < self.cur_slot {
                leaders_remove(&mut self.cur_leaders, slot);
            }
            assert forall|s: u64|
                slots@.take(i + 1).contains(s) <==> slots@.take(i as int).contains(s) || s
                    == slot by {
                if slots@.take(i as int).contains(s) {
                    let j = choose|j: int| 0 <= j < i && slots@.take(i as int)[j] == s;
                    assert(slots@.take(i + 1)[j] == s);
                }
                assert(slots@.take(i + 1)[i as int] == slot);
            }
            assert(self.leaders() =~= without_past(before, now, slots@.take(i + 1)));
        }
        assert(slots@.take(slots.len() as int) =~= slots@);
        assert forall|s: u64| before.contains_key(s) implies slots@.contains(s) by {
            assert(slots@.to_set().contains(s));
        }
        assert(self.leaders() =~= from_slot_on(before, now));
    }
}

/// The entries without those of `seen` that lie before `slot`.
spec fn without_past(leaders: Map<u64, ContactView>, slot: u64, seen: Seq<u64>) -> Map<
    u64,
    ContactView,
> {
    Map::new(
        |s: u64| leaders.contains_key(s) && !(s < slot && seen.contains(s)),
        |s: u64| leaders[s],
    )
}

/// A poll that failed with the given message.
pub open spec fn poll_failed(r: Result<(), AtlasTxnSenderError>, message: Seq<char>) -> bool {
    r matches Err(AtlasTxnSenderError::Custom(text)) && text@ == message
}

/// Takes the answer to the request for slot leaders, or wraps its error.
pub fn slot_leaders_reply(reply: Result<Vec<String>, String>) -> (r: Result<
    Vec<String>,
    AtlasTxnSenderError,
>)
    ensures
        match (reply, r) {
            (Ok(leaders), Ok(taken)) => taken == leaders,
            (Err(text), Err(AtlasTxnSenderError::Custom(message))) => message@
                == "Error getting slot leaders: "@ + text@,
            _ => false,
        },
{
    match reply {
        Ok(leaders) => Ok(leaders),
        Err(text) => Err(
            AtlasTxnSenderError::Custom(
                "Error getting slot leaders: ".to_string().concat(text.as_str()),
            ),
        ),
    }
}

/// Takes the answer to the request for the cluster's nodes, or wraps its error.
pub fn cluster_nodes_reply(reply: Result<Vec<ContactInfo>, String>) -> (r: Result<
    Vec<ContactInfo>,
    AtlasTxnSenderError,
>)
    ensures
        match (reply, r) {
            (Ok(nodes), Ok(taken)) => taken == nodes,
            (Err(text), Err(AtlasTxnSenderError::Custom(message))) => message@
                == "Error getting cluster nodes: "@ + text@,
            _ => false,
        },
{
    match reply {
        Ok(nodes) => Ok(nodes),
        Err(text) => Err(
            AtlasTxnSenderError::Custom(
                "Error getting cluster nodes: ".to_string().concat(text.as_str()),
            ),
        ),
    }
}

/// Milliseconds to wait before the leaders are looked up again.
pub fn next_poll_delay(outcome: &Result<(), AtlasTxnSenderError>) -> (r: u64)
    ensures
        r == match outcome {
            Ok(_) => 60_000u64,
            Err(AtlasTxnSenderError::NoStartSlot) => 200,
            Err(AtlasTxnSenderError::Custom(_)) => 1_000,
        },
{
    match outcome {
        Ok(_) => 60_000,
        Err(AtlasTxnSenderError::NoStartSlot) => 200,
        Err(AtlasTxnSenderError::Custom(_)) => 1_000,
    }
}

/// The leader with the given identity serves the slot.
pub open spec fn leads(leaders: Map<u64, ContactView>, slot: int, pubkey: Seq<char>) -> bool {
    leaders.contains_key(slot as u64) && leaders[slot as u64].pubkey == pubkey
}

/// The first slot from `slot` on that the leader with the given identity serves;
/// `end` if it serves none before that.
pub open spec fn first_slot(
    leaders: Map<u64, ContactView>,
    slot: int,
    end: int,
    pubkey: Seq<char>,
) -> int
    decreases end - slot,
{
    if slot >= end || leads(leaders, slot, pubkey) {
        slot
    } else {
        first_slot(leaders, slot + 1, end, pubkey)
    }
}

/// `listed` are leaders of the slots from `start` to `end`, none of them twice, in
/// the order of their first slots; and a leader that is not among them comes up
/// after all of them.
pub open spec fn next_in_order(
    leaders: Map<u64, ContactView>,
    start: int,
    end: int,
    listed: Seq<ContactView>,
) -> bool {
    &&& forall|i: int|
        0 <= i < listed.len() ==> start <= first_slot(
            leaders,
            start,
            end,
            #[trigger] listed[i].pubkey,
        ) < end
    &&& forall|i: int, j: int|
        #![trigger listed[i], listed[j]]
        0 <= i < j < listed.len() ==> first_slot(leaders, start, end, listed[i].pubkey)
            < first_slot(leaders, start, end, listed[j].pubkey)
    &&& forall|slot: int, i: int|
        #![trigger leaders[slot as u64], listed[i]]
        start <= slot < end && leaders.contains_key(slot as u64) && (forall|j: int|
            0 <= j < listed.len() ==> #[trigger] listed[j].pubkey != leaders[slot as u64].pubkey)
            && 0 <= i < listed.len() ==> first_slot(leaders, start, end, listed[i].pubkey) < slot
}

proof fn lemma_first_slot(
    leaders: Map<u64, ContactView>,
    slot: int,
    end: int,
    pubkey: Seq<char>,
)
    requires
        slot <= end,
    ensures
        slot <= first_slot(leaders, slot, end, pubkey) <= end,
        first_slot(leaders, slot, end, pubkey) < end ==> leads(
            leaders,
            first_slot(leaders, slot, end, pubkey),
            pubkey,
        ),
        forall|s: int|
            slot <= s < first_slot(leaders, slot, end, pubkey) ==> !#[trigger] leads(
                leaders,
                s,
                pubkey,
            ),
    decreases end - slot,
{
    if slot < end && !leads(leaders, slot, pubkey) {
        lemma_first_slot(leaders, slot + 1, end, pubkey);
    }
}

/// What holds of the entries that were gathered from `start` up to, but not
/// including, `slot`.
spec fn gathered_up_to(
    leaders: Map<u64, ContactView>,
    start: int,
    slot: int,
    end: int,
    entries: Seq<(Seq<char>, ContactView)>,
) -> bool {
    &&& forall|i: int|
        0 <= i < entries.len() ==> (#[trigger] entries[i]).0 == entries[i].1.pubkey && start
            <= first_slot(leaders, start, end, entries[i].0) < slot
    &&& forall|i: int, j: int|
        #![trigger entries[i], entries[j]]
        0 <= i < j < entries.len() ==> first_slot(leaders, start, end, entries[i].0) < first_slot(
            leaders,
            start,
            end,
            entries[j].0,
        )
    &&& forall|s: int|
        start <= s < slot && leaders.contains_key(s as u64) ==> has_key(
            entries,
            #[trigger] leaders[s as u64].pubkey,
        )
}

proof fn lemma_gather_one(
    leaders: Map<u64, ContactView>,
    start: int,
    slot: int,
    end: int,
    entries: Seq<(Seq<char>, ContactView)>,
)
    requires
        0 <= start <= slot < end <= u64::MAX,
        gathered_up_to(leaders, start, slot, end, entries),
        leaders.contains_key(slot as u64),
    ensures
        gathered_up_to(
            leaders,
            start,
            slot + 1,
            end,
            with_entry(entries, leaders[slot as u64].pubkey, leaders[slot as u64]),
        ),
        entries.len() <= with_entry(
            entries,
            leaders[slot as u64].pubkey,
            leaders[slot as u64],
        ).len() <= entries.len() + 1,
{
    let key = leaders[slot as u64].pubkey;
    let more = with_entry(entries, key, leaders[slot as u64]);
    if has_key(entries, key) {
        assert forall|k: Seq<char>| has_key(entries, k) implies has_key(more, k) by {
            let i = choose|i: int| 0 <= i < entries.len() && (#[trigger] entries[i]).0 == k;
            assert(more[i].0 == k);
        }
        assert forall|i: int| 0 <= i < more.len() implies (#[trigger] more[i]).0 == entries[i].0
            && more[i].0 == more[i].1.pubkey by {}
        assert forall|i: int, j: int|
            #![trigger more[i], more[j]]
            0 <= i < j < more.len() implies first_slot(leaders, start, end, more[i].0)
            < first_slot(leaders, start, end, more[j].0) by {
            assert(more[i].0 == entries[i].0 && more[j].0 == entries[j].0);
        }
    } else {
        lemma_first_slot(leaders, start, end, key);
        let first = first_slot(leaders, start, end, key);
        assert(leads(leaders, slot, key));
        if first < slot {
            assert(leads(leaders, first, key));
            assert(has_key(entries, leaders[first as u64].pubkey));
        }
        assert(first == slot);
        assert(more[entries.len() as int].0 == key);
        assert forall|k: Seq<char>| has_key(entries, k) implies has_key(more, k) by {
            let i = choose|i: int| 0 <= i < entries.len() && (#[trigger] entries[i]).0 == k;
            assert(more[i].0 == k);
        }
    }
}

proof fn lemma_gathered(
    leaders: Map<u64, ContactView>,
    start: int,
    slot: int,
    end: int,
    wanted: nat,
    entries: Seq<(Seq<char>, ContactView)>,
) -> (stop: int)
    requires
        0 <= start <= slot <= end <= u64::MAX,
        gathered_up_to(leaders, start, slot, end, entries),
        entries.len() < wanted || slot == end,
        entries.len() <= wanted,
    ensures
        slot <= stop <= end,
        gathered_up_to(leaders, start, stop, end, gathered(leaders, slot, end, wanted, entries)),
        gathered(leaders, slot, end, wanted, entries).len() <= wanted,
        stop < end ==> gathered(leaders, slot, end, wanted, entries).len() == wanted,
    decreases end - slot,
{
    if slot >= end {
        slot
    } else {
        let found = match leaders.get(slot as u64) {
            Some(leader) => with_entry(entries, leader.pubkey, leader),
            None => entries,
        };
        if leaders.contains_key(slot as u64) {
            lemma_gather_one(leaders, start, slot, end, entries);
        }
        assert(gathered_up_to(leaders, start, slot + 1, end, found));
        if found.len() >= wanted {
            slot + 1
        } else {
            lemma_gathered(leaders, start, slot + 1, end, wanted, found)
        }
    }
}

/// The contact is, with its address, the one that is known for some slot from `start` to
/// `end`.
pub open spec fn is_known_contact(
    leaders: Map<u64, ContactView>,
    start: int,
    end: int,
    contact: ContactView,
) -> bool {
    exists|slot: int|
        start <= slot < end && leaders.contains_key(slot as u64) && #[trigger] leaders[slot as u64]
            == contact
}

proof fn lemma_gathered_known(
    leaders: Map<u64, ContactView>,
    start: int,
    slot: int,
    end: int,
    wanted: nat,
    entries: Seq<(Seq<char>, ContactView)>,
)
    requires
        start <= slot,
        forall|i: int|
            0 <= i < entries.len() ==> is_known_contact(
                leaders,
                start,
                end,
                (#[trigger] entries[i]).1,
            ),
    ensures
        forall|i: int|
            0 <= i < gathered(leaders, slot, end, wanted, entries).len() ==> is_known_contact(
                leaders,
                start,
                end,
                (#[trigger] gathered(leaders, slot, end, wanted, entries)[i]).1,
            ),
    decreases end - slot,
{
    if slot < end {
        let found = match leaders.get(slot as u64) {
            Some(leader) => with_entry(entries, leader.pubkey, leader),
            None => entries,
        };
        assert forall|i: int| 0 <= i < found.len() implies is_known_contact(
            leaders,
            start,
            end,
            (#[trigger] found[i]).1,
        ) by {
            if leaders.contains_key(slot as u64) {
                assert(is_known_contact(leaders, start, end, leaders[slot as u64]));
            }
            if i < entries.len() {
                assert(is_known_contact(leaders, start, end, entries[i].1));
            }
        }
        if found.len() < wanted {
            lemma_gathered_known(leaders, start, slot + 1, end, wanted, found);
            assert(gathered(leaders, slot, end, wanted, entries) == gathered(
                leaders,
                slot + 1,
                end,
                wanted,
                found,
            ));
        } else {
            assert(gathered(leaders, slot, end, wanted, entries) == found);
        }
    }
}

/// Each leader that is listed is, with its address and all, the one that is known for one
/// of the slots that are searched, four slots for each leader that is wanted.
pub proof fn law_listed_leaders_are_known(
    leaders: Map<u64, ContactView>,
    start: int,
    wanted: nat,
    i: int,
)
    requires
        0 <= i < next_leaders(leaders, start, wanted).len(),
    ensures
        exists|slot: int|
            start <= slot < start + wanted * 4 && leaders.contains_key(slot as u64)
                && #[trigger] leaders[slot as u64] == next_leaders(leaders, start, wanted)[i],
{
    let none = Seq::<(Seq<char>, ContactView)>::empty();
    let end = start + wanted * NUM_LEADERS_PER_SLOT;
    lemma_gathered_known(leaders, start, start, end, wanted, none);
    let entries = gathered(leaders, start, end, wanted, none);
    assert(values_of(entries)[i] == entries[i].1);
    assert(is_known_contact(leaders, start, end, entries[i].1));
}

/// Of several contacts that are known for one leader in the slots from `start` up to, but
/// not including, `stop`, this one is that of the last slot.
pub open spec fn is_latest_contact(
    leaders: Map<u64, ContactView>,
    start: int,
    stop: int,
    contact: ContactView,
) -> bool {
    exists|slot: int|
        start <= slot < stop && leaders.contains_key(slot as u64) && #[trigger] leaders[slot as u64]
            == contact && forall|later: int|
            slot < later < stop && leaders.contains_key(later as u64) ==> #[trigger] leaders[
                later as u64
            ].pubkey != contact.pubkey
}

proof fn lemma_gathered_latest(
    leaders: Map<u64, ContactView>,
    start: int,
    slot: int,
    end: int,
    wanted: nat,
    entries: Seq<(Seq<char>, ContactView)>,
) -> (stop: int)
    requires
        0 <= start <= slot <= end <= u64::MAX,
        entries.len() < wanted || slot == end,
        forall|i: int|
            0 <= i < entries.len() ==> (#[trigger] entries[i]).0 == entries[i].1.pubkey
                && is_latest_contact(leaders, start, slot, entries[i].1),
    ensures
        slot <= stop <= end,
        stop < end ==> gathered(leaders, slot, end, wanted, entries).len() >= wanted,
        forall|i: int|
            0 <= i < gathered(leaders, slot, end, wanted, entries).len() ==> is_latest_contact(
                leaders,
                start,
                stop,
                (#[trigger] gathered(leaders, slot, end, wanted, entries)[i]).1,
            ),
    decreases end - slot,
{
    if slot >= end {
        slot
    } else {
        let found = match leaders.get(slot as u64) {
            Some(leader) => with_entry(entries, leader.pubkey, leader),
            None => entries,
        };
        assert forall|i: int| 0 <= i < found.len() implies (#[trigger] found[i]).0
            == found[i].1.pubkey && is_latest_contact(leaders, start, slot + 1, found[i].1) by {
            let contact = found[i].1;
            if leaders.contains_key(slot as u64) && contact == leaders[slot as u64] {
                assert(is_latest_contact(leaders, start, slot + 1, contact));
            } else {
                assert(found[i] == entries[i]);
                let s = choose|s: int|
                    start <= s < slot && leaders.contains_key(s as u64) && #[trigger] leaders[
                        s as u64
                    ] == contact && forall|later: int|
                        s < later < slot && leaders.contains_key(later as u64)
                            ==> #[trigger] leaders[later as u64].pubkey != contact.pubkey;
                assert(leaders[s as u64] == contact);
            }
        }
        if found.len() >= wanted {
            assert(gathered(leaders, slot, end, wanted, entries) == found);
            slot + 1
        } else {
            let stop = lemma_gathered_latest(leaders, start, slot + 1, end, wanted, found);
            assert(gathered(leaders, slot, end, wanted, entries) == gathered(
                leaders,
                slot + 1,
                end,
                wanted,
                found,
            ));
            stop
        }
    }
}

/// A leader is listed with the contact that is known for the last slot of its that was
/// searched; the search ends early only once as many leaders as wanted are found.
pub proof fn law_latest_contact_is_listed(
    leaders: Map<u64, ContactView>,
    start: int,
    wanted: nat,
) -> (stop: int)
    requires
        0 <= start,
        start + wanted * 4 <= u64::MAX,
    ensures
        start <= stop <= start + wanted * 4,
        stop < start + wanted * 4 ==> next_leaders(leaders, start, wanted).len() >= wanted,
        forall|i: int|
            0 <= i < next_leaders(leaders, start, wanted).len() ==> is_latest_contact(
                leaders,
                start,
                stop,
                #[trigger] next_leaders(leaders, start, wanted)[i],
            ),
{
    let none = Seq::<(Seq<char>, ContactView)>::empty();
    let end = start + wanted * NUM_LEADERS_PER_SLOT;
    let stop = lemma_gathered_latest(leaders, start, start, end, wanted, none);
    let entries = gathered(leaders, start, end, wanted, none);
    assert forall|i: int| 0 <= i < next_leaders(leaders, start, wanted).len() implies
        is_latest_contact(
        leaders,
        start,
        stop,
        #[trigger] next_leaders(leaders, start, wanted)[i],
    ) by {
        assert(next_leaders(leaders, start, wanted)[i] == entries[i].1);
    }
    stop
}

/// A slot is known unless it is zero.
pub proof fn law_zero_is_no_slot(slot: u64)
    ensures
        slot == 0 <==> known_slot(slot) is None,
        known_slot(slot) matches Some(known) ==> known == slot,
{
}

/// The slot that leaders are wanted from lies four slots ahead of the next one for each
/// leader of the offset, and behind it for a negative one.
pub proof fn law_start_slot_is_offset(next_slot: u64, leader_offset: i64)
    ensures
        start_slot(next_slot, leader_offset) - next_slot == 4 * leader_offset,
        start_slot_defined(next_slot, leader_offset) <==> {
            &&& i64::MIN < 4 * leader_offset <= i64::MAX
            &&& 0 <= next_slot + 4 * leader_offset <= u64::MAX
        },
{
}

/// The slot that leaders are wanted from is the furthest one that there was word of.
pub proof fn law_slots_move_forward(slot: u64, leader_offset: i64, next_slot: Option<u64>)
    ensures
        slot_after(slot, leader_offset, next_slot) >= slot,
        next_slot is None ==> slot_after(slot, leader_offset, next_slot) == slot,
        next_slot matches Some(next) ==> {
            &&& slot_after(slot, leader_offset, next_slot) >= next + 4 * leader_offset
            &&& slot_after(slot, leader_offset, next_slot) == slot || slot_after(
                slot,
                leader_offset,
                next_slot,
            ) == next + 4 * leader_offset
        },
{
}

/// What a poll records: the leader of each slot is the last node in the list that has its
/// identity, and there is none if no node has it.
pub proof fn law_poll_records_named_nodes(
    leaders: Map<u64, ContactView>,
    slot: u64,
    next_slot: u64,
    slot_leaders: Seq<Seq<char>>,
    nodes: Seq<ContactView>,
    i: int,
    k: int,
)
    requires
        0 <= i < slot_leaders.len(),
        next_slot + i <= u64::MAX,
        slot <= next_slot + i,
        0 <= k < nodes.len(),
        nodes[k].pubkey == slot_leaders[i],
        forall|j: int| k < j < nodes.len() ==> (#[trigger] nodes[j]).pubkey != slot_leaders[i],
    ensures
        ({
            let after = polled(leaders, slot, next_slot, slot_leaders, nodes);
            &&& after.contains_key((next_slot + i) as u64)
            &&& after[(next_slot + i) as u64] == nodes[k]
        }),
{
    lemma_node_for(nodes, slot_leaders[i], k);
}

proof fn lemma_node_for(nodes: Seq<ContactView>, pubkey: Seq<char>, k: int)
    requires
        0 <= k < nodes.len(),
        nodes[k].pubkey == pubkey,
        forall|j: int| k < j < nodes.len() ==> (#[trigger] nodes[j]).pubkey != pubkey,
    ensures
        node_for(nodes, pubkey) == Some(nodes[k]),
    decreases nodes.len(),
{
    if k < nodes.len() - 1 {
        let less = nodes.drop_last();
        assert forall|j: int| k < j < less.len() implies (#[trigger] less[j]).pubkey != pubkey by {
            assert(less[j] == nodes[j]);
        }
        lemma_node_for(less, pubkey, k);
    }
}

proof fn lemma_no_node_for(nodes: Seq<ContactView>, pubkey: Seq<char>)
    requires
        forall|j: int| 0 <= j < nodes.len() ==> (#[trigger] nodes[j]).pubkey != pubkey,
    ensures
        node_for(nodes, pubkey) is None,
    decreases nodes.len(),
{
    if nodes.len() > 0 {
        let less = nodes.drop_last();
        assert forall|j: int| 0 <= j < less.len() implies (#[trigger] less[j]).pubkey != pubkey by {
            assert(less[j] == nodes[j]);
        }
        lemma_no_node_for(less, pubkey);
    }
}

/// A poll forgets what lies behind the slot that leaders are wanted from, and leaves all
/// else as it was: the slots that it was not told about, and those whose leader is not
/// among the nodes.
pub proof fn law_poll_leaves_the_rest(
    leaders: Map<u64, ContactView>,
    slot: u64,
    next_slot: u64,
    slot_leaders: Seq<Seq<char>>,
    nodes: Seq<ContactView>,
    other: u64,
)
    ensures
        ({
            let after = polled(leaders, slot, next_slot, slot_leaders, nodes);
            &&& other < slot ==> !after.contains_key(other)
            &&& other >= slot && ({
                ||| other < next_slot
                ||| other >= next_slot + slot_leaders.len()
                ||| forall|j: int|
                    0 <= j < nodes.len() ==> (#[trigger] nodes[j]).pubkey != slot_leaders[other
                        - next_slot]
            }) ==> after.get(other) == leaders.get(other)
        }),
{
    if next_slot <= other < next_slot + slot_leaders.len() && (forall|j: int|
        0 <= j < nodes.len() ==> (#[trigger] nodes[j]).pubkey != slot_leaders[other - next_slot]) {
        lemma_no_node_for(nodes, slot_leaders[other - next_slot]);
    }
}

/// The leaders that [`LeaderTracker::get_leaders`] lists are the next slot leaders
/// in order, no more than were wanted, and fewer only if all leaders of the slots
/// that are searched are listed.
pub proof fn law_next_leaders_in_order(
    leaders: Map<u64, ContactView>,
    start: int,
    wanted: nat,
)
    requires
        0 <= start,
        start + wanted * NUM_LEADERS_PER_SLOT <= u64::MAX,
    ensures
        ({
            let end = start + wanted * NUM_LEADERS_PER_SLOT;
            let listed = next_leaders(leaders, start, wanted);
            &&& next_in_order(leaders, start, end, listed)
            &&& listed.len() <= wanted
            &&& listed.len() < wanted ==> forall|slot: int|
                start <= slot < end && #[trigger] leaders.contains_key(slot as u64) ==> exists|
                    i: int,
                |
                    0 <= i < listed.len() && #[trigger] listed[i].pubkey
                        == leaders[slot as u64].pubkey
        }),
{
    let end = start + wanted * NUM_LEADERS_PER_SLOT;
    let none = Seq::<(Seq<char>, ContactView)>::empty();
    assert(gathered_up_to(leaders, start, start, end, none));
    let stop = lemma_gathered(leaders, start, start, end, wanted, none);
    let entries = gathered(leaders, start, end, wanted, none);
    let listed = values_of(entries);
    assert forall|i: int| 0 <= i < listed.len() implies #[trigger] listed[i].pubkey
        == entries[i].0 by {}
    assert forall|i: int, j: int|
        #![trigger listed[i], listed[j]]
        0 <= i < j < listed.len() implies first_slot(leaders, start, end, listed[i].pubkey)
        < first_slot(leaders, start, end, listed[j].pubkey) by {
        assert(entries[i].0 == listed[i].pubkey && entries[j].0 == listed[j].pubkey);
    }
    assert forall|slot: int| start <= slot < stop && #[trigger] leaders.contains_key(
        slot as u64,
    ) implies exists|i: int|
        0 <= i < listed.len() && #[trigger] listed[i].pubkey == leaders[slot as u64].pubkey by {
        assert(has_key(entries, leaders[slot as u64].pubkey));
        let i = choose|i: int|
            0 <= i < entries.len() && (#[trigger] entries[i]).0 == leaders[slot as u64].pubkey;
        assert(listed[i].pubkey == leaders[slot as u64].pubkey);
    }
    assert forall|slot: int, i: int|
        #![trigger leaders[slot as u64], listed[i]]
        start <= slot < end && leaders.contains_key(slot as u64) && (forall|j: int|
            0 <= j < listed.len() ==> #[trigger] listed[j].pubkey != leaders[slot as u64].pubkey)
            && 0 <= i < listed.len() implies first_slot(leaders, start, end, listed[i].pubkey)
        < slot by {
        assert(entries[i].0 == listed[i].pubkey);
        assert(slot >= stop);
    }
}

/// Looking leaders up again from the same slot, with the same answers, changes
/// nothing.
pub proof fn law_recording_twice(
    leaders: Map<u64, ContactView>,
    slot: u64,
    next_slot: u64,
    slot_leaders: Seq<Seq<char>>,
    nodes: Seq<ContactView>,
)
    ensures
        ({
            let once = polled(leaders, slot, next_slot, slot_leaders, nodes);
            polled(once, slot, next_slot, slot_leaders, nodes) == once
        }),
{
    let found = found_leaders(next_slot, slot_leaders, nodes);
    let once = from_slot_on(leaders.union_prefer_right(found), slot);
    assert(from_slot_on(once.union_prefer_right(found), slot) =~= once);
}

/// Contacts stand for what they hold, one for one: the identity, and the address where
/// there is one.
pub proof fn law_contacts_say_all(contacts: Seq<ContactInfo>, i: int)
    requires
        0 <= i < contacts.len(),
    ensures
        contact_views(contacts).len() == contacts.len(),
        contact_views(contacts)[i].pubkey == contacts[i].pubkey@,
        contacts[i].tpu_quic is None <==> contact_views(contacts)[i].tpu_quic is None,
        contacts[i].tpu_quic matches Some(address) ==> contact_views(contacts)[i].tpu_quic == Some(
            address@,
        ),
{
}

} // verus!
