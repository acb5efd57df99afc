//! Order status state machine — the sole owner of order lifecycle transitions.
//!
//! A submission timeout or lost broker answer moves the order to Unknown,
//! never to a terminal failure — reconciliation against the broker is the
//! only way out. Terminal states accept no further transitions. Every legal
//! transition records exactly one event; an illegal transition errors and
//! records nothing. The instant of each event is handed in by the caller.

use vstd::prelude::*;
use crate::domain::order::{OrderStatus, is_terminal};
use crate::types::Timestamp;

verus! {

/// from-status -> statuses it may move to.
pub open spec fn transition_targets(from: OrderStatus) -> Seq<OrderStatus> {
    match from {
        OrderStatus::Pending => seq![
            OrderStatus::Submitted,
            OrderStatus::Rejected,
            OrderStatus::Cancelled,
            OrderStatus::Unknown,
        ],
        OrderStatus::Submitted => seq![
            OrderStatus::PartiallyFilled,
            OrderStatus::Filled,
            OrderStatus::Cancelled,
            OrderStatus::Rejected,
            OrderStatus::Unknown,
        ],
        OrderStatus::PartiallyFilled => seq![
            OrderStatus::PartiallyFilled,
            OrderStatus::Filled,
            OrderStatus::Cancelled,
            OrderStatus::Unknown,
        ],
        OrderStatus::Unknown => seq![
            OrderStatus::Submitted,
            OrderStatus::PartiallyFilled,
            OrderStatus::Filled,
            OrderStatus::Cancelled,
            OrderStatus::Rejected,
        ],
        _ => seq![],
    }
}

pub open spec fn is_legal(from: OrderStatus, to: OrderStatus) -> bool {
    transition_targets(from).contains(to)
}

/// Unknown is reachable only while a broker answer is outstanding.
pub open spec fn unknown_entry_allowed(status: OrderStatus) -> bool {
    status == OrderStatus::Pending || status == OrderStatus::Submitted
}

/// from-status -> statuses it may move to.
pub fn transitions(from: OrderStatus) -> (r: Vec<OrderStatus>)
    ensures
        r@ == transition_targets(from),
{
    match from {
        OrderStatus::Pending => vec![
            OrderStatus::Submitted,
            OrderStatus::Rejected,
            OrderStatus::Cancelled,
            OrderStatus::Unknown,
        ],
        OrderStatus::Submitted => vec![
            OrderStatus::PartiallyFilled,
            OrderStatus::Filled,
            OrderStatus::Cancelled,
            OrderStatus::Rejected,
            OrderStatus::Unknown,
        ],
        OrderStatus::PartiallyFilled => vec![
            OrderStatus::PartiallyFilled,
            OrderStatus::Filled,
            OrderStatus::Cancelled,
            OrderStatus::Unknown,
        ],
        OrderStatus::Unknown => vec![
            OrderStatus::Submitted,
            OrderStatus::PartiallyFilled,
            OrderStatus::Filled,
            OrderStatus::Cancelled,
            OrderStatus::Rejected,
        ],
        _ => vec![],
    }
}

fn unknown_entry_allowed_from(status: OrderStatus) -> (r: bool)
    ensures
        r == unknown_entry_allowed(status),
{
    match status {
        OrderStatus::Pending | OrderStatus::Submitted => true,
        _ => false,
    }
}

#[derive(Debug, Clone)]
pub struct TransitionEvent {
    pub client_order_id: String,
    pub from_status: OrderStatus,
    pub to_status: OrderStatus,
    pub reason: String,
    pub occurred_at: Timestamp,
}

pub struct EventView {
    pub client_order_id: Seq<char>,
    pub from_status: OrderStatus,
    pub to_status: OrderStatus,
    pub reason: Seq<char>,
    pub occurred_at: Timestamp,
}

impl View for TransitionEvent {
    type V = EventView;

    open spec fn view(&self) -> EventView {
        EventView {
            client_order_id: self.client_order_id@,
            from_status: self.from_status,
            to_status: self.to_status,
            reason: self.reason@,
            occurred_at: self.occurred_at,
        }
    }
}

impl TransitionEvent {
    pub fn duplicate(&self) -> (r: TransitionEvent)
        ensures
            r@ == self@,
    {
        TransitionEvent {
            client_order_id: self.client_order_id.clone(),
            from_status: self.from_status,
            to_status: self.to_status,
            reason: self.reason.clone(),
            occurred_at: self.occurred_at,
        }
    }
}

#[derive(Debug, Clone)]
pub enum TransitionError {
    Illegal { client_order_id: String, from: OrderStatus, to: OrderStatus },
    UnknownEntryBlocked { client_order_id: String, from: OrderStatus },
    Unregistered(String),
    AlreadyRegistered(String),
}

/// The events of one order, started at `start`: each moves from where the
/// previous one ended along a legal edge, the whole chain ending at `end`,
/// every event naming the order `id`.
pub open spec fn chain_ok(id: Seq<char>, start: OrderStatus, events: Seq<EventView>, end: OrderStatus) -> bool {
    &&& events.len() == 0 ==> start == end
    &&& events.len() > 0 ==> events[0].from_status == start && events.last().to_status == end
    &&& forall|k: int| 0 <= k < events.len() - 1 ==> #[trigger] events[k].to_status == events[k + 1].from_status
    &&& forall|k: int| 0 <= k < events.len() ==> is_legal(#[trigger] events[k].from_status, events[k].to_status)
    &&& forall|k: int| 0 <= k < events.len() ==> #[trigger] events[k].client_order_id == id
}

/// What the machine knows of one order.
pub struct OrderRecord {
    /// The status the order was registered at.
    pub registered: OrderStatus,
    pub status: OrderStatus,
    pub history: Seq<EventView>,
}

struct Entry {
    client_order_id: String,
    status: OrderStatus,
    history: Vec<TransitionEvent>,
    registered: Ghost<OrderStatus>,
}

pub open spec fn event_views(s: Seq<TransitionEvent>) -> Seq<EventView> {
    Seq::new(s.len(), |i: int| s[i]@)
}

spec fn record_of(e: Entry) -> OrderRecord {
    OrderRecord { registered: e.registered@, status: e.status, history: event_views(e.history@) }
}

spec fn ids_unique(s: Seq<Entry>) -> bool {
    forall|i: int, j: int|
        0 <= i < j < s.len() ==> #[trigger] s[i].client_order_id@ != #[trigger] s[j].client_order_id@
}

spec fn chains_ok(s: Seq<Entry>) -> bool {
    forall|i: int|
        0 <= i < s.len() ==> chain_ok(
            #[trigger] s[i].client_order_id@,
            s[i].registered@,
            event_views(s[i].history@),
            s[i].status,
        )
}

spec fn records_of(s: Seq<Entry>) -> Map<Seq<char>, OrderRecord> {
    Map::new(
        |k: Seq<char>| exists|i: int| 0 <= i < s.len() && #[trigger] s[i].client_order_id@ == k,
        |k: Seq<char>| record_of(s[choose|i: int| 0 <= i < s.len() && #[trigger] s[i].client_order_id@ == k]),
    )
}

proof fn lemma_records_at(s: Seq<Entry>, i: int)
    requires
        ids_unique(s),
        0 <= i < s.len(),
    ensures
        records_of(s).contains_key(s[i].client_order_id@),
        records_of(s)[s[i].client_order_id@] == record_of(s[i]),
{
    let k = s[i].client_order_id@;
    assert(s[i].client_order_id@ == k);
    let c = choose|j: int| 0 <= j < s.len() && #[trigger] s[j].client_order_id@ == k;
    if c != i {
        if c < i {
            assert(s[c].client_order_id@ != s[i].client_order_id@);
        } else {
            assert(s[i].client_order_id@ != s[c].client_order_id@);
        }
    }
}

proof fn lemma_records_update(s: Seq<Entry>, idx: int, e: Entry)
    requires
        ids_unique(s),
        0 <= idx < s.len(),
        e.client_order_id@ == s[idx].client_order_id@,
    ensures
        ids_unique(s.update(idx, e)),
        records_of(s.update(idx, e)) == records_of(s).insert(e.client_order_id@, record_of(e)),
{
    let t = s.update(idx, e);
    assert forall|i: int, j: int| 0 <= i < j < t.len() implies #[trigger] t[i].client_order_id@
        != #[trigger] t[j].client_order_id@ by {
        assert(s[i].client_order_id@ != s[j].client_order_id@);
    }
    let m = records_of(s).insert(e.client_order_id@, record_of(e));
    assert forall|k: Seq<char>| #[trigger] records_of(t).contains_key(k) == m.contains_key(k) by {
        if records_of(s).contains_key(k) {
            let c = choose|i: int| 0 <= i < s.len() && #[trigger] s[i].client_order_id@ == k;
            assert(t[c].client_order_id@ == k);
        } else if records_of(t).contains_key(k) {
            let c = choose|i: int| 0 <= i < t.len() && #[trigger] t[i].client_order_id@ == k;
            assert(s[c].client_order_id@ == k);
        }
    }
    assert forall|k: Seq<char>| #[trigger] records_of(t).contains_key(k) implies records_of(t)[k] == m[k] by {
        let c = choose|i: int| 0 <= i < t.len() && #[trigger] t[i].client_order_id@ == k;
        lemma_records_at(t, c);
        if c != idx {
            lemma_records_at(s, c);
        }
    }
    assert(records_of(t) =~= m);
}

proof fn lemma_records_push(s: Seq<Entry>, e: Entry)
    requires
        ids_unique(s),
        !records_of(s).contains_key(e.client_order_id@),
    ensures
        ids_unique(s.push(e)),
        records_of(s.push(e)) == records_of(s).insert(e.client_order_id@, record_of(e)),
{
    let t = s.push(e);
    assert forall|j: int| 0 <= j < s.len() implies #[trigger] s[j].client_order_id@ != e.client_order_id@ by {
        if s[j].client_order_id@ == e.client_order_id@ {
            assert(records_of(s).contains_key(e.client_order_id@));
        }
    }
    assert forall|i: int, j: int| 0 <= i < j < t.len() implies #[trigger] t[i].client_order_id@
        != #[trigger] t[j].client_order_id@ by {
        if j < s.len() {
            assert(s[i].client_order_id@ != s[j].client_order_id@);
        } else {
            assert(s[i].client_order_id@ != e.client_order_id@);
        }
    }
    let m = records_of(s).insert(e.client_order_id@, record_of(e));
    assert forall|k: Seq<char>| #[trigger] records_of(t).contains_key(k) == m.contains_key(k) by {
        if k == e.client_order_id@ {
            assert(t[s.len() as int].client_order_id@ == k);
        } else if records_of(s).contains_key(k) {
            let c = choose|i: int| 0 <= i < s.len() && #[trigger] s[i].client_order_id@ == k;
            assert(t[c].client_order_id@ == k);
        } else if records_of(t).contains_key(k) {
            let c = choose|i: int| 0 <= i < t.len() && #[trigger] t[i].client_order_id@ == k;
            assert(s[c].client_order_id@ == k);
        }
    }
    assert forall|k: Seq<char>| #[trigger] records_of(t).contains_key(k) implies records_of(t)[k] == m[k] by {
        let c = choose|i: int| 0 <= i < t.len() && #[trigger] t[i].client_order_id@ == k;
        lemma_records_at(t, c);
        if c < s.len() {
            lemma_records_at(s, c);
        }
    }
    assert(records_of(t) =~= m);
}

/// Appending one legal step to a legal chain keeps it legal.
proof fn lemma_chain_extend(id: Seq<char>, start: OrderStatus, events: Seq<EventView>, end: OrderStatus, ev: EventView)
    requires
        chain_ok(id, start, events, end),
        ev.from_status == end,
        is_legal(end, ev.to_status),
        ev.client_order_id == id,
    ensures
        chain_ok(id, start, events.push(ev), ev.to_status),
{
    let t = events.push(ev);
    let n = events.len();
    assert forall|k: int| 0 <= k < t.len() - 1 implies #[trigger] t[k].to_status == t[k + 1].from_status by {
        if k < n - 1 {
            assert(events[k].to_status == events[k + 1].from_status);
        }
    }
    assert forall|k: int| 0 <= k < t.len() implies is_legal(#[trigger] t[k].from_status, t[k].to_status) by {
        if k < n {
            assert(is_legal(events[k].from_status, events[k].to_status));
        }
    }
    assert forall|k: int| 0 <= k < t.len() implies #[trigger] t[k].client_order_id == id by {
        if k < n {
            assert(events[k].client_order_id == id);
        }
    }
}

/// Tracks per-order status and enforces the transition table.
pub struct StateMachine {
    entries: Vec<Entry>,
}

impl View for StateMachine {
    type V = Map<Seq<char>, OrderRecord>;

    closed spec fn view(&self) -> Map<Seq<char>, OrderRecord> {
        records_of(self.entries@)
    }
}

/// Every order's history is a legal chain from its registered status to its
/// current status.
pub open spec fn machine_consistent(m: Map<Seq<char>, OrderRecord>) -> bool {
    forall|k: Seq<char>| #[trigger] m.contains_key(k) ==> chain_ok(k, m[k].registered, m[k].history, m[k].status)
}

impl StateMachine {
    #[verifier::type_invariant]
    spec fn well_kept(self) -> bool {
        ids_unique(self.entries@) && chains_ok(self.entries@)
    }

    pub fn new() -> (r: StateMachine)
        ensures
            r@ == Map::<Seq<char>, OrderRecord>::empty(),
    {
        let r = StateMachine { entries: Vec::new() };
        assert(r@ =~= Map::<Seq<char>, OrderRecord>::empty());
        r
    }

    /// The recorded history of every order is a legal chain.
    pub fn check_consistent(&self)
        ensures
            machine_consistent(self@),
    {
        proof {
            use_type_invariant(self);
            let s = self.entries@;
            assert forall|k: Seq<char>| #[trigger] self@.contains_key(k) implies chain_ok(
                k,
                self@[k].registered,
                self@[k].history,
                self@[k].status,
            ) by {
                let i = choose|i: int| 0 <= i < s.len() && #[trigger] s[i].client_order_id@ == k;
                lemma_records_at(s, i);
                assert(chain_ok(s[i].client_order_id@, s[i].registered@, event_views(s[i].history@), s[i].status));
            }
        }
    }

    fn find(&self, client_order_id: &str) -> (r: Option<usize>)
        ensures
            match r {
                Some(i) => i < self.entries@.len() && self.entries@[i as int].client_order_id@ == client_order_id@
                    && self@.contains_key(client_order_id@)
                    && self@[client_order_id@] == record_of(self.entries@[i as int]),
                None => !self@.contains_key(client_order_id@),
            },
    {
        proof {
            use_type_invariant(self);
        }
        let target = String::from_str(client_order_id);
        let mut i: usize = 0;
        while i < self.entries.len()
            invariant
                0 <= i <= self.entries@.len(),
                target@ == client_order_id@,
                ids_unique(self.entries@),
                forall|j: int| 0 <= j < i ==> #[trigger] self.entries@[j].client_order_id@ != client_order_id@,
            decreases self.entries.len() - i,
        {
            if self.entries[i].client_order_id == target {
                proof {
                    lemma_records_at(self.entries@, i as int);
                }
                return Some(i);
            }
            i = i + 1;
        }
        None
    }

    /// Introduce an order at a starting status (Pending, or a restored status
    /// after restart recovery).
    pub fn register(&mut self, client_order_id: &str, status: OrderStatus) -> (r: Result<(), TransitionError>)
        ensures
            old(self)@.contains_key(client_order_id@) ==> (r matches Err(TransitionError::AlreadyRegistered(id))
                && id@ == client_order_id@ && final(self)@ == old(self)@),
            !old(self)@.contains_key(client_order_id@) ==> (r is Ok && final(self)@ == old(self)@.insert(
                client_order_id@,
                OrderRecord { registered: status, status, history: Seq::empty() },
            )),
    {
        proof {
            use_type_invariant(&*self);
        }
        match self.find(client_order_id) {
            Some(_) => {
                return Err(TransitionError::AlreadyRegistered(String::from_str(client_order_id)));
            },
            None => {},
        }
        let ghost before = self.entries@;
        let entry = Entry {
            client_order_id: String::from_str(client_order_id),
            status,
            history: Vec::new(),
            registered: Ghost(status),
        };
        assert(event_views(entry.history@) =~= Seq::<EventView>::empty());
        let mut entries: Vec<Entry> = Vec::new();
        std::mem::swap(&mut entries, &mut self.entries);
        entries.push(entry);
        proof {
            lemma_records_push(before, entry);
            assert(entries@ == before.push(entry));
            assert forall|i: int| 0 <= i < entries@.len() implies chain_ok(
                #[trigger] entries@[i].client_order_id@,
                entries@[i].registered@,
                event_views(entries@[i].history@),
                entries@[i].status,
            ) by {
                if i < before.len() {
                    assert(entries@[i] == before[i]);
                }
            }
        }
        self.entries = entries;
        Ok(())
    }

    pub fn status(&self, client_order_id: &str) -> (r: Option<OrderStatus>)
        ensures
            r == (if self@.contains_key(client_order_id@) {
                Some(self@[client_order_id@].status)
            } else {
                None::<OrderStatus>
            }),
    {
        match self.find(client_order_id) {
            Some(i) => Some(self.entries[i].status),
            None => None,
        }
    }

    /// The events recorded for an order, oldest first (empty when unknown).
    pub fn history(&self, client_order_id: &str) -> (r: Vec<TransitionEvent>)
        ensures
            event_views(r@) == (if self@.contains_key(client_order_id@) {
                self@[client_order_id@].history
            } else {
                Seq::<EventView>::empty()
            }),
    {
        match self.find(client_order_id) {
            Some(i) => {
                let events = &self.entries[i].history;
                let mut out: Vec<TransitionEvent> = Vec::new();
                let mut k: usize = 0;
                while k < events.len()
                    invariant
                        0 <= k <= events@.len(),
                        out@.len() == k,
                        forall|j: int| 0 <= j < k ==> #[trigger] out@[j]@ == events@[j]@,
                    decreases events.len() - k,
                {
                    out.push(events[k].duplicate());
                    k = k + 1;
                }
                assert(event_views(out@) =~= event_views(events@));
                out
            },
            None => {
                let out: Vec<TransitionEvent> = Vec::new();
                assert(event_views(out@) =~= Seq::<EventView>::empty());
                out
            },
        }
    }

    pub fn can_transition(from: OrderStatus, to: OrderStatus) -> (r: bool)
        ensures
            r == is_legal(from, to),
    {
        let targets = transitions(from);
        let mut i: usize = 0;
        while i < targets.len()
            invariant
                targets@ == transition_targets(from),
                0 <= i <= targets@.len(),
                forall|j: int| 0 <= j < i ==> targets@[j] != to,
            decreases targets.len() - i,
        {
            if targets[i] == to {
                assert(targets@[i as int] == to);
                return true;
            }
            i = i + 1;
        }
        false
    }

    /// Move an order to `to`, recording exactly one event stamped
    /// `occurred_at`.
    #[verifier::rlimit(40)]
    pub fn transition(
        &mut self,
        client_order_id: &str,
        to: OrderStatus,
        reason: &str,
        occurred_at: Timestamp,
    ) -> (r: Result<OrderStatus, TransitionError>)
        ensures
            !old(self)@.contains_key(client_order_id@) ==> (r matches Err(TransitionError::Unregistered(id))
                && id@ == client_order_id@ && final(self)@ == old(self)@),
            old(self)@.contains_key(client_order_id@) && !is_legal(old(self)@[client_order_id@].status, to)
                ==> (r matches Err(TransitionError::Illegal { client_order_id: id, from, to: t })
                && id@ == client_order_id@ && from == old(self)@[client_order_id@].status && t == to
                && final(self)@ == old(self)@),
            old(self)@.contains_key(client_order_id@) && is_legal(old(self)@[client_order_id@].status, to)
                ==> (r == Ok::<OrderStatus, TransitionError>(to) && final(self)@ == old(self)@.insert(
                client_order_id@,
                OrderRecord {
                    registered: old(self)@[client_order_id@].registered,
                    status: to,
                    history: old(self)@[client_order_id@].history.push(
                        EventView {
                            client_order_id: client_order_id@,
                            from_status: old(self)@[client_order_id@].status,
                            to_status: to,
                            reason: reason@,
                            occurred_at,
                        },
                    ),
                },
            )),
    {
        proof {
            use_type_invariant(&*self);
        }
        let idx = match self.find(client_order_id) {
            Some(i) => i,
            None => return Err(TransitionError::Unregistered(String::from_str(client_order_id))),
        };
        let current = self.entries[idx].status;
        if !Self::can_transition(current, to) {
            return Err(
                TransitionError::Illegal {
                    client_order_id: String::from_str(client_order_id),
                    from: current,
                    to,
                },
            );
        }
        let event = TransitionEvent {
            client_order_id: String::from_str(client_order_id),
            from_status: current,
            to_status: to,
            reason: String::from_str(reason),
            occurred_at,
        };
        let ghost before = self.entries@;
        let ghost old_view = self@;
        let mut entries: Vec<Entry> = Vec::new();
        std::mem::swap(&mut entries, &mut self.entries);
        let mut entry = entries.remove(idx);
        let ghost old_history = entry.history@;
        entry.history.push(event);
        entry.status = to;
        proof {
            assert(event_views(entry.history@) =~= event_views(old_history).push(event@));
            lemma_chain_extend(
                before[idx as int].client_order_id@,
                before[idx as int].registered@,
                event_views(old_history),
                current,
                event@,
            );
        }
        entries.insert(idx, entry);
        proof {
            assert(entries@ =~= before.update(idx as int, entry));
            lemma_records_update(before, idx as int, entry);
            assert forall|i: int| 0 <= i < entries@.len() implies chain_ok(
                #[trigger] entries@[i].client_order_id@,
                entries@[i].registered@,
                event_views(entries@[i].history@),
                entries@[i].status,
            ) by {
                if i != idx {
                    assert(entries@[i] == before[i]);
                }
            }
        }
        self.entries = entries;
        proof {
            assert(record_of(entry) == (OrderRecord {
                registered: old_view[client_order_id@].registered,
                status: to,
                history: old_view[client_order_id@].history.push(event@),
            }));
            assert(self@ == old_view.insert(client_order_id@, record_of(entry)));
        }
        Ok(to)
    }

    /// Timeout/lost-answer path: Pending|Submitted -> Unknown.
    pub fn mark_unknown(&mut self, client_order_id: &str, reason: &str, occurred_at: Timestamp) -> (r: Result<OrderStatus, TransitionError>)
        ensures
            !old(self)@.contains_key(client_order_id@) ==> (r matches Err(TransitionError::Unregistered(id))
                && id@ == client_order_id@ && final(self)@ == old(self)@),
            old(self)@.contains_key(client_order_id@) && !unknown_entry_allowed(old(self)@[client_order_id@].status)
                ==> (r matches Err(TransitionError::UnknownEntryBlocked { client_order_id: id, from })
                && id@ == client_order_id@ && from == old(self)@[client_order_id@].status
                && final(self)@ == old(self)@),
            old(self)@.contains_key(client_order_id@) && unknown_entry_allowed(old(self)@[client_order_id@].status)
                ==> (r == Ok::<OrderStatus, TransitionError>(OrderStatus::Unknown) && final(self)@ == old(self)@.insert(
                client_order_id@,
                OrderRecord {
                    registered: old(self)@[client_order_id@].registered,
                    status: OrderStatus::Unknown,
                    history: old(self)@[client_order_id@].history.push(
                        EventView {
                            client_order_id: client_order_id@,
                            from_status: old(self)@[client_order_id@].status,
                            to_status: OrderStatus::Unknown,
                            reason: reason@,
                            occurred_at,
                        },
                    ),
                },
            )),
    {
        let current = match self.status(client_order_id) {
            Some(s) => s,
            None => return Err(TransitionError::Unregistered(String::from_str(client_order_id))),
        };
        if !unknown_entry_allowed_from(current) {
            return Err(
                TransitionError::UnknownEntryBlocked {
                    client_order_id: String::from_str(client_order_id),
                    from: current,
                },
            );
        }
        assert(transition_targets(current).contains(OrderStatus::Unknown)) by {
            if current == OrderStatus::Pending {
                assert(transition_targets(current)[3] == OrderStatus::Unknown);
            } else {
                assert(transition_targets(current)[4] == OrderStatus::Unknown);
            }
        }
        self.transition(client_order_id, OrderStatus::Unknown, reason, occurred_at)
    }
}

proof fn lemma_contains_up_to_five(s: Seq<OrderStatus>, x: OrderStatus)
    requires
        s.len() <= 5,
    ensures
        s.contains(x) <==> (s.len() > 0 && s[0] == x) || (s.len() > 1 && s[1] == x) || (s.len() > 2 && s[2] == x)
            || (s.len() > 3 && s[3] == x) || (s.len() > 4 && s[4] == x),
{
    if s.contains(x) {
        let i = choose|i: int| 0 <= i < s.len() && s[i] == x;
        assert(i == 0 || i == 1 || i == 2 || i == 3 || i == 4);
    }
    if s.len() > 0 && s[0] == x { assert(s.contains(x)); }
    if s.len() > 1 && s[1] == x { assert(s.contains(x)); }
    if s.len() > 2 && s[2] == x { assert(s.contains(x)); }
    if s.len() > 3 && s[3] == x { assert(s.contains(x)); }
    if s.len() > 4 && s[4] == x { assert(s.contains(x)); }
}

/// The lifecycle, move by move: a pending order may be submitted,
/// rejected, cancelled or lost to Unknown; a submitted one may (partly)
/// fill, be cancelled, rejected or lost; a partly filled one may fill
/// further or completely, have its remainder cancelled, or be lost; an
/// Unknown one is resolved to any reconciled outcome; nothing else moves.
/// In particular every live order other than Unknown can be cancelled.
pub proof fn lifecycle_moves(from: OrderStatus, to: OrderStatus)
    ensures
        is_legal(from, to) <==> (
            (from == OrderStatus::Pending && (to == OrderStatus::Submitted || to == OrderStatus::Rejected
                || to == OrderStatus::Cancelled || to == OrderStatus::Unknown))
            || (from == OrderStatus::Submitted && (to == OrderStatus::PartiallyFilled || to == OrderStatus::Filled
                || to == OrderStatus::Cancelled || to == OrderStatus::Rejected || to == OrderStatus::Unknown))
            || (from == OrderStatus::PartiallyFilled && (to == OrderStatus::PartiallyFilled || to == OrderStatus::Filled
                || to == OrderStatus::Cancelled || to == OrderStatus::Unknown))
            || (from == OrderStatus::Unknown && (to == OrderStatus::Submitted || to == OrderStatus::PartiallyFilled
                || to == OrderStatus::Filled || to == OrderStatus::Cancelled || to == OrderStatus::Rejected))
        ),
        (from == OrderStatus::Pending || from == OrderStatus::Submitted || from == OrderStatus::PartiallyFilled)
            ==> is_legal(from, OrderStatus::Cancelled),
{
    lemma_contains_up_to_five(transition_targets(from), to);
    lemma_contains_up_to_five(transition_targets(from), OrderStatus::Cancelled);
}

/// Terminal statuses accept no transition at all.
pub proof fn terminal_statuses_are_final(from: OrderStatus, to: OrderStatus)
    requires
        is_terminal(from),
    ensures
        !is_legal(from, to),
        transition_targets(from).len() == 0,
{
}

/// Every non-terminal status has somewhere to go, and Unknown can always be
/// resolved to any reconciled outcome but never re-enters itself.
pub proof fn unknown_resolves_only_by_reconciliation()
    ensures
        forall|s: OrderStatus| !is_terminal(s) ==> #[trigger] transition_targets(s).len() > 0,
        !is_legal(OrderStatus::Unknown, OrderStatus::Unknown),
        !is_legal(OrderStatus::Unknown, OrderStatus::Pending),
        is_legal(OrderStatus::Unknown, OrderStatus::Filled),
        is_legal(OrderStatus::Unknown, OrderStatus::Cancelled),
        is_legal(OrderStatus::Unknown, OrderStatus::Rejected),
        is_legal(OrderStatus::Unknown, OrderStatus::Submitted),
        is_legal(OrderStatus::Unknown, OrderStatus::PartiallyFilled),
{
    assert(transition_targets(OrderStatus::Unknown)[2] == OrderStatus::Filled);
    assert(transition_targets(OrderStatus::Unknown)[3] == OrderStatus::Cancelled);
    assert(transition_targets(OrderStatus::Unknown)[4] == OrderStatus::Rejected);
    assert(transition_targets(OrderStatus::Unknown)[0] == OrderStatus::Submitted);
    assert(transition_targets(OrderStatus::Unknown)[1] == OrderStatus::PartiallyFilled);
    assert(!transition_targets(OrderStatus::Unknown).contains(OrderStatus::Unknown)) by {
        if transition_targets(OrderStatus::Unknown).contains(OrderStatus::Unknown) {
            let i = choose|i: int| 0 <= i < 5 && transition_targets(OrderStatus::Unknown)[i] == OrderStatus::Unknown;
            assert(false);
        }
    }
    assert(!transition_targets(OrderStatus::Unknown).contains(OrderStatus::Pending)) by {
        if transition_targets(OrderStatus::Unknown).contains(OrderStatus::Pending) {
            let i = choose|i: int| 0 <= i < 5 && transition_targets(OrderStatus::Unknown)[i] == OrderStatus::Pending;
            assert(false);
        }
    }
}

} // verus!
