//! The coordination engine of the relay.
//!
//! The coordinator owns the registry of live client connections and decides,
//! for every event that reaches it, how the registry changes and which sends
//! must be performed. The surrounding process performs the sends and the
//! blocking waits; every decision is made here and is verified.
//!
//! Events are: a client joined, a client left, a chunk arrived from the
//! serial line (to be broadcast to every registered client), and a chunk
//! arrived from one client (to be merged onto the serial line).

use vstd::prelude::*;

verus! {

/// An input to the coordinator: a membership change or a chunk of bytes
/// from one of the relay's sources.
#[derive(Debug, PartialEq, Eq)]
pub enum Event {
    /// A new client connection was accepted, under this identifier.
    Added(u64),
    /// The client with this identifier disconnected.
    Removed(u64),
    /// A chunk of bytes arrived from the serial device.
    SerialChunk(Vec<u8>),
    /// A chunk of bytes arrived from the client with this identifier.
    ClientChunk(u64, Vec<u8>),
}

/// The mathematical model of an [`Event`]: the same variants over `Seq<u8>`.
pub enum EventModel {
    Added(u64),
    Removed(u64),
    SerialChunk(Seq<u8>),
    ClientChunk(u64, Seq<u8>),
}

impl View for Event {
    type V = EventModel;

    open spec fn view(&self) -> EventModel {
        match self {
            Event::Added(id) => EventModel::Added(*id),
            Event::Removed(id) => EventModel::Removed(*id),
            Event::SerialChunk(chunk) => EventModel::SerialChunk(chunk@),
            Event::ClientChunk(id, chunk) => EventModel::ClientChunk(*id, chunk@),
        }
    }
}

/// An output of the coordinator: one send that the surrounding process must
/// perform, in the order the coordinator returned them.
#[derive(Debug, PartialEq, Eq)]
pub enum Action {
    /// Deliver these bytes to the outbound queue of the client with this
    /// identifier.
    ToClient(u64, Vec<u8>),
    /// Deliver these bytes to the serial outbound queue.
    ToSerial(Vec<u8>),
}

/// The mathematical model of an [`Action`]: the same variants over `Seq<u8>`.
pub enum ActionModel {
    ToClient(u64, Seq<u8>),
    ToSerial(Seq<u8>),
}

impl View for Action {
    type V = ActionModel;

    open spec fn view(&self) -> ActionModel {
        match self {
            Action::ToClient(id, chunk) => ActionModel::ToClient(*id, chunk@),
            Action::ToSerial(chunk) => ActionModel::ToSerial(chunk@),
        }
    }
}

/// The models of a sequence of actions, elementwise.
pub open spec fn action_models(s: Seq<Action>) -> Seq<ActionModel> {
    s.map_values(|a: Action| a@)
}

/// The predicate that keeps every identifier other than `id`.
pub open spec fn keep_other(id: u64) -> spec_fn(u64) -> bool {
    |x: u64| x != id
}

/// The registry after the coordinator has processed `ev`, as a function of
/// the registry before. Joining appends the identifier unless it is already
/// present; leaving removes it; data events leave membership unchanged.
pub open spec fn registry_after(reg: Seq<u64>, ev: EventModel) -> Seq<u64> {
    match ev {
        EventModel::Added(id) => if reg.contains(id) {
            reg
        } else {
            reg.push(id)
        },
        EventModel::Removed(id) => reg.filter(keep_other(id)),
        EventModel::SerialChunk(_) => reg,
        EventModel::ClientChunk(_, _) => reg,
    }
}

/// One delivery of `chunk` per registered client, in registry order.
pub open spec fn fan_out(reg: Seq<u64>, chunk: Seq<u8>) -> Seq<ActionModel> {
    Seq::new(reg.len(), |i: int| ActionModel::ToClient(reg[i], chunk))
}

/// The sends the coordinator owes for `ev` against registry `reg`:
/// membership events require none; a serial chunk is fanned out to every
/// registered client; a client chunk is merged onto the serial line if and
/// only if its sender is still registered.
pub open spec fn actions_for(reg: Seq<u64>, ev: EventModel) -> Seq<ActionModel> {
    match ev {
        EventModel::Added(_) => Seq::empty(),
        EventModel::Removed(_) => Seq::empty(),
        EventModel::SerialChunk(chunk) => fan_out(reg, chunk),
        EventModel::ClientChunk(id, chunk) => if reg.contains(id) {
            seq![ActionModel::ToSerial(chunk)]
        } else {
            Seq::empty()
        },
    }
}

/// Filtering a sequence without duplicates leaves a sequence without
/// duplicates, made only of elements of the original.
proof fn lemma_filter_no_duplicates(s: Seq<u64>, pred: spec_fn(u64) -> bool)
    requires
        s.no_duplicates(),
    ensures
        s.filter(pred).no_duplicates(),
    decreases s.len(),
{
    broadcast use Seq::<_>::lemma_filter_contains_rev;

    reveal(Seq::filter);
    if s.len() > 0 {
        let rest = s.drop_last();
        assert(rest.no_duplicates());
        lemma_filter_no_duplicates(rest, pred);
        let sub = rest.filter(pred);
        if pred(s.last()) {
            assert(!rest.contains(s.last()));
            assert(!sub.contains(s.last()));
            assert forall|i: int, j: int|
                0 <= i < sub.push(s.last()).len() && 0 <= j < sub.push(s.last()).len() && i
                    != j implies sub.push(s.last())[i] != sub.push(s.last())[j] by {
                if i < sub.len() && j < sub.len() {
                } else if i == sub.len() {
                    assert(sub.contains(sub[j]));
                } else if j == sub.len() {
                    assert(sub.contains(sub[i]));
                }
            }
        }
    }
}

/// The coordinator's persistent state: the registry of live client
/// connections, in the order they joined. Its model is that sequence of
/// identifiers.
pub struct Coordinator {
    ids: Vec<u64>,
}

impl View for Coordinator {
    type V = Seq<u64>;

    closed spec fn view(&self) -> Seq<u64> {
        self.ids@
    }
}

impl Coordinator {
    /// The registry invariant: an identifier appears at most once.
    pub open spec fn wf(&self) -> bool {
        self@.no_duplicates()
    }

    /// A coordinator with no registered clients.
    pub fn new() -> (c: Coordinator)
        ensures
            c@ == Seq::<u64>::empty(),
            c.wf(),
    {
        Coordinator { ids: Vec::new() }
    }

    /// How many clients are currently registered.
    pub fn client_count(&self) -> (n: usize)
        ensures
            n == self@.len(),
    {
        self.ids.len()
    }

    /// Whether the client with identifier `id` is currently registered.
    pub fn is_registered(&self, id: u64) -> (r: bool)
        ensures
            r == self@.contains(id),
    {
        let mut i: usize = 0;
        while i < self.ids.len()
            invariant
                i <= self.ids@.len(),
                forall|j: int| 0 <= j < i ==> self.ids@[j] != id,
            decreases self.ids@.len() - i,
        {
            if self.ids[i] == id {
                return true;
            }
            i += 1;
        }
        false
    }

    /// Deletes `id` from the registry; deleting an absent identifier is a
    /// no-op, not an error. The relative order of the others is kept.
    fn remove_client(&mut self, id: u64)
        ensures
            final(self)@ == old(self)@.filter(keep_other(id)),
    {
        let ghost orig: Seq<u64> = self.ids@;
        let mut kept: Vec<u64> = Vec::new();
        let mut i: usize = 0;
        while i < self.ids.len()
            invariant
                i <= self.ids@.len(),
                self.ids@ == orig,
                kept@ == orig.subrange(0, i as int).filter(keep_other(id)),
            decreases self.ids@.len() - i,
        {
            let x = self.ids[i];
            proof {
                assert(orig.subrange(0, i + 1) =~= orig.subrange(0, i as int).push(orig[i as int]));
                orig.subrange(0, i as int).lemma_filter_push(orig[i as int], keep_other(id));
            }
            if x != id {
                kept.push(x);
            }
            i += 1;
        }
        proof {
            assert(orig.subrange(0, orig.len() as int) =~= orig);
        }
        self.ids = kept;
    }

    /// Processes one event: updates the registry as [`registry_after`] says
    /// and returns exactly the sends that [`actions_for`] owes, in that
    /// order. The registry invariant is preserved.
    pub fn step(&mut self, ev: Event) -> (actions: Vec<Action>)
        requires
            old(self).wf(),
        ensures
            final(self).wf(),
            final(self)@ == registry_after(old(self)@, ev@),
            action_models(actions@) == actions_for(old(self)@, ev@),
            actions@.len() == actions_for(old(self)@, ev@).len(),
            forall|i: int|
                0 <= i < actions@.len() ==> (#[trigger] actions@[i])@ == actions_for(
                    old(self)@,
                    ev@,
                )[i],
    {
        match ev {
            Event::Added(id) => {
                if !self.is_registered(id) {
                    proof {
                        let cur = self@;
                        assert forall|i: int, j: int|
                            0 <= i < cur.push(id).len() && 0 <= j < cur.push(id).len() && i
                                != j implies cur.push(id)[i] != cur.push(id)[j] by {
                            if i < cur.len() && j < cur.len() {
                            } else if i == cur.len() {
                                assert(cur.contains(cur[j]));
                            } else if j == cur.len() {
                                assert(cur.contains(cur[i]));
                            }
                        }
                    }
                    self.ids.push(id);
                }
                let actions: Vec<Action> = Vec::new();
                proof {
                    assert(action_models(actions@) =~= actions_for(old(self)@, ev@));
                }
                actions
            },
            Event::Removed(id) => {
                proof {
                    lemma_filter_no_duplicates(self@, keep_other(id));
                }
                self.remove_client(id);
                let actions: Vec<Action> = Vec::new();
                proof {
                    assert(action_models(actions@) =~= actions_for(old(self)@, ev@));
                }
                actions
            },
            Event::SerialChunk(chunk) => {
                let mut actions: Vec<Action> = Vec::new();
                let mut i: usize = 0;
                while i < self.ids.len()
                    invariant
                        i <= self.ids@.len(),
                        self.ids@ == old(self)@,
                        actions@.len() == i,
                        forall|k: int|
                            0 <= k < i ==> (#[trigger] actions@[k])@ == ActionModel::ToClient(
                                self.ids@[k],
                                chunk@,
                            ),
                    decreases self.ids@.len() - i,
                {
                    let id = self.ids[i];
                    let copy = clone_chunk(&chunk);
                    actions.push(Action::ToClient(id, copy));
                    i += 1;
                }
                proof {
                    assert forall|k: int| 0 <= k < self.ids@.len() implies action_models(
                        actions@,
                    )[k] == fan_out(self.ids@, chunk@)[k] by {
                        assert(actions@[k]@ == ActionModel::ToClient(self.ids@[k], chunk@));
                    }
                    assert(action_models(actions@) =~= fan_out(self.ids@, chunk@));
                }
                actions
            },
            Event::ClientChunk(id, chunk) => {
                let mut actions: Vec<Action> = Vec::new();
                if self.is_registered(id) {
                    actions.push(Action::ToSerial(chunk));
                }
                proof {
                    assert(action_models(actions@) =~= actions_for(old(self)@, ev@));
                }
                actions
            },
        }
    }
}

/// Broadcast fidelity: processing a serial chunk leaves membership
/// unchanged and owes exactly one delivery per registered client, in
/// registry order, each carrying exactly the chunk's bytes.
pub proof fn lemma_broadcast_fidelity(reg: Seq<u64>, chunk: Seq<u8>)
    ensures
        registry_after(reg, EventModel::SerialChunk(chunk)) == reg,
        actions_for(reg, EventModel::SerialChunk(chunk)).len() == reg.len(),
        forall|i: int|
            0 <= i < reg.len() ==> actions_for(reg, EventModel::SerialChunk(chunk))[i]
                == ActionModel::ToClient(reg[i], chunk),
{
}

/// Merge order per source: if a registered client hands the coordinator
/// chunk `c1` and then chunk `c2`, the two steps owe the serial line
/// exactly `c1` and then `c2`, and neither step changes membership.
pub proof fn lemma_merge_order_per_source(reg: Seq<u64>, id: u64, c1: Seq<u8>, c2: Seq<u8>)
    requires
        reg.contains(id),
    ensures
        registry_after(reg, EventModel::ClientChunk(id, c1)) == reg,
        registry_after(reg, EventModel::ClientChunk(id, c2)) == reg,
        actions_for(reg, EventModel::ClientChunk(id, c1)) + actions_for(
            reg,
            EventModel::ClientChunk(id, c2),
        ) == seq![ActionModel::ToSerial(c1), ActionModel::ToSerial(c2)],
{
    assert(seq![ActionModel::ToSerial(c1)] + seq![ActionModel::ToSerial(c2)]
        =~= seq![ActionModel::ToSerial(c1), ActionModel::ToSerial(c2)]);
}

/// No cross-talk: a delivery to a client's socket can only arise from a
/// serial chunk, carries exactly that chunk's bytes, and goes only to a
/// registered client. A chunk received from a client causes no delivery to
/// any client.
pub proof fn lemma_no_cross_talk(reg: Seq<u64>, ev: EventModel)
    ensures
        forall|i: int|
            0 <= i < actions_for(reg, ev).len() && (#[trigger] actions_for(reg, ev)[i])
                is ToClient ==> ev is SerialChunk,
        forall|i: int|
            0 <= i < actions_for(reg, ev).len() && (#[trigger] actions_for(reg, ev)[i])
                is ToClient ==> ev is SerialChunk && actions_for(reg, ev)[i]->ToClient_1
                == ev->SerialChunk_0 && reg.contains(actions_for(reg, ev)[i]->ToClient_0),
{
    assert forall|i: int|
        0 <= i < actions_for(reg, ev).len() && (#[trigger] actions_for(reg, ev)[i])
            is ToClient implies ev is SerialChunk && actions_for(reg, ev)[i]->ToClient_1
        == ev->SerialChunk_0 && reg.contains(actions_for(reg, ev)[i]->ToClient_0) by {
        match ev {
            EventModel::SerialChunk(c) => {
                assert(actions_for(reg, ev)[i] == ActionModel::ToClient(reg[i], c));
                assert(reg.contains(reg[i]));
            },
            _ => {},
        }
    }
}

/// Membership convergence: once the coordinator processes a client's
/// departure, that identifier is out of the registry, every other
/// identifier keeps its membership, and a later serial chunk is delivered
/// only to the remaining clients — never to the departed one.
pub proof fn lemma_membership_convergence(reg: Seq<u64>, id: u64, chunk: Seq<u8>)
    ensures
        !registry_after(reg, EventModel::Removed(id)).contains(id),
        forall|x: u64|
            x != id ==> (registry_after(reg, EventModel::Removed(id)).contains(x) <==> reg.contains(
                x,
            )),
        forall|i: int|
            0 <= i < actions_for(
                registry_after(reg, EventModel::Removed(id)),
                EventModel::SerialChunk(chunk),
            ).len() ==> (#[trigger] actions_for(
                registry_after(reg, EventModel::Removed(id)),
                EventModel::SerialChunk(chunk),
            )[i]) == ActionModel::ToClient(registry_after(reg, EventModel::Removed(id))[i], chunk)
                && registry_after(reg, EventModel::Removed(id))[i] != id && reg.contains(
                registry_after(reg, EventModel::Removed(id))[i],
            ),
{
    broadcast use Seq::<_>::lemma_filter_pred;
    broadcast use Seq::<_>::lemma_filter_contains;
    broadcast use Seq::<_>::lemma_filter_contains_rev;

    let pred = keep_other(id);
    let remaining = reg.filter(pred);
    assert(!remaining.contains(id)) by {
        if remaining.contains(id) {
            let j = choose|j: int| 0 <= j < remaining.len() && remaining[j] == id;
            assert(pred(remaining[j]));
        }
    }
    assert forall|x: u64| x != id implies (remaining.contains(x) <==> reg.contains(x)) by {
        if reg.contains(x) {
            let j = choose|j: int| 0 <= j < reg.len() && reg[j] == x;
            assert(pred(reg[j]));
            assert(remaining.contains(reg[j]));
        }
    }
    assert forall|i: int|
        0 <= i < actions_for(remaining, EventModel::SerialChunk(chunk)).len() implies (
    #[trigger] actions_for(remaining, EventModel::SerialChunk(chunk))[i]) == ActionModel::ToClient(
        remaining[i],
        chunk,
    ) && remaining[i] != id && reg.contains(remaining[i]) by {
        assert(pred(remaining[i]));
        assert(remaining.contains(remaining[i]));
    }
}

/// The predicate that keeps exactly the sends addressed to client `id`.
pub open spec fn addressed_to(id: u64) -> spec_fn(ActionModel) -> bool {
    |a: ActionModel| a matches ActionModel::ToClient(c, _) && c == id
}

/// The sends among `s` that are addressed to client `id`, in order.
pub open spec fn sent_to(s: Seq<ActionModel>, id: u64) -> Seq<ActionModel> {
    s.filter(addressed_to(id))
}

/// Exactly-once delivery: a serial chunk is delivered to a registered
/// client exactly once, carrying exactly the chunk's bytes — and to an
/// identifier that is not registered, not at all.
pub proof fn lemma_broadcast_exactly_once(reg: Seq<u64>, id: u64, chunk: Seq<u8>)
    requires
        reg.no_duplicates(),
    ensures
        sent_to(actions_for(reg, EventModel::SerialChunk(chunk)), id) == if reg.contains(id) {
            seq![ActionModel::ToClient(id, chunk)]
        } else {
            Seq::<ActionModel>::empty()
        },
    decreases reg.len(),
{
    reveal(Seq::filter);
    if reg.len() == 0 {
        assert(fan_out(reg, chunk) =~= Seq::<ActionModel>::empty());
    } else {
        let rest = reg.drop_last();
        let last = reg.last();
        assert(rest.no_duplicates());
        lemma_broadcast_exactly_once(rest, id, chunk);
        assert(fan_out(reg, chunk) =~= fan_out(rest, chunk).push(ActionModel::ToClient(last, chunk)));
        fan_out(rest, chunk).lemma_filter_push(
            ActionModel::ToClient(last, chunk),
            addressed_to(id),
        );
        if last == id {
            assert(reg.contains(id)) by {
                assert(reg[reg.len() - 1] == id);
            }
            assert(!rest.contains(id)) by {
                if rest.contains(id) {
                    let j = choose|j: int| 0 <= j < rest.len() && rest[j] == id;
                    assert(reg[j] == reg[reg.len() - 1]);
                }
            }
            assert(sent_to(fan_out(reg, chunk), id) =~= seq![ActionModel::ToClient(id, chunk)]);
        } else {
            assert(!addressed_to(id)(ActionModel::ToClient(last, chunk)));
            assert(reg.contains(id) <==> rest.contains(id)) by {
                if reg.contains(id) {
                    let j = choose|j: int| 0 <= j < reg.len() && reg[j] == id;
                    assert(j < rest.len());
                    assert(rest[j] == id);
                }
                if rest.contains(id) {
                    let j = choose|j: int| 0 <= j < rest.len() && rest[j] == id;
                    assert(reg[j] == id);
                }
            }
        }
    }
}

/// Per-recipient order: over two serial chunks, a registered client is
/// delivered exactly the first chunk and then the second — the order the
/// serial line emitted them.
pub proof fn lemma_broadcast_order_per_recipient(reg: Seq<u64>, id: u64, c1: Seq<u8>, c2: Seq<u8>)
    requires
        reg.no_duplicates(),
        reg.contains(id),
    ensures
        registry_after(reg, EventModel::SerialChunk(c1)) == reg,
        sent_to(
            actions_for(reg, EventModel::SerialChunk(c1)) + actions_for(
                reg,
                EventModel::SerialChunk(c2),
            ),
            id,
        ) == seq![ActionModel::ToClient(id, c1), ActionModel::ToClient(id, c2)],
{
    Seq::filter_distributes_over_add(fan_out(reg, c1), fan_out(reg, c2), addressed_to(id));
    lemma_broadcast_exactly_once(reg, id, c1);
    lemma_broadcast_exactly_once(reg, id, c2);
    assert(seq![ActionModel::ToClient(id, c1)] + seq![ActionModel::ToClient(id, c2)]
        =~= seq![ActionModel::ToClient(id, c1), ActionModel::ToClient(id, c2)]);
}

/// No-listener drop: with no registered clients, a serial chunk causes no
/// sends at all — the bytes are discarded, not buffered for a future
/// connection — and membership stays empty.
pub proof fn lemma_no_listener_drop(reg: Seq<u64>, chunk: Seq<u8>)
    requires
        reg.len() == 0,
    ensures
        actions_for(reg, EventModel::SerialChunk(chunk)) == Seq::<ActionModel>::empty(),
        registry_after(reg, EventModel::SerialChunk(chunk)) == reg,
{
    assert(actions_for(reg, EventModel::SerialChunk(chunk)) =~= Seq::<ActionModel>::empty());
}

/// An exact copy of a chunk of bytes.
fn clone_chunk(chunk: &Vec<u8>) -> (r: Vec<u8>)
    ensures
        r@ == chunk@,
{
    let r = chunk.clone();
    proof {
        assert(r@ =~= chunk@);
    }
    r
}

} // verus!
