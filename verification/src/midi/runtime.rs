//! The decisions of the MIDI input runtime: which inputs are stale and which slot an
//! auto-connected port goes to. The runtime itself, which holds the MIDI connections,
//! asks these functions and carries out their answers.

use vstd::prelude::*;
use vstd::std_specs::convert::FromSpecImpl;

verus! {

/// A MIDI input port that the system offers.
#[derive(Debug, Clone, PartialEq, Eq)]
pub struct InputPortInfo {
    pub id: String,
    pub name: String,
}

/// A port to connect automatically, and the slot it prefers.
#[derive(Debug, Clone, Copy, PartialEq, Eq, Structural)]
pub struct AutoConnectInput {
    pub slot_id: usize,
    pub slot_id_fixed: bool,
}

/// The runtime's record of an auto-connect port: the slot it prefers, which moves to the
/// slot it was last connected to unless it is fixed.
#[derive(Debug, Clone, Copy, PartialEq, Eq, Structural)]
pub struct AutoConnectInputState {
    pub preferred_slot_id: usize,
    pub slot_id_fixed: bool,
}

/// The state that an auto-connect request starts with.
impl From<AutoConnectInput> for AutoConnectInputState {
    fn from(value: AutoConnectInput) -> (r: AutoConnectInputState) {
        AutoConnectInputState { preferred_slot_id: value.slot_id, slot_id_fixed: value.slot_id_fixed }
    }
}

impl FromSpecImpl<AutoConnectInput> for AutoConnectInputState {
    open spec fn obeys_from_spec() -> bool {
        true
    }

    /// The request's slot becomes the preferred slot, fixed as the request says.
    open spec fn from_spec(v: AutoConnectInput) -> AutoConnectInputState {
        AutoConnectInputState { preferred_slot_id: v.slot_id, slot_id_fixed: v.slot_id_fixed }
    }
}

/// What the runtime reads of an input slot: the port it is connected to, if any.
#[derive(Debug, Clone)]
pub enum InputSlotStatus {
    Connected { port_id: String },
    Disconnected,
}

/// Whether a port with id `port_id` is among `available`.
pub open spec fn port_available(available: Seq<InputPortInfo>, port_id: Seq<char>) -> bool {
    exists|i: int| 0 <= i < available.len() && #[trigger] available[i].id@ == port_id
}

/// Whether input `slot` is connected to the port `port_id`.
pub open spec fn slot_on_port(slot: InputSlotStatus, port_id: Seq<char>) -> bool {
    slot matches InputSlotStatus::Connected { port_id: p } && p@ == port_id
}

/// Whether some input slot is connected to the port `port_id`.
pub open spec fn port_connected(inputs: Seq<InputSlotStatus>, port_id: Seq<char>) -> bool {
    exists|i: int| 0 <= i < inputs.len() && slot_on_port(#[trigger] inputs[i], port_id)
}

/// Whether input slot `slot_id` exists and is connected.
pub open spec fn slot_connected(inputs: Seq<InputSlotStatus>, slot_id: int) -> bool {
    0 <= slot_id < inputs.len() && inputs[slot_id] is Connected
}

/// The first disconnected input slot at or after `i`.
pub open spec fn first_disconnected_from(inputs: Seq<InputSlotStatus>, i: int) -> Option<usize>
    decreases inputs.len() - i,
{
    if i < 0 || i >= inputs.len() {
        None
    } else if inputs[i] is Disconnected {
        Some(i as usize)
    } else {
        first_disconnected_from(inputs, i + 1)
    }
}

/// The slot that an auto-connect port goes to: its preferred slot when that slot exists
/// and is not connected; when the preferred slot is connected, the first disconnected
/// slot, unless the preferred slot is fixed.
pub open spec fn spec_new_slot(inputs: Seq<InputSlotStatus>, state: AutoConnectInputState) -> Option<usize> {
    if slot_connected(inputs, state.preferred_slot_id as int) {
        if state.slot_id_fixed {
            None
        } else {
            first_disconnected_from(inputs, 0)
        }
    } else if (state.preferred_slot_id as int) < inputs.len() {
        Some(state.preferred_slot_id)
    } else {
        None
    }
}

/// The slot that an auto-connect port `port_id` is to be connected to now: none when the
/// port is already connected somewhere or is not offered by the system.
pub open spec fn spec_autoconnect_slot(
    inputs: Seq<InputSlotStatus>,
    available: Seq<InputPortInfo>,
    port_id: Seq<char>,
    state: AutoConnectInputState,
) -> Option<usize> {
    if port_connected(inputs, port_id) || !port_available(available, port_id) {
        None
    } else {
        spec_new_slot(inputs, state)
    }
}

/// Whether the slot is connected to a port that the system no longer offers.
pub open spec fn slot_stale(slot: InputSlotStatus, available: Seq<InputPortInfo>) -> bool {
    slot matches InputSlotStatus::Connected { port_id } && !port_available(available, port_id@)
}

/// Whether a port with id `port_id` is among `available`.
pub fn is_input_port_available(available: &Vec<InputPortInfo>, port_id: &String) -> (r: bool)
    ensures
        r == port_available(available@, port_id@),
{
    let n = available.len();
    let mut i: usize = 0;
    while i < n
        invariant
            i <= n,
            n == available.len(),
            forall|j: int| 0 <= j < i ==> available@[j].id@ != port_id@,
        decreases n - i,
    {
        if available[i].id == *port_id {
            return true;
        }
        i = i + 1;
    }
    false
}

/// Whether some input slot is connected to the port `port_id`.
pub fn input_port_connected(inputs: &Vec<InputSlotStatus>, port_id: &String) -> (r: bool)
    ensures
        r == port_connected(inputs@, port_id@),
{
    let n = inputs.len();
    let mut i: usize = 0;
    while i < n
        invariant
            i <= n,
            n == inputs.len(),
            forall|j: int| 0 <= j < i ==> !slot_on_port(#[trigger] inputs@[j], port_id@),
        decreases n - i,
    {
        match &inputs[i] {
            InputSlotStatus::Connected { port_id: p } => {
                if *p == *port_id {
                    return true;
                }
            },
            InputSlotStatus::Disconnected => {},
        }
        i = i + 1;
    }
    false
}

/// Whether input slot `slot_id` exists and is connected.
pub fn input_slot_connected(inputs: &Vec<InputSlotStatus>, slot_id: usize) -> (r: bool)
    ensures
        r == slot_connected(inputs@, slot_id as int),
{
    if slot_id >= inputs.len() {
        return false;
    }
    match &inputs[slot_id] {
        InputSlotStatus::Connected { .. } => true,
        InputSlotStatus::Disconnected => false,
    }
}

/// The first disconnected input slot, if any.
pub fn find_first_disconnected_input_slot(inputs: &Vec<InputSlotStatus>) -> (r: Option<usize>)
    ensures
        r == first_disconnected_from(inputs@, 0),
{
    let n = inputs.len();
    let mut i: usize = 0;
    while i < n
        invariant
            i <= n,
            n == inputs.len(),
            first_disconnected_from(inputs@, i as int) == first_disconnected_from(inputs@, 0),
        decreases n - i,
    {
        if let InputSlotStatus::Disconnected = &inputs[i] {
            return Some(i);
        }
        i = i + 1;
    }
    None
}

/// The slot that an auto-connect port with record `state` goes to; see `spec_new_slot`.
pub fn get_new_slot(inputs: &Vec<InputSlotStatus>, state: &AutoConnectInputState) -> (r: Option<usize>)
    ensures
        r == spec_new_slot(inputs@, *state),
        r matches Some(i) ==> i < inputs.len() && !slot_connected(inputs@, i as int),
{
    let n = inputs.len();
    if input_slot_connected(inputs, state.preferred_slot_id) {
        if state.slot_id_fixed {
            return None;
        }
        proof {
            lemma_first_disconnected_is_disconnected(inputs@, 0);
        }
        return find_first_disconnected_input_slot(inputs);
    }
    if state.preferred_slot_id < n {
        Some(state.preferred_slot_id)
    } else {
        None
    }
}

/// The slot that the auto-connect port `port_id` is to be connected to now, if any; see
/// `spec_autoconnect_slot`.
pub fn autoconnect_slot(
    inputs: &Vec<InputSlotStatus>,
    available: &Vec<InputPortInfo>,
    port_id: &String,
    state: &AutoConnectInputState,
) -> (r: Option<usize>)
    ensures
        r == spec_autoconnect_slot(inputs@, available@, port_id@, *state),
{
    if input_port_connected(inputs, port_id) || !is_input_port_available(available, port_id) {
        return None;
    }
    get_new_slot(inputs, state)
}

/// The record of an auto-connect port after it was connected to slot `slot_id`: that slot
/// becomes its preferred slot; whether the slot is fixed stays as it was.
pub fn autoconnect_next_state(state: AutoConnectInputState, slot_id: usize) -> (r: AutoConnectInputState)
    ensures
        r == (AutoConnectInputState { preferred_slot_id: slot_id, ..state }),
{
    AutoConnectInputState { preferred_slot_id: slot_id, slot_id_fixed: state.slot_id_fixed }
}

/// The indices of the slots that are connected to ports the system no longer offers, in
/// increasing order.
pub open spec fn spec_stale_slots(inputs: Seq<InputSlotStatus>, available: Seq<InputPortInfo>) -> Seq<usize> {
    Seq::new(inputs.len() as nat, |i: int| i as usize).filter(
        |i: usize| slot_stale(inputs[i as int], available),
    )
}

/// The slots, in increasing order, that are connected to ports the system no longer
/// offers: the ones to disconnect.
pub fn stale_input_slots(inputs: &Vec<InputSlotStatus>, available: &Vec<InputPortInfo>) -> (r: Vec<usize>)
    ensures
        r@ == spec_stale_slots(inputs@, available@),
{
    let n = inputs.len();
    let ghost all = Seq::new(n as nat, |i: int| i as usize);
    let ghost pred = |i: usize| slot_stale(inputs@[i as int], available@);
    let mut r: Vec<usize> = Vec::new();
    let mut i: usize = 0;
    while i < n
        invariant
            i <= n,
            n == inputs.len(),
            all == Seq::new(n as nat, |i: int| i as usize),
            pred == (|i: usize| slot_stale(inputs@[i as int], available@)),
            r@ == all.take(i as int).filter(pred),
        decreases n - i,
    {
        let stale = match &inputs[i] {
            InputSlotStatus::Connected { port_id } => !is_input_port_available(available, port_id),
            InputSlotStatus::Disconnected => false,
        };
        proof {
            reveal_with_fuel(Seq::<_>::filter, 1);
            assert(all.take(i + 1).drop_last() =~= all.take(i as int));
            assert(all.take(i + 1).last() == i);
        }
        if stale {
            r.push(i);
        }
        i = i + 1;
    }
    proof {
        assert(all.take(n as int) =~= all);
    }
    r
}

/// The first disconnected slot at or after `i`, when there is one, is a disconnected slot.
pub proof fn lemma_first_disconnected_is_disconnected(inputs: Seq<InputSlotStatus>, i: int)
    requires
        inputs.len() <= usize::MAX,
    ensures
        first_disconnected_from(inputs, i) matches Some(j) ==> i <= j < inputs.len()
            && inputs[j as int] is Disconnected,
    decreases inputs.len() - i,
{
    if i >= 0 && i < inputs.len() && !(inputs[i] is Disconnected) {
        lemma_first_disconnected_is_disconnected(inputs, i + 1);
    }
}

/// The scan from `i` skips only connected slots: when it finds slot `j`, every slot from
/// `i` up to `j` is connected; when it finds none, every slot from `i` on is connected.
proof fn lemma_first_disconnected_skips_connected(inputs: Seq<InputSlotStatus>, i: int)
    requires
        0 <= i,
        inputs.len() <= usize::MAX,
    ensures
        match first_disconnected_from(inputs, i) {
            Some(j) => forall|k: int| i <= k < j ==> #[trigger] inputs[k] is Connected,
            None => forall|k: int| i <= k < inputs.len() ==> #[trigger] inputs[k] is Connected,
        },
    decreases inputs.len() - i,
{
    if i < inputs.len() && !(inputs[i] is Disconnected) {
        lemma_first_disconnected_skips_connected(inputs, i + 1);
    }
}

/// Where an auto-connect port goes: to its preferred slot when that slot exists and is
/// free; when the preferred slot is taken and fixed, nowhere; when it is taken and not
/// fixed, to the lowest-numbered free slot, or nowhere when every slot is taken.
pub proof fn lemma_new_slot_prefers_then_lowest_free(inputs: Seq<InputSlotStatus>, state: AutoConnectInputState)
    requires
        inputs.len() <= usize::MAX,
    ensures
        ({
            let p = state.preferred_slot_id as int;
            let taken = p < inputs.len() && inputs[p] is Connected;
            &&& p < inputs.len() && inputs[p] is Disconnected ==> spec_new_slot(inputs, state)
                == Some(state.preferred_slot_id)
            &&& p >= inputs.len() ==> spec_new_slot(inputs, state) is None
            &&& taken && state.slot_id_fixed ==> spec_new_slot(inputs, state) is None
            &&& taken && !state.slot_id_fixed ==> match spec_new_slot(inputs, state) {
                Some(i) => (i as int) < inputs.len() && inputs[i as int] is Disconnected && forall|
                    j: int,
                | 0 <= j < i ==> #[trigger] inputs[j] is Connected,
                None => forall|j: int| 0 <= j < inputs.len() ==> #[trigger] inputs[j] is Connected,
            }
        }),
{
    lemma_first_disconnected_is_disconnected(inputs, 0);
    lemma_first_disconnected_skips_connected(inputs, 0);
}

/// Filtering the indices below `n` keeps, in increasing order, exactly those that pass.
proof fn lemma_index_filter(n: nat, p: spec_fn(usize) -> bool)
    requires
        n <= usize::MAX + 1,
    ensures
        ({
            let r = Seq::new(n, |i: int| i as usize).filter(p);
            &&& forall|k: int| 0 <= k < r.len() ==> (#[trigger] r[k]) < n && p(r[k])
            &&& forall|k1: int, k2: int| 0 <= k1 < k2 < r.len() ==> #[trigger] r[k1] < #[trigger] r[k2]
            &&& forall|i: usize| i < n && #[trigger] p(i) ==> r.contains(i)
        }),
    decreases n,
{
    reveal_with_fuel(Seq::<_>::filter, 1);
    if n > 0 {
        let s = Seq::new(n, |i: int| i as usize);
        let m = (n - 1) as nat;
        assert(s.drop_last() =~= Seq::new(m, |i: int| i as usize));
        lemma_index_filter(m, p);
        let prev = Seq::new(m, |i: int| i as usize).filter(p);
        assert(s.last() == m as usize);
        let r = s.filter(p);
        if p(m as usize) {
            assert(r == prev.push(m as usize));
            assert forall|i: usize| i < n && #[trigger] p(i) implies r.contains(i) by {
                if i < m {
                    let k = choose|k: int| 0 <= k < prev.len() && prev[k] == i;
                    assert(r[k] == i);
                } else {
                    assert(r[r.len() - 1] == i);
                }
            }
        } else {
            assert(r == prev);
        }
    }
}

/// The stale slots are exactly the slots connected to a port that no available port
/// has the id of, listed once each in increasing order.
pub proof fn lemma_stale_slots_are_the_orphaned_ones(inputs: Seq<InputSlotStatus>, available: Seq<InputPortInfo>)
    requires
        inputs.len() <= usize::MAX,
    ensures
        ({
            let r = spec_stale_slots(inputs, available);
            let orphaned = |i: int|
                inputs[i] matches InputSlotStatus::Connected { port_id } && forall|j: int|
                    0 <= j < available.len() ==> (#[trigger] available[j]).id@ != port_id@;
            &&& forall|k: int| 0 <= k < r.len() ==> (#[trigger] r[k]) < inputs.len() && orphaned(r[k] as int)
            &&& forall|k1: int, k2: int| 0 <= k1 < k2 < r.len() ==> #[trigger] r[k1] < #[trigger] r[k2]
            &&& forall|i: int| 0 <= i < inputs.len() && orphaned(i) ==> #[trigger] r.contains(i as usize)
        }),
{
    let p = |i: usize| slot_stale(inputs[i as int], available);
    lemma_index_filter(inputs.len() as nat, p);
    let r = spec_stale_slots(inputs, available);
    assert forall|i: int| 0 <= i < inputs.len() && (inputs[i] matches InputSlotStatus::Connected {
        port_id,
    } && forall|j: int| 0 <= j < available.len() ==> (#[trigger] available[j]).id@ != port_id@)
        implies #[trigger] r.contains(i as usize) by {
        assert(p(i as usize));
    }
}

/// An auto-connect port is connected nowhere new when some slot is already connected to
/// it or when the system does not offer it; otherwise it goes where `spec_new_slot` says.
pub proof fn lemma_autoconnect_skips_connected_or_missing_ports(
    inputs: Seq<InputSlotStatus>,
    available: Seq<InputPortInfo>,
    port_id: Seq<char>,
    state: AutoConnectInputState,
)
    ensures
        (exists|i: int|
            0 <= i < inputs.len() && (#[trigger] inputs[i] matches InputSlotStatus::Connected { port_id: p }
                && p@ == port_id)) ==> spec_autoconnect_slot(inputs, available, port_id, state) is None,
        (forall|j: int| 0 <= j < available.len() ==> (#[trigger] available[j]).id@ != port_id)
            ==> spec_autoconnect_slot(inputs, available, port_id, state) is None,
        (forall|i: int|
            0 <= i < inputs.len() ==> !(#[trigger] inputs[i] matches InputSlotStatus::Connected { port_id: p }
                && p@ == port_id)) && (exists|j: int| 0 <= j < available.len() && (#[trigger] available[j]).id@
            == port_id) ==> spec_autoconnect_slot(inputs, available, port_id, state) == spec_new_slot(inputs, state),
{
    if exists|i: int|
        0 <= i < inputs.len() && (#[trigger] inputs[i] matches InputSlotStatus::Connected { port_id: p } && p@
            == port_id) {
        let i = choose|i: int|
            0 <= i < inputs.len() && (#[trigger] inputs[i] matches InputSlotStatus::Connected { port_id: p }
                && p@ == port_id);
        assert(slot_on_port(inputs[i], port_id));
    }
    if exists|j: int| 0 <= j < available.len() && (#[trigger] available[j]).id@ == port_id {
        let j = choose|j: int| 0 <= j < available.len() && (#[trigger] available[j]).id@ == port_id;
        assert(port_available(available, port_id));
    }
    if port_connected(inputs, port_id) {
        let i = choose|i: int| 0 <= i < inputs.len() && slot_on_port(#[trigger] inputs[i], port_id);
        assert(inputs[i] matches InputSlotStatus::Connected { port_id: p } && p@ == port_id);
    }
}

} // verus!
