//! Capability extraction from an agent descriptor and binding selection.
use vstd::prelude::*;

use crate::error::ClientError;
use crate::types::{protocol_name, Binding, ProtocolBinding};

verus! {

/// The binding chosen for a client session, with the endpoint to reach.
#[derive(Debug, Clone, PartialEq)]
pub enum SelectedBinding {
    JsonRpc { url: String },
    Rest { url: String },
}

/// One interface entry of an agent descriptor.
#[derive(Debug, Clone)]
pub struct AgentInterface {
    pub url: String,
    pub protocol_binding: String,
    pub tenant: String,
}

/// The parts of an agent descriptor that name its reachable interfaces:
/// the unified list, and the deprecated singular fields.
#[derive(Debug, Clone)]
pub struct AgentCard {
    pub supported_interfaces: Vec<AgentInterface>,
    pub url: Option<String>,
    pub preferred_transport: Option<String>,
    pub additional_interfaces: Vec<AgentInterface>,
}

/// An interface as (endpoint, binding kind).
pub type InterfaceView = (Seq<char>, Binding);

impl SelectedBinding {
    pub open spec fn kind(&self) -> Binding {
        match self {
            SelectedBinding::JsonRpc { .. } => Binding::JsonRpc,
            SelectedBinding::Rest { .. } => Binding::Rest,
        }
    }

    pub open spec fn endpoint(&self) -> Seq<char> {
        match self {
            SelectedBinding::JsonRpc { url } => url@,
            SelectedBinding::Rest { url } => url@,
        }
    }

    pub open spec fn view_pair(&self) -> InterfaceView {
        (self.endpoint(), self.kind())
    }

    pub fn binding(&self) -> (r: Binding)
        ensures
            r == self.kind(),
    {
        match self {
            SelectedBinding::JsonRpc { .. } => Binding::JsonRpc,
            SelectedBinding::Rest { .. } => Binding::Rest,
        }
    }

    pub fn url(&self) -> (r: &str)
        ensures
            r@ == self.endpoint(),
    {
        match self {
            SelectedBinding::JsonRpc { url } => url.as_str(),
            SelectedBinding::Rest { url } => url.as_str(),
        }
    }
}

/// The descriptor name of a binding kind.
pub open spec fn name_of(b: Binding) -> Seq<char> {
    match b {
        Binding::JsonRpc => "JSONRPC"@,
        Binding::Rest => "HTTP+JSON"@,
    }
}

/// The descriptor name of a binding kind; it maps back to the same kind.
pub fn binding_name(b: Binding) -> (r: &'static str)
    ensures
        r@ == name_of(b),
        binding_of_name(r@) == Some(b),
{
    proof {
        reveal_strlit("JSONRPC");
        reveal_strlit("HTTP+JSON");
    }
    match b {
        Binding::JsonRpc => "JSONRPC",
        Binding::Rest => {
            assert("HTTP+JSON"@.len() != "JSONRPC"@.len());
            "HTTP+JSON"
        },
    }
}

/// The default preference order: JSON-RPC first, then REST.
pub fn default_preference() -> (r: Vec<Binding>)
    ensures
        r@ == seq![Binding::JsonRpc, Binding::Rest],
{
    vec![Binding::JsonRpc, Binding::Rest]
}

/// The binding kind a descriptor string maps to; unknown strings and the
/// gRPC marker map to none.
pub open spec fn binding_of_name(s: Seq<char>) -> Option<Binding> {
    if s == "JSONRPC"@ {
        Some(Binding::JsonRpc)
    } else if s == "HTTP+JSON"@ {
        Some(Binding::Rest)
    } else {
        None
    }
}

/// The mapped entries of an interface list, in order, unmapped ones dropped.
pub open spec fn mapped_interfaces(s: Seq<AgentInterface>) -> Seq<InterfaceView>
    decreases s.len(),
{
    if s.len() == 0 {
        Seq::empty()
    } else {
        let rest = mapped_interfaces(s.drop_last());
        match binding_of_name(s.last().protocol_binding@) {
            Some(b) => rest.push((s.last().url@, b)),
            None => rest,
        }
    }
}

/// The entry synthesized from the deprecated singular fields, if any.
pub open spec fn legacy_main(card: AgentCard) -> Seq<InterfaceView> {
    match card.url {
        Some(u) => {
            let b = match card.preferred_transport {
                Some(t) => match binding_of_name(t@) {
                    Some(b) => b,
                    None => Binding::JsonRpc,
                },
                None => Binding::JsonRpc,
            };
            seq![(u@, b)]
        },
        None => Seq::empty(),
    }
}

/// The interfaces a descriptor advertises, in order.
pub open spec fn extracted(card: AgentCard) -> Seq<InterfaceView> {
    if card.supported_interfaces@.len() > 0 {
        mapped_interfaces(card.supported_interfaces@)
    } else {
        legacy_main(card) + mapped_interfaces(card.additional_interfaces@)
    }
}

pub open spec fn pairs_view(v: Seq<(String, Binding)>) -> Seq<InterfaceView> {
    v.map_values(|p: (String, Binding)| (p.0@, p.1))
}

/// Maps a descriptor binding string to a binding kind.
pub fn protocol_binding_to_binding(protocol_binding: &str) -> (r: Option<Binding>)
    ensures
        r == binding_of_name(protocol_binding@),
{
    proof {
        reveal_strlit("JSONRPC");
        reveal_strlit("HTTP+JSON");
        reveal_strlit("GRPC");
    }
    match ProtocolBinding::from_str(protocol_binding) {
        Ok(pb) => {
            assert("GRPC"@.len() != "JSONRPC"@.len());
            assert("GRPC"@.len() != "HTTP+JSON"@.len());
            pb.to_binding()
        },
        Err(_) => {
            assert(protocol_name(ProtocolBinding::JsonRpc) != protocol_binding@);
            assert(protocol_name(ProtocolBinding::Rest) != protocol_binding@);
            None
        },
    }
}

/// Appends the mapped entries of `list` to `out`.
fn push_mapped(out: &mut Vec<(String, Binding)>, list: &Vec<AgentInterface>)
    ensures
        pairs_view(final(out)@) == pairs_view(old(out)@) + mapped_interfaces(list@),
{
    let mut i: usize = 0;
    while i < list.len()
        invariant
            i <= list@.len(),
            pairs_view(out@) == pairs_view(old(out)@) + mapped_interfaces(list@.subrange(0, i as int)),
        decreases list@.len() - i,
    {
        let iface = &list[i];
        let ghost before = out@;
        assert(list@.subrange(0, i + 1).drop_last() == list@.subrange(0, i as int));
        if let Some(b) = protocol_binding_to_binding(iface.protocol_binding.as_str()) {
            out.push((iface.url.clone(), b));
            assert(pairs_view(out@) == pairs_view(before).push((iface.url@, b)));
        } else {
            assert(out@ == before);
        }
        i = i + 1;
    }
    assert(list@.subrange(0, list@.len() as int) == list@);
}

/// Extracts the (endpoint, binding) pairs a descriptor advertises.
///
/// A non-empty unified list is used verbatim (unmapped entries dropped);
/// otherwise the deprecated singular endpoint comes first, followed by the
/// deprecated additional interfaces.
pub fn extract_interfaces(card: &AgentCard) -> (r: Vec<(String, Binding)>)
    ensures
        pairs_view(r@) == extracted(*card),
{
    let mut interfaces: Vec<(String, Binding)> = Vec::new();
    if card.supported_interfaces.len() > 0 {
        push_mapped(&mut interfaces, &card.supported_interfaces);
        assert(pairs_view(interfaces@) =~= extracted(*card));
        return interfaces;
    }
    if let Some(url) = &card.url {
        let main_binding = match &card.preferred_transport {
            Some(t) => match protocol_binding_to_binding(t.as_str()) {
                Some(b) => b,
                None => Binding::JsonRpc,
            },
            None => Binding::JsonRpc,
        };
        interfaces.push((url.clone(), main_binding));
    }
    assert(pairs_view(interfaces@) =~= legacy_main(*card));
    push_mapped(&mut interfaces, &card.additional_interfaces);
    interfaces
}

/// The first interface of kind `b`, in list order.
pub open spec fn first_of_kind(ifs: Seq<InterfaceView>, b: Binding) -> Option<InterfaceView>
    decreases ifs.len(),
{
    if ifs.len() == 0 {
        None
    } else if ifs[0].1 == b {
        Some(ifs[0])
    } else {
        first_of_kind(ifs.drop_first(), b)
    }
}

/// Selection by preference: for each preferred kind in order, the first
/// interface of that kind.
pub open spec fn select_spec(ifs: Seq<InterfaceView>, pref: Seq<Binding>) -> Option<InterfaceView>
    decreases pref.len(),
{
    if pref.len() == 0 {
        None
    } else {
        match first_of_kind(ifs, pref[0]) {
            Some(x) => Some(x),
            None => select_spec(ifs, pref.drop_first()),
        }
    }
}

/// Whether some interface has kind `b`.
pub open spec fn has_kind(ifs: Seq<InterfaceView>, b: Binding) -> bool {
    exists|i: int| 0 <= i < ifs.len() && ifs[i].1 == b
}

pub open spec fn selected_view(r: Option<SelectedBinding>) -> Option<InterfaceView> {
    match r {
        Some(s) => Some(s.view_pair()),
        None => None,
    }
}

proof fn lemma_first_of_kind_skip(ifs: Seq<InterfaceView>, b: Binding, i: int)
    requires
        0 <= i < ifs.len(),
        ifs[i].1 != b,
    ensures
        first_of_kind(ifs.subrange(i, ifs.len() as int), b) == first_of_kind(
            ifs.subrange(i + 1, ifs.len() as int),
            b,
        ),
{
    assert(ifs.subrange(i, ifs.len() as int).drop_first() =~= ifs.subrange(i + 1, ifs.len() as int));
}

proof fn lemma_first_of_kind_hit(ifs: Seq<InterfaceView>, b: Binding, i: int)
    requires
        0 <= i < ifs.len(),
        ifs[i].1 == b,
    ensures
        first_of_kind(ifs.subrange(i, ifs.len() as int), b) == Some(ifs[i]),
{
}

/// Builds the selected binding for one interface.
fn select_entry(url: &String, b: Binding) -> (r: SelectedBinding)
    ensures
        r.view_pair() == (url@, b),
{
    match b {
        Binding::JsonRpc => SelectedBinding::JsonRpc { url: url.clone() },
        Binding::Rest => SelectedBinding::Rest { url: url.clone() },
    }
}

/// The index of the first interface of kind `b`, if any.
fn find_kind(interfaces: &[(String, Binding)], b: Binding) -> (r: Option<usize>)
    ensures
        match r {
            Some(i) => i < interfaces@.len() && first_of_kind(pairs_view(interfaces@), b) == Some(
                pairs_view(interfaces@)[i as int],
            ),
            None => first_of_kind(pairs_view(interfaces@), b) is None,
        },
{
    let ghost ifs = pairs_view(interfaces@);
    assert(ifs.subrange(0, ifs.len() as int) =~= ifs);
    let mut i: usize = 0;
    while i < interfaces.len()
        invariant
            i <= interfaces@.len(),
            ifs == pairs_view(interfaces@),
            first_of_kind(ifs, b) == first_of_kind(ifs.subrange(i as int, ifs.len() as int), b),
        decreases interfaces@.len() - i,
    {
        if interfaces[i].1 == b {
            proof {
                lemma_first_of_kind_hit(ifs, b, i as int);
            }
            return Some(i);
        }
        proof {
            lemma_first_of_kind_skip(ifs, b, i as int);
        }
        i = i + 1;
    }
    assert(ifs.subrange(i as int, ifs.len() as int).len() == 0);
    None
}

/// Selects a binding: the preference list is walked in order and, for each
/// preferred kind, the first interface of that kind is taken. Preference
/// order dominates interface order.
pub fn select_binding(interfaces: &[(String, Binding)], preference: &[Binding]) -> (r: Option<
    SelectedBinding,
>)
    ensures
        selected_view(r) == select_spec(pairs_view(interfaces@), preference@),
{
    let ghost ifs = pairs_view(interfaces@);
    assert(preference@.subrange(0, preference@.len() as int) =~= preference@);
    let mut j: usize = 0;
    while j < preference.len()
        invariant
            j <= preference@.len(),
            ifs == pairs_view(interfaces@),
            select_spec(ifs, preference@) == select_spec(
                ifs,
                preference@.subrange(j as int, preference@.len() as int),
            ),
        decreases preference@.len() - j,
    {
        let ghost rest = preference@.subrange(j as int, preference@.len() as int);
        assert(rest.drop_first() =~= preference@.subrange(j + 1, preference@.len() as int));
        assert(rest[0] == preference@[j as int]);
        if let Some(k) = find_kind(interfaces, preference[j]) {
            let (url, b) = &interfaces[k];
            return Some(select_entry(url, *b));
        }
        j = j + 1;
    }
    None
}

/// The kinds of an interface list, in order.
pub open spec fn kinds(ifs: Seq<InterfaceView>) -> Seq<Binding> {
    ifs.map_values(|p: InterfaceView| p.1)
}

/// What negotiation yields: the chosen interface, or the kinds on offer.
pub type Negotiated = Result<InterfaceView, Seq<Binding>>;

/// Outcome of forcing kind `f`.
pub open spec fn forced_outcome(ifs: Seq<InterfaceView>, f: Binding) -> Negotiated {
    match first_of_kind(ifs, f) {
        Some(x) => Ok(x),
        None => Err(kinds(ifs)),
    }
}

/// Outcome of selection by preference.
pub open spec fn preferred_outcome(ifs: Seq<InterfaceView>, pref: Seq<Binding>) -> Negotiated {
    match select_spec(ifs, pref) {
        Some(x) => Ok(x),
        None => Err(kinds(ifs)),
    }
}

/// Outcome of negotiation: a forced kind bypasses the preference list; an
/// absent preference list means the default one.
pub open spec fn negotiated(
    ifs: Seq<InterfaceView>,
    pref: Option<Seq<Binding>>,
    forced: Option<Binding>,
) -> Negotiated {
    match forced {
        Some(f) => forced_outcome(ifs, f),
        None => match pref {
            Some(p) => preferred_outcome(ifs, p),
            None => preferred_outcome(ifs, seq![Binding::JsonRpc, Binding::Rest]),
        },
    }
}

/// A negotiation result as a chosen interface or the list of kinds carried by
/// the error; `None` for any other error.
pub open spec fn negotiation_view(r: Result<SelectedBinding, ClientError>) -> Option<Negotiated> {
    match r {
        Ok(s) => Some(Ok(s.view_pair())),
        Err(ClientError::NoCompatibleBinding { available }) => Some(Err(available@)),
        Err(_) => None,
    }
}

/// The kinds of `interfaces`, in order.
pub fn available_kinds(interfaces: &[(String, Binding)]) -> (r: Vec<Binding>)
    ensures
        r@ == kinds(pairs_view(interfaces@)),
{
    let mut out: Vec<Binding> = Vec::new();
    let mut i: usize = 0;
    while i < interfaces.len()
        invariant
            i <= interfaces@.len(),
            out@ == kinds(pairs_view(interfaces@)).subrange(0, i as int),
        decreases interfaces@.len() - i,
    {
        out.push(interfaces[i].1);
        assert(kinds(pairs_view(interfaces@)).subrange(0, i + 1) =~= kinds(
            pairs_view(interfaces@),
        ).subrange(0, i as int).push(interfaces@[i as int].1));
        i = i + 1;
    }
    assert(kinds(pairs_view(interfaces@)).subrange(0, i as int) =~= kinds(pairs_view(interfaces@)));
    out
}

/// Selects the first interface of exactly the forced kind, or fails with the
/// kinds the agent offers.
pub fn select_forced(interfaces: &[(String, Binding)], forced: Binding) -> (r: Result<
    SelectedBinding,
    ClientError,
>)
    ensures
        negotiation_view(r) == Some(forced_outcome(pairs_view(interfaces@), forced)),
{
    match find_kind(interfaces, forced) {
        Some(k) => {
            let (url, b) = &interfaces[k];
            Ok(select_entry(url, *b))
        },
        None => Err(ClientError::NoCompatibleBinding { available: available_kinds(interfaces) }),
    }
}

/// Chooses the session binding from the advertised interfaces: the forced
/// kind if one is given, else the preference list (the default one when
/// absent). Failure carries every kind the agent advertises.
pub fn negotiate(
    interfaces: &[(String, Binding)],
    preference: Option<&[Binding]>,
    forced: Option<Binding>,
) -> (r: Result<SelectedBinding, ClientError>)
    ensures
        negotiation_view(r) == Some(
            negotiated(
                pairs_view(interfaces@),
                match preference {
                    Some(p) => Some(p@),
                    None => None,
                },
                forced,
            ),
        ),
{
    if let Some(f) = forced {
        return select_forced(interfaces, f);
    }
    let selected = match preference {
        Some(p) => select_binding(interfaces, p),
        None => {
            let d = default_preference();
            select_binding(interfaces, d.as_slice())
        },
    };
    match selected {
        Some(s) => Ok(s),
        None => Err(ClientError::NoCompatibleBinding { available: available_kinds(interfaces) }),
    }
}

proof fn lemma_first_of_kind_found(ifs: Seq<InterfaceView>, b: Binding)
    ensures
        first_of_kind(ifs, b) is Some <==> has_kind(ifs, b),
        first_of_kind(ifs, b) matches Some(x) ==> x.1 == b && ifs.contains(x),
    decreases ifs.len(),
{
    if ifs.len() > 0 {
        lemma_first_of_kind_found(ifs.drop_first(), b);
        if ifs[0].1 != b {
            if has_kind(ifs, b) {
                let i = choose|i: int| 0 <= i < ifs.len() && ifs[i].1 == b;
                assert(ifs.drop_first()[i - 1].1 == b);
            }
            if has_kind(ifs.drop_first(), b) {
                let i = choose|i: int| 0 <= i < ifs.drop_first().len() && ifs.drop_first()[i].1 == b;
                assert(ifs[i + 1].1 == b);
            }
            if let Some(x) = first_of_kind(ifs, b) {
                let i = choose|i: int| 0 <= i < ifs.drop_first().len() && ifs.drop_first()[i] == x;
                assert(ifs[i + 1] == x);
            }
        }
    }
}

/// Selection by preference returns the first interface of the earliest
/// preferred kind that occurs anywhere in the interface list, wherever that
/// interface stands in the list.
pub proof fn lemma_select_earliest_preference(ifs: Seq<InterfaceView>, pref: Seq<Binding>, j: int)
    requires
        0 <= j < pref.len(),
        has_kind(ifs, pref[j]),
        forall|k: int| 0 <= k < j ==> !has_kind(ifs, #[trigger] pref[k]),
    ensures
        select_spec(ifs, pref) == first_of_kind(ifs, pref[j]),
        select_spec(ifs, pref) matches Some(x) && x.1 == pref[j] && ifs.contains(x),
    decreases j,
{
    lemma_first_of_kind_found(ifs, pref[j]);
    lemma_first_of_kind_found(ifs, pref[0]);
    if j > 0 {
        assert(!has_kind(ifs, pref[0]));
        let rest = pref.drop_first();
        assert forall|k: int| 0 <= k < j - 1 implies !has_kind(ifs, #[trigger] rest[k]) by {
            assert(rest[k] == pref[k + 1]);
        }
        assert(rest[j - 1] == pref[j]);
        lemma_select_earliest_preference(ifs, rest, j - 1);
    }
}

/// Selection by preference yields nothing exactly when no interface has a
/// preferred kind.
pub proof fn lemma_select_none_iff_no_match(ifs: Seq<InterfaceView>, pref: Seq<Binding>)
    ensures
        select_spec(ifs, pref) is None <==> (forall|i: int, j: int|
            0 <= i < ifs.len() && 0 <= j < pref.len() ==> ifs[i].1 != pref[j]),
    decreases pref.len(),
{
    if pref.len() > 0 {
        lemma_first_of_kind_found(ifs, pref[0]);
        lemma_select_none_iff_no_match(ifs, pref.drop_first());
        if select_spec(ifs, pref) is None {
            assert forall|i: int, j: int|
                0 <= i < ifs.len() && 0 <= j < pref.len() implies ifs[i].1 != pref[j] by {
                if j > 0 {
                    assert(pref.drop_first()[j - 1] == pref[j]);
                } else if ifs[i].1 == pref[0] {
                    assert(has_kind(ifs, pref[0]));
                }
            }
        } else if first_of_kind(ifs, pref[0]) is None {
            let ghost ii = choose|i: int, j: int|
                0 <= i < ifs.len() && 0 <= j < pref.drop_first().len() && ifs[i].1 == pref.drop_first()[j];
            assert(ifs[ii.0].1 == pref[ii.1 + 1]);
        } else {
            let i = choose|i: int| 0 <= i < ifs.len() && ifs[i].1 == pref[0];
            assert(ifs[i].1 == pref[0]);
        }
    }
}

/// Forcing a kind that no interface has fails, and the failure lists every
/// kind that is present (and only those).
pub proof fn lemma_forced_absent_lists_kinds(ifs: Seq<InterfaceView>, f: Binding)
    requires
        !has_kind(ifs, f),
    ensures
        forced_outcome(ifs, f) == Err::<InterfaceView, Seq<Binding>>(kinds(ifs)),
        forall|b: Binding| kinds(ifs).contains(b) <==> has_kind(ifs, b),
{
    lemma_first_of_kind_found(ifs, f);
    assert forall|b: Binding| kinds(ifs).contains(b) <==> has_kind(ifs, b) by {
        if kinds(ifs).contains(b) {
            let i = choose|i: int| 0 <= i < kinds(ifs).len() && kinds(ifs)[i] == b;
            assert(ifs[i].1 == b);
        }
        if has_kind(ifs, b) {
            let i = choose|i: int| 0 <= i < ifs.len() && ifs[i].1 == b;
            assert(kinds(ifs)[i] == b);
        }
    }
}

} // verus!
