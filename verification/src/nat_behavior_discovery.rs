//! NAT behavior discovery after RFC 5780: two sequences of Binding requests
//! that classify how a NAT maps addresses and which traffic it lets in.
//!
//! A sequence is a state that knows which test it is waiting for. It starts
//! with the first probe to send; each response, or failure, of a probe gives
//! either the next probe or the result. The caller sends the probes and
//! brings back what came of them.
//!
//! Where both sequences run over one socket, the filtering sequence has to
//! run first: the mapping sequence makes the NAT open a mapping for the
//! alternate address of the server, and traffic from there would then pass
//! a filter that is in fact address dependent.

use std::collections::HashMap;
use vstd::prelude::*;

use crate::address::{IpAddress, SocketAddress};
use crate::error::{ErrorView, STUNClientError};
use crate::format::{
    attributes_length, lemma_length_of_nothing, lemma_length_of_one_more, MessageView,
};
use crate::kinds::{
    Attribute, ATTR_CHANGE_REQUEST, ATTR_OTHER_ADDRESS,
};
use crate::message::{attributes_view, Message};
use crate::values::{address_of, change_request_value, xor_mapped_address_of};

verus! {

/// How a NAT maps the address of a socket for different destinations.
#[derive(Clone, Copy, Debug, Eq, PartialEq, Structural)]
pub enum NATMappingType {
    NoNAT,
    EndpointIndependent,
    AddressDependent,
    AddressAndPortDependent,
    Unknown,
}

/// Which traffic a NAT lets in once a mapping exists.
#[derive(Clone, Copy, Debug, Eq, PartialEq, Structural)]
pub enum NATFilteringType {
    EndpointIndependent,
    AddressDependent,
    AddressAndPortDependent,
    Unknown,
}

/// The mapping behavior, with the reflexive addresses of the tests that
/// were made.
#[derive(Clone, Debug, Eq, PartialEq)]
pub struct NATMappingTypeResult {
    pub test1_xor_mapped_addr: Option<SocketAddress>,
    pub test2_xor_mapped_addr: Option<SocketAddress>,
    pub test3_xor_mapped_addr: Option<SocketAddress>,
    pub mapping_type: NATMappingType,
}

/// The filtering behavior, with the reflexive address of the first test.
#[derive(Clone, Debug, Eq, PartialEq)]
pub struct NATFilteringTypeResult {
    pub xor_mapped_addr: Option<SocketAddress>,
    pub filtering_type: NATFilteringType,
}

/// The server endpoint that a probe goes to.
#[derive(Clone, Copy, Debug, Eq, PartialEq)]
pub enum ProbeTarget {
    /// The address of the server that the caller was given.
    Primary,
    /// The alternate address that the server named in OTHER-ADDRESS.
    Alternate(SocketAddress),
    /// The IP address of the primary address, with this port.
    PrimaryWithPort(u16),
}

/// What a CHANGE-REQUEST attribute asks of the server.
#[derive(Clone, Copy, Debug, Eq, PartialEq)]
pub struct ChangeRequest {
    pub change_ip: bool,
    pub change_port: bool,
}

/// A Binding request to make.
#[derive(Clone, Copy, Debug, Eq, PartialEq)]
pub struct Probe {
    pub target: ProbeTarget,
    pub change_request: Option<ChangeRequest>,
}

/// The attributes of a probe: a CHANGE-REQUEST where it asks for a change,
/// none otherwise.
pub open spec fn probe_attributes(probe: Probe) -> Option<Map<u16, Seq<u8>>> {
    match probe.change_request {
        None => None,
        Some(change) => Some(
            Map::empty().insert(
                ATTR_CHANGE_REQUEST,
                change_request_value(change.change_ip, change.change_port),
            ),
        ),
    }
}

impl Probe {
    /// The attributes to send with the probe. Their length fits into a
    /// header.
    pub fn attributes(&self) -> (attributes: Option<HashMap<u16, Vec<u8>>>)
        ensures
            match attributes {
                None => probe_attributes(*self) is None,
                Some(held) => probe_attributes(*self) == Some(attributes_view(held@))
                    && attributes_length(attributes_view(held@)) == 8,
            },
    {
        match self.change_request {
            None => None,
            Some(change) => {
                let mut attrs: HashMap<u16, Vec<u8>> = HashMap::new();
                let value = Attribute::generate_change_request_value(
                    change.change_ip,
                    change.change_port,
                );
                attrs.insert(Attribute::ChangeRequest.to_u16(), value);
                proof {
                    let held = attributes_view(attrs@);
                    assert(held.restrict(Set::empty()) =~= Map::empty());
                    assert(held.restrict(Set::empty().insert(ATTR_CHANGE_REQUEST)) =~= held);
                    lemma_length_of_nothing(0x1_0000);
                    lemma_length_of_one_more(held, Set::empty(), ATTR_CHANGE_REQUEST, 0x1_0000);
                }
                Some(attrs)
            },
        }
    }
}

/// What came of a probe, as far as a sequence looks at it.
pub open spec fn response_view(response: Result<Message, STUNClientError>) -> Result<
    MessageView,
    ErrorView,
> {
    match response {
        Ok(message) => Ok(message@),
        Err(error) => Err(error@),
    }
}

/// What a sequence does after a response: the next probe, or the end.
pub enum Step<State, Outcome> {
    /// Send the probe, and bring its response to the state.
    Next(State, Probe),
    /// The sequence has ended.
    Finished(Result<Outcome, STUNClientError>),
}

/// What a step says, without the operating system's error inside an
/// `IOError`.
pub enum StepView<State, Outcome> {
    Next(State, Probe),
    Finished(Result<Outcome, ErrorView>),
}

impl<State, Outcome> View for Step<State, Outcome> {
    type V = StepView<State, Outcome>;

    open spec fn view(&self) -> StepView<State, Outcome> {
        match self {
            Step::Next(state, probe) => StepView::Next(*state, *probe),
            Step::Finished(Ok(outcome)) => StepView::Finished(Ok(*outcome)),
            Step::Finished(Err(error)) => StepView::Finished(Err(error@)),
        }
    }
}

/// The name of the attribute that a server has to send for the address to
/// be seen from outside.
pub open spec fn xor_mapped_address_name() -> Seq<char> {
    "XOR-MAPPED-ADDRESS"@
}

/// The name of the attribute that a server has to send for its alternate
/// address to be known.
pub open spec fn other_address_name() -> Seq<char> {
    "OTHER-ADDRESS"@
}

/// The error for a response without XOR-MAPPED-ADDRESS.
fn xor_mapped_address_missing() -> (error: STUNClientError)
    ensures
        error@ == ErrorView::NotSupported(xor_mapped_address_name()),
{
    STUNClientError::NotSupportedError("XOR-MAPPED-ADDRESS".to_owned())
}

/// The error for a response without OTHER-ADDRESS.
fn other_address_missing() -> (error: STUNClientError)
    ensures
        error@ == ErrorView::NotSupported(other_address_name()),
{
    STUNClientError::NotSupportedError("OTHER-ADDRESS".to_owned())
}

/// Whether `ip` is among `local_ips`.
pub fn is_local(ip: &IpAddress, local_ips: &[IpAddress]) -> (local: bool)
    ensures
        local == local_ips@.contains(*ip),
{
    let mut at: usize = 0;
    while at < local_ips.len()
        invariant
            at <= local_ips@.len(),
            forall|i: int| 0 <= i < at ==> local_ips@[i] != *ip,
        decreases local_ips@.len() - at,
    {
        if local_ips[at].same_as(ip) {
            return true;
        }
        at = at + 1;
    }
    false
}

/// The sequence that finds the mapping behavior, by the test whose
/// response it waits for.
#[derive(Clone, Copy, Debug, Eq, PartialEq)]
pub enum MappingDiscovery {
    /// Test 1: a request to the primary address.
    Test1,
    /// Test 2: a request to the alternate address.
    Test2 { test1: SocketAddress, other: SocketAddress },
    /// Test 3: a request to the primary IP address and the alternate port.
    Test3 { test1: SocketAddress, test2: SocketAddress },
}

/// The result of the mapping sequence after the given tests.
pub open spec fn mapping_result(
    test1: Option<SocketAddress>,
    test2: Option<SocketAddress>,
    test3: Option<SocketAddress>,
    mapping_type: NATMappingType,
) -> NATMappingTypeResult {
    NATMappingTypeResult {
        test1_xor_mapped_addr: test1,
        test2_xor_mapped_addr: test2,
        test3_xor_mapped_addr: test3,
        mapping_type,
    }
}

/// What the mapping sequence does with what came of the probe it waits
/// for.
///
/// A failed probe ends the sequence with its error, and so does a response
/// without XOR-MAPPED-ADDRESS, or a first response without OTHER-ADDRESS.
/// Test 1 finds that there is no NAT where the reflexive address is a local
/// one. Test 2 finds an endpoint-independent mapping where the reflexive
/// address is the one of Test 1. Test 3 finds an address-dependent mapping
/// where the reflexive address is the one of Test 2, and an address and
/// port dependent one otherwise.
pub open spec fn mapping_step(
    state: MappingDiscovery,
    response: Result<MessageView, ErrorView>,
    local_ips: Seq<IpAddress>,
) -> StepView<MappingDiscovery, NATMappingTypeResult> {
    match response {
        Err(error) => StepView::Finished(Err(error)),
        Ok(message) => match xor_mapped_address_of(message) {
            None => StepView::Finished(Err(ErrorView::NotSupported(xor_mapped_address_name()))),
            Some(mapped) => match state {
                MappingDiscovery::Test1 => match address_of(message, ATTR_OTHER_ADDRESS) {
                    None => StepView::Finished(
                        Err(ErrorView::NotSupported(other_address_name())),
                    ),
                    Some(other) => if local_ips.contains(mapped.ip) {
                        StepView::Finished(
                            Ok(mapping_result(Some(mapped), None, None, NATMappingType::NoNAT)),
                        )
                    } else {
                        StepView::Next(
                            MappingDiscovery::Test2 { test1: mapped, other },
                            Probe { target: ProbeTarget::Alternate(other), change_request: None },
                        )
                    },
                },
                MappingDiscovery::Test2 { test1, other } => if mapped == test1 {
                    StepView::Finished(
                        Ok(
                            mapping_result(
                                Some(test1),
                                Some(mapped),
                                None,
                                NATMappingType::EndpointIndependent,
                            ),
                        ),
                    )
                } else {
                    StepView::Next(
                        MappingDiscovery::Test3 { test1, test2: mapped },
                        Probe {
                            target: ProbeTarget::PrimaryWithPort(other.port),
                            change_request: None,
                        },
                    )
                },
                MappingDiscovery::Test3 { test1, test2 } => StepView::Finished(
                    Ok(
                        mapping_result(
                            Some(test1),
                            Some(test2),
                            Some(mapped),
                            if mapped == test2 {
                                NATMappingType::AddressDependent
                            } else {
                                NATMappingType::AddressAndPortDependent
                            },
                        ),
                    ),
                ),
            },
        },
    }
}

/// The mapping sequence makes three tests at most, one after the other:
/// after Test 1 comes Test 2 or the end, after Test 2 comes Test 3 or the
/// end, and Test 3 is the end.
pub proof fn lemma_mapping_sequence_ends(
    state: MappingDiscovery,
    response: Result<MessageView, ErrorView>,
    local_ips: Seq<IpAddress>,
)
    ensures
        match mapping_step(state, response, local_ips) {
            StepView::Finished(_) => true,
            StepView::Next(next, _) => match state {
                MappingDiscovery::Test1 => next is Test2,
                MappingDiscovery::Test2 { .. } => next is Test3,
                MappingDiscovery::Test3 { .. } => false,
            },
        },
{
}

/// Where the first response shows a local address, there is no NAT, and no
/// further test is made.
pub proof fn lemma_local_address_is_no_nat(message: MessageView, local_ips: Seq<IpAddress>)
    requires
        xor_mapped_address_of(message) is Some,
        address_of(message, ATTR_OTHER_ADDRESS) is Some,
        local_ips.contains(xor_mapped_address_of(message)->0.ip),
    ensures
        mapping_step(MappingDiscovery::Test1, Ok(message), local_ips) == StepView::<
            MappingDiscovery,
            NATMappingTypeResult,
        >::Finished(
            Ok(
                mapping_result(
                    xor_mapped_address_of(message),
                    None,
                    None,
                    NATMappingType::NoNAT,
                ),
            ),
        ),
{
}

/// Where the first two responses show one and the same address that is not
/// a local one, the mapping is endpoint independent, and no third test is
/// made.
pub proof fn lemma_same_address_is_endpoint_independent(
    first: MessageView,
    second: MessageView,
    local_ips: Seq<IpAddress>,
)
    requires
        xor_mapped_address_of(first) is Some,
        address_of(first, ATTR_OTHER_ADDRESS) is Some,
        !local_ips.contains(xor_mapped_address_of(first)->0.ip),
        xor_mapped_address_of(second) == xor_mapped_address_of(first),
    ensures
        mapping_step(MappingDiscovery::Test1, Ok(first), local_ips) matches StepView::Next(
            state,
            probe,
        ) && probe.target == ProbeTarget::Alternate(address_of(first, ATTR_OTHER_ADDRESS)->0)
            && mapping_step(state, Ok(second), local_ips) == StepView::<
            MappingDiscovery,
            NATMappingTypeResult,
        >::Finished(
            Ok(
                mapping_result(
                    xor_mapped_address_of(first),
                    xor_mapped_address_of(first),
                    None,
                    NATMappingType::EndpointIndependent,
                ),
            ),
        ),
{
}

impl MappingDiscovery {
    /// The beginning of the sequence: Test 1, a plain request to the
    /// primary address.
    pub fn start() -> (begin: (MappingDiscovery, Probe))
        ensures
            begin.0 == MappingDiscovery::Test1,
            begin.1 == (Probe { target: ProbeTarget::Primary, change_request: None }),
    {
        (MappingDiscovery::Test1, Probe { target: ProbeTarget::Primary, change_request: None })
    }

    /// Takes what came of the probe that the sequence waits for, and says
    /// how the sequence goes on. `local_ips` are the addresses of the local
    /// network interfaces. An error of the probe is handed on as it is.
    pub fn on_response(
        self,
        response: Result<Message, STUNClientError>,
        local_ips: &[IpAddress],
    ) -> (step: Step<MappingDiscovery, NATMappingTypeResult>)
        ensures
            step@ == mapping_step(self, response_view(response), local_ips@),
            response matches Err(error) ==> step == Step::<
                MappingDiscovery,
                NATMappingTypeResult,
            >::Finished(Err(error)),
    {
        let message = match response {
            Ok(message) => message,
            Err(error) => {
                return Step::Finished(Err(error));
            },
        };
        let mapped = match Attribute::get_xor_mapped_address(&message) {
            Some(mapped) => mapped,
            None => {
                return Step::Finished(Err(xor_mapped_address_missing()));
            },
        };
        match self {
            MappingDiscovery::Test1 => {
                // Compare with the IP of the NIC and check if it is behind the NAT.
                let other = match Attribute::get_other_address(&message) {
                    Some(other) => other,
                    None => {
                        return Step::Finished(Err(other_address_missing()));
                    },
                };
                if is_local(&mapped.ip, local_ips) {
                    Step::Finished(
                        Ok(
                            NATMappingTypeResult {
                                test1_xor_mapped_addr: Some(mapped),
                                test2_xor_mapped_addr: None,
                                test3_xor_mapped_addr: None,
                                mapping_type: NATMappingType::NoNAT,
                            },
                        ),
                    )
                } else {
                    // Send Binding Request to IP:Port of OTHER-ADDRESS.
                    Step::Next(
                        MappingDiscovery::Test2 { test1: mapped, other },
                        Probe { target: ProbeTarget::Alternate(other), change_request: None },
                    )
                }
            },
            MappingDiscovery::Test2 { test1, other } => {
                // Compare Test1 and Test2 XOR-MAPPED-ADDRESS to check if it is EIM-NAT.
                if mapped.same_as(&test1) {
                    Step::Finished(
                        Ok(
                            NATMappingTypeResult {
                                test1_xor_mapped_addr: Some(test1),
                                test2_xor_mapped_addr: Some(mapped),
                                test3_xor_mapped_addr: None,
                                mapping_type: NATMappingType::EndpointIndependent,
                            },
                        ),
                    )
                } else {
                    // Send a Binding Request to the IP used in Test1 and the Port used in Test2.
                    Step::Next(
                        MappingDiscovery::Test3 { test1, test2: mapped },
                        Probe {
                            target: ProbeTarget::PrimaryWithPort(other.port),
                            change_request: None,
                        },
                    )
                }
            },
            MappingDiscovery::Test3 { test1, test2 } => {
                // Compare Test2 and Test3 XOR-MAPPED-ADDRESS to check if it is ADM-NAT or APDM-NAT.
                let mapping_type = if mapped.same_as(&test2) {
                    NATMappingType::AddressDependent
                } else {
                    NATMappingType::AddressAndPortDependent
                };
                Step::Finished(
                    Ok(
                        NATMappingTypeResult {
                            test1_xor_mapped_addr: Some(test1),
                            test2_xor_mapped_addr: Some(test2),
                            test3_xor_mapped_addr: Some(mapped),
                            mapping_type,
                        },
                    ),
                )
            },
        }
    }
}

/// The sequence that finds the filtering behavior, by the test whose
/// response it waits for.
#[derive(Clone, Copy, Debug, Eq, PartialEq)]
pub enum FilteringDiscovery {
    /// Test 1: a plain request.
    Test1,
    /// Test 2: a request for a response from another IP address and port.
    Test2 { mapped: SocketAddress },
    /// Test 3: a request for a response from another port.
    Test3 { mapped: SocketAddress },
}

/// The result of the filtering sequence.
pub open spec fn filtering_result(
    mapped: SocketAddress,
    filtering_type: NATFilteringType,
) -> NATFilteringTypeResult {
    NATFilteringTypeResult { xor_mapped_addr: Some(mapped), filtering_type }
}

/// What the filtering sequence does with what came of the probe it waits
/// for.
///
/// Test 1 notes the reflexive address; without one, or with a failed
/// probe, the sequence ends with the error. In Test 2 and Test 3 any
/// response is an answer, a timeout is an answer too, and another error
/// ends the sequence. A response to Test 2 shows endpoint-independent
/// filtering; after a timeout Test 3 follows. A response to Test 3 shows
/// address-dependent filtering, a timeout address and port dependent
/// filtering.
pub open spec fn filtering_step(
    state: FilteringDiscovery,
    response: Result<MessageView, ErrorView>,
) -> StepView<FilteringDiscovery, NATFilteringTypeResult> {
    match state {
        FilteringDiscovery::Test1 => match response {
            Err(error) => StepView::Finished(Err(error)),
            Ok(message) => match xor_mapped_address_of(message) {
                None => StepView::Finished(
                    Err(ErrorView::NotSupported(xor_mapped_address_name())),
                ),
                Some(mapped) => StepView::Next(
                    FilteringDiscovery::Test2 { mapped },
                    Probe {
                        target: ProbeTarget::Primary,
                        change_request: Some(ChangeRequest { change_ip: true, change_port: true }),
                    },
                ),
            },
        },
        FilteringDiscovery::Test2 { mapped } => match response {
            Ok(_) => StepView::Finished(
                Ok(filtering_result(mapped, NATFilteringType::EndpointIndependent)),
            ),
            Err(ErrorView::Timeout) => StepView::Next(
                FilteringDiscovery::Test3 { mapped },
                Probe {
                    target: ProbeTarget::Primary,
                    change_request: Some(ChangeRequest { change_ip: false, change_port: true }),
                },
            ),
            Err(error) => StepView::Finished(Err(error)),
        },
        FilteringDiscovery::Test3 { mapped } => match response {
            Ok(_) => StepView::Finished(
                Ok(filtering_result(mapped, NATFilteringType::AddressDependent)),
            ),
            Err(ErrorView::Timeout) => StepView::Finished(
                Ok(filtering_result(mapped, NATFilteringType::AddressAndPortDependent)),
            ),
            Err(error) => StepView::Finished(Err(error)),
        },
    }
}

/// The filtering sequence makes three tests at most, one after the other:
/// after Test 1 comes Test 2 or the end, after Test 2 comes Test 3 or the
/// end, and Test 3 is the end. Test 2 and Test 3 go to the primary address
/// and ask for a change, Test 3 for a change of the port alone.
pub proof fn lemma_filtering_sequence_ends(
    state: FilteringDiscovery,
    response: Result<MessageView, ErrorView>,
)
    ensures
        match filtering_step(state, response) {
            StepView::Finished(_) => true,
            StepView::Next(next, probe) => probe.target == ProbeTarget::Primary && match state {
                FilteringDiscovery::Test1 => next is Test2 && probe.change_request == Some(
                    ChangeRequest { change_ip: true, change_port: true },
                ),
                FilteringDiscovery::Test2 { .. } => next is Test3 && probe.change_request == Some(
                    ChangeRequest { change_ip: false, change_port: true },
                ),
                FilteringDiscovery::Test3 { .. } => false,
            },
        },
{
}

/// A timeout is an answer, not a failure, once the reflexive address is
/// known: where requests that ask for a change of IP address get no
/// response, the filtering is address dependent if a request that asks for
/// a change of port alone gets one, and address and port dependent if that
/// times out too.
pub proof fn lemma_timeouts_classify_filtering(
    mapped: SocketAddress,
    third: Result<MessageView, ErrorView>,
)
    requires
        third is Ok || third == Err::<MessageView, ErrorView>(ErrorView::Timeout),
    ensures
        filtering_step(FilteringDiscovery::Test2 { mapped }, Err(ErrorView::Timeout))
            matches StepView::Next(state, _) && filtering_step(state, third) == StepView::<
            FilteringDiscovery,
            NATFilteringTypeResult,
        >::Finished(
            Ok(
                filtering_result(
                    mapped,
                    if third is Ok {
                        NATFilteringType::AddressDependent
                    } else {
                        NATFilteringType::AddressAndPortDependent
                    },
                ),
            ),
        ),
{
}

impl FilteringDiscovery {
    /// The beginning of the sequence: Test 1, a plain request to the
    /// primary address.
    pub fn start() -> (begin: (FilteringDiscovery, Probe))
        ensures
            begin.0 == FilteringDiscovery::Test1,
            begin.1 == (Probe { target: ProbeTarget::Primary, change_request: None }),
    {
        (FilteringDiscovery::Test1, Probe { target: ProbeTarget::Primary, change_request: None })
    }

    /// Takes what came of the probe that the sequence waits for, and says
    /// how the sequence goes on. An error that ends the sequence is handed
    /// on as it is.
    pub fn on_response(self, response: Result<Message, STUNClientError>) -> (step: Step<
        FilteringDiscovery,
        NATFilteringTypeResult,
    >)
        ensures
            step@ == filtering_step(self, response_view(response)),
            response matches Err(error) ==> self is Test1 || !(error is TimeoutError) ==> step
                == Step::<FilteringDiscovery, NATFilteringTypeResult>::Finished(Err(error)),
    {
        match self {
            FilteringDiscovery::Test1 => {
                let message = match response {
                    Ok(message) => message,
                    Err(error) => {
                        return Step::Finished(Err(error));
                    },
                };
                match Attribute::get_xor_mapped_address(&message) {
                    None => Step::Finished(Err(xor_mapped_address_missing())),
                    // Send Binding Request with the "change IP" and "change port" flags of
                    // CHANGE-REQUEST turned on.
                    Some(mapped) => Step::Next(
                        FilteringDiscovery::Test2 { mapped },
                        Probe {
                            target: ProbeTarget::Primary,
                            change_request: Some(
                                ChangeRequest { change_ip: true, change_port: true },
                            ),
                        },
                    ),
                }
            },
            FilteringDiscovery::Test2 { mapped } => match response {
                // If the response can be received, it is EIF-NAT.
                Ok(_) => Step::Finished(
                    Ok(
                        NATFilteringTypeResult {
                            xor_mapped_addr: Some(mapped),
                            filtering_type: NATFilteringType::EndpointIndependent,
                        },
                    ),
                ),
                // Send a binding request with only the "change port" flag turned on.
                Err(STUNClientError::TimeoutError()) => Step::Next(
                    FilteringDiscovery::Test3 { mapped },
                    Probe {
                        target: ProbeTarget::Primary,
                        change_request: Some(ChangeRequest { change_ip: false, change_port: true }),
                    },
                ),
                Err(error) => Step::Finished(Err(error)),
            },
            FilteringDiscovery::Test3 { mapped } => match response {
                // If the response can be received, it is ADF-NAT, and if it cannot be
                // received, it is APDF-NAT.
                Ok(_) => Step::Finished(
                    Ok(
                        NATFilteringTypeResult {
                            xor_mapped_addr: Some(mapped),
                            filtering_type: NATFilteringType::AddressDependent,
                        },
                    ),
                ),
                Err(STUNClientError::TimeoutError()) => Step::Finished(
                    Ok(
                        NATFilteringTypeResult {
                            xor_mapped_addr: Some(mapped),
                            filtering_type: NATFilteringType::AddressAndPortDependent,
                        },
                    ),
                ),
                Err(error) => Step::Finished(Err(error)),
            },
        }
    }
}

} // verus!
