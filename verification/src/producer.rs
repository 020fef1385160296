//! Serving produced metric data to an Oximeter collector.

use vstd::prelude::*;

use crate::net::SocketAddr;
use crate::text::{uuid_text, uuid_to_string, Uuid};
use crate::time::Duration;

verus! {

/// An error of a metric producer.
#[derive(Clone, Debug)]
pub enum Error {
    /// Running the producer's HTTP server failed.
    Server(String),
    /// Registering as a metric producer failed.
    RegistrationError(String),
}

impl Error {
    /// The text of the error.
    pub open spec fn text(self) -> Seq<char> {
        match self {
            Error::Server(msg) => "Error running producer HTTP server: "@ + msg@,
            Error::RegistrationError(msg) => "Error registering as metric producer: "@ + msg@,
        }
    }

    /// The text of the error.
    pub fn to_text(&self) -> (r: String)
        ensures
            r@ == self.text(),
    {
        match self {
            Error::Server(msg) => "Error running producer HTTP server: ".to_owned().concat(
                msg.as_str(),
            ),
            Error::RegistrationError(msg) => {
                "Error registering as metric producer: ".to_owned().concat(msg.as_str())
            },
        }
    }
}

/// The kind of a metric producer.
#[derive(Copy, Clone, Debug, PartialEq, Eq, Structural)]
pub enum ProducerKind {
    /// The producer is a sled agent.
    SledAgent,
    /// The producer is a service of the control plane.
    Service,
    /// The producer is the VMM of an instance.
    Instance,
}

/// The information for contacting a metric producer.
#[derive(Copy, Clone, Debug, PartialEq, Eq, Structural)]
pub struct ProducerEndpoint {
    /// A unique ID for this producer.
    pub id: Uuid,
    /// The kind of producer.
    pub kind: ProducerKind,
    /// The IP address and port at which the producer can be contacted.
    pub address: SocketAddr,
    /// The interval on which metrics should be collected.
    pub interval: Duration,
}

/// Parameters of a request to the collection endpoint.
#[derive(Copy, Clone, Debug, PartialEq, Eq, Structural)]
pub struct ProducerIdPathParams {
    pub producer_id: Uuid,
}

/// What to do next to start a producer's server.
#[derive(Debug)]
pub enum StartStep {
    /// Register the DTrace probes.
    RegisterProbes,
    /// Start the HTTP server, on a registry for the producer with an id.
    StartServer { producer_id: Uuid },
    /// Register the endpoint with the control plane at a URL.
    Register { url: String, server_info: ProducerEndpoint },
    /// The server is started and registered.
    Done,
}

/// What was done of starting a producer's server.
#[derive(Debug)]
pub enum StartEvent {
    /// The logger was made.
    Logger(Result<(), String>),
    /// The DTrace probes were registered.
    Probes(Result<(), String>),
    /// The HTTP server was started, and bound an address.
    Server(Result<SocketAddr, String>),
    /// The endpoint was registered.
    Registration(Result<(), Error>),
}

/// The URL of a server at an address.
pub open spec fn url_of(address: SocketAddr) -> Seq<char> {
    "http://"@ + address.text()
}

/// The URL at which to register a metric producer.
pub fn registration_url(address: SocketAddr) -> (r: String)
    ensures
        r@ == url_of(address),
{
    "http://".to_owned().concat(address.to_text().as_str())
}

/// What to do next to start a producer's server, once something was done.
///
/// Client code may decide to assign a specific address and/or port, or to
/// listen on any available address and port, assigned by the OS. For example,
/// `[::1]:0` would assign any port on localhost. If needed, the address of the
/// endpoint is updated with the actual address the server has bound.
pub open spec fn is_next_step(
    r: Result<StartStep, Error>,
    server_info: ProducerEndpoint,
    registration_address: SocketAddr,
    event: StartEvent,
) -> bool {
    match event {
        StartEvent::Logger(Err(msg)) => r == Err::<StartStep, Error>(Error::Server(msg)),
        StartEvent::Logger(Ok(_)) => r == Ok::<StartStep, Error>(StartStep::RegisterProbes),
        StartEvent::Probes(Err(e)) => {
            &&& r is Err
            &&& r->Err_0 is Server
            &&& r->Err_0->Server_0@ == "failed to register DTrace probes: "@ + e@
        },
        StartEvent::Probes(Ok(_)) => r == Ok::<StartStep, Error>(
            StartStep::StartServer { producer_id: server_info.id },
        ),
        StartEvent::Server(Err(msg)) => r == Err::<StartStep, Error>(Error::Server(msg)),
        StartEvent::Server(Ok(local_addr)) => {
            &&& r is Ok
            &&& r->Ok_0 is Register
            &&& r->Ok_0->url@ == url_of(registration_address)
            &&& r->Ok_0->server_info == (ProducerEndpoint { address: local_addr, ..server_info })
        },
        StartEvent::Registration(Err(e)) => r == Err::<StartStep, Error>(e),
        StartEvent::Registration(Ok(_)) => r == Ok::<StartStep, Error>(StartStep::Done),
    }
}

/// Decides what to do next to start a producer's server.
///
/// A server that bound another address than the requested one must have been
/// free to choose the port.
pub fn start(
    server_info: &ProducerEndpoint,
    registration_address: SocketAddr,
    event: StartEvent,
) -> (r: Result<StartStep, Error>)
    requires
        match event {
            StartEvent::Server(Ok(local_addr)) => server_info.address == local_addr
                || server_info.address.port_of() == 0,
            _ => true,
        },
    ensures
        is_next_step(r, *server_info, registration_address, event),
{
    match event {
        StartEvent::Logger(Err(msg)) => Err(Error::Server(msg)),
        StartEvent::Logger(Ok(_)) => Ok(StartStep::RegisterProbes),
        StartEvent::Probes(Err(e)) => Err(
            Error::Server(
                "failed to register DTrace probes: ".to_owned().concat(e.as_str()),
            ),
        ),
        StartEvent::Probes(Ok(_)) => Ok(StartStep::StartServer { producer_id: server_info.id }),
        StartEvent::Server(Err(msg)) => Err(Error::Server(msg)),
        StartEvent::Server(Ok(local_addr)) => {
            let url = registration_url(registration_address);
            let server_info = ProducerEndpoint { address: local_addr, ..*server_info };
            Ok(StartStep::Register { url, server_info })
        },
        StartEvent::Registration(Err(e)) => Err(e),
        StartEvent::Registration(Ok(_)) => Ok(StartStep::Done),
    }
}

/// What comes of registering a metric producer.
pub fn register(result: Result<(), String>) -> (r: Result<(), Error>)
    ensures
        match result {
            Ok(_) => r is Ok,
            Err(msg) => r == Err::<(), Error>(Error::RegistrationError(msg)),
        },
{
    match result {
        Ok(_) => Ok(()),
        Err(msg) => Err(Error::RegistrationError(msg)),
    }
}

/// What comes of serving requests, or of closing the server.
pub fn server_result(result: Result<(), String>) -> (r: Result<(), Error>)
    ensures
        match result {
            Ok(_) => r is Ok,
            Err(msg) => r == Err::<(), Error>(Error::Server(msg)),
        },
{
    match result {
        Ok(_) => Ok(()),
        Err(msg) => Err(Error::Server(msg)),
    }
}

/// An HTTP error.
#[derive(Debug)]
pub struct HttpError {
    pub status_code: u16,
    pub message: String,
}

/// Handle a request to pull available metric data from the producer with an
/// id: where the request is for that producer, its data is to be collected.
pub fn collect(registry_id: Uuid, producer_id: Uuid) -> (r: Result<(), HttpError>)
    ensures
        r is Ok <==> producer_id == registry_id,
        r is Err ==> {
            &&& r->Err_0.status_code == 404
            &&& r->Err_0.message@ == "Producer ID "@ + uuid_text(producer_id)
                + " is not valid, expected "@ + uuid_text(registry_id)
        },
{
    if producer_id == registry_id {
        Ok(())
    } else {
        Err(
            HttpError {
                status_code: 404,
                message: "Producer ID ".to_owned().concat(
                    uuid_to_string(producer_id).as_str(),
                ).concat(" is not valid, expected ").concat(uuid_to_string(registry_id).as_str()),
            },
        )
    }
}

/// What is registered is the address that the server has bound, and otherwise
/// the endpoint as it was given.
pub proof fn law_bound_address_is_registered(
    r: Result<StartStep, Error>,
    server_info: ProducerEndpoint,
    registration_address: SocketAddr,
    local_addr: SocketAddr,
)
    requires
        is_next_step(
            r,
            server_info,
            registration_address,
            StartEvent::Server(Ok(local_addr)),
        ),
    ensures
        r is Ok,
        r->Ok_0 is Register,
        r->Ok_0->server_info.address == local_addr,
        r->Ok_0->server_info.id == server_info.id,
        r->Ok_0->server_info.kind == server_info.kind,
        r->Ok_0->server_info.interval == server_info.interval,
        server_info.address == local_addr ==> r->Ok_0->server_info == server_info,
{
}

/// What is served and what is registered is the same producer.
pub proof fn law_served_producer_is_registered(
    serve: Result<StartStep, Error>,
    register: Result<StartStep, Error>,
    server_info: ProducerEndpoint,
    registration_address: SocketAddr,
    local_addr: SocketAddr,
)
    requires
        is_next_step(serve, server_info, registration_address, StartEvent::Probes(Ok(()))),
        is_next_step(
            register,
            server_info,
            registration_address,
            StartEvent::Server(Ok(local_addr)),
        ),
    ensures
        serve is Ok && serve->Ok_0 is StartServer,
        register is Ok && register->Ok_0 is Register,
        serve->Ok_0->producer_id == register->Ok_0->server_info.id,
{
}

} // verus!
