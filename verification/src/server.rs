//! What is configured: the devices, and where clients find each of them.

use vstd::prelude::*;

use crate::device::Device;
use crate::task::Receiving;

verus! {

/// How many messages may wait for the task of a device.
pub const QUEUE_LEN: usize = 32;

/// Where the clients of a device connect.
#[derive(Debug)]
pub struct Listen {
    /// The address to listen on.
    pub bind: String,
}

/// Where a device is.
#[derive(Debug)]
pub struct Modbus {
    /// The address of the device.
    pub url: String,
    /// How long to wait between opening a connection and using it.
    pub connect_delay_ms: u64,
}

/// A device and the address where the proxy stands in for it.
#[derive(Debug)]
pub struct Bridge {
    /// Where clients connect.
    pub listen: Listen,
    /// Where the device is.
    pub modbus: Modbus,
}

/// The proxy: all devices that it stands in for.
#[derive(Debug)]
pub struct Server {
    /// The devices.
    pub devices: Vec<Bridge>,
}

/// A bridge that is to be brought up: bind the address, start the task of the
/// device behind a queue, and start a session for each client that connects.
#[derive(Debug)]
pub struct BridgeTask<S> {
    /// The address to bind.
    pub bind: String,
    /// How many messages the queue holds.
    pub queue_len: usize,
    /// The task of the device.
    pub device: Receiving<S>,
}

impl Bridge {
    /// Whether `task` brings this bridge up: on its address, with a device of
    /// its own to which nothing is connected.
    pub open spec fn brought_up_by<S>(self, task: BridgeTask<S>) -> bool {
        &&& task.bind@ == self.listen.bind@
        &&& task.queue_len == QUEUE_LEN
        &&& task.device.device.url@ == self.modbus.url@
        &&& task.device.device.connect_delay_ms == self.modbus.connect_delay_ms
        &&& task.device.device.stream is None
        &&& task.device.nb_clients == 0
    }

    /// Starts to bring the bridge up.
    pub fn run<S>(&self) -> (task: BridgeTask<S>)
        ensures
            self.brought_up_by(task),
    {
        BridgeTask {
            bind: self.listen.bind.clone(),
            queue_len: QUEUE_LEN,
            device: Device::launch(self.modbus.url.as_str(), self.modbus.connect_delay_ms),
        }
    }
}

impl Server {
    /// A proxy for the configured devices.
    pub fn new(devices: Vec<Bridge>) -> (server: Self)
        ensures
            server.devices == devices,
    {
        Server { devices }
    }

    /// Starts to bring all bridges up, each for itself.
    pub fn run<S>(self) -> (tasks: Vec<BridgeTask<S>>)
        ensures
            tasks@.len() == self.devices@.len(),
            forall|i: int|
                0 <= i < tasks@.len() ==> self.devices@[i].brought_up_by(#[trigger] tasks@[i]),
    {
        let mut tasks: Vec<BridgeTask<S>> = Vec::new();
        let mut i: usize = 0;
        while i < self.devices.len()
            invariant
                tasks@.len() == i <= self.devices@.len(),
                forall|j: int|
                    0 <= j < i ==> self.devices@[j].brought_up_by(#[trigger] tasks@[j]),
            decreases self.devices@.len() - i,
        {
            tasks.push(self.devices[i].run());
            i += 1;
        }
        tasks
    }

    /// Starts to bring up a proxy for the configured devices.
    pub fn launch<S>(devices: Vec<Bridge>) -> (tasks: Vec<BridgeTask<S>>)
        ensures
            tasks@.len() == devices@.len(),
            forall|i: int|
                0 <= i < tasks@.len() ==> devices@[i].brought_up_by(#[trigger] tasks@[i]),
    {
        Server::new(devices).run()
    }
}

/// A bridge comes up as it is configured: on its own address, with a queue of 32
/// messages, and with a device of its own that has the configured address and
/// delay, no clients and no connection.
pub proof fn law_bridge_comes_up_as_configured<S>(bridge: Bridge, task: BridgeTask<S>)
    requires
        call_ensures(Bridge::run::<S>, (&bridge,), task),
    ensures
        task.bind@ == bridge.listen.bind@,
        task.queue_len == 32,
        task.device.device.url@ == bridge.modbus.url@,
        task.device.device.connect_delay_ms == bridge.modbus.connect_delay_ms,
        task.device.device.stream is None,
        task.device.nb_clients == 0,
        call_requires(Bridge::run::<S>, (&bridge,)),
{
}

/// Every configured device is brought up, in its place, with its own address
/// and delay, and nothing else is.
pub proof fn law_every_device_comes_up<S>(
    devices: Vec<Bridge>,
    server: Server,
    tasks: Vec<BridgeTask<S>>,
    launched: Vec<BridgeTask<S>>,
)
    requires
        call_ensures(Server::new, (devices,), server),
        call_ensures(Server::run::<S>, (server,), tasks),
        call_ensures(Server::launch::<S>, (devices,), launched),
    ensures
        server.devices == devices,
        tasks@.len() == devices@.len(),
        launched@.len() == devices@.len(),
        forall|i: int|
            0 <= i < devices@.len() ==> {
                let bridge = #[trigger] devices@[i];
                &&& tasks@[i].bind@ == bridge.listen.bind@
                &&& tasks@[i].queue_len == 32
                &&& tasks@[i].device.device.url@ == bridge.modbus.url@
                &&& tasks@[i].device.device.connect_delay_ms == bridge.modbus.connect_delay_ms
                &&& tasks@[i].device.device.stream is None
                &&& tasks@[i].device.nb_clients == 0
                &&& launched@[i].bind@ == bridge.listen.bind@
                &&& launched@[i].queue_len == 32
                &&& launched@[i].device.device.url@ == bridge.modbus.url@
                &&& launched@[i].device.device.connect_delay_ms == bridge.modbus.connect_delay_ms
                &&& launched@[i].device.device.stream is None
                &&& launched@[i].device.nb_clients == 0
            },
        call_requires(Server::new, (devices,)),
        call_requires(Server::run::<S>, (server,)),
        call_requires(Server::launch::<S>, (devices,)),
{
    assert forall|i: int| 0 <= i < devices@.len() implies {
        &&& (#[trigger] devices@[i]).brought_up_by(tasks@[i])
        &&& devices@[i].brought_up_by(launched@[i])
    } by {
        let task = tasks@[i];
        let launch = launched@[i];
    }
}

} // verus!
