use vstd::prelude::*;

use crate::engine::command::EngineCommand;
use crate::engine::result_handler::EngineHealth;
use crate::text::str_eq;

verus! {

#[verifier::external_type_specification]
#[verifier::external_body]
#[verifier::reject_recursive_types(T)]
pub struct ExSender<T>(crossbeam::channel::Sender<T>);

/// Why a command did not reach its engine.
#[derive(Clone, Debug)]
pub enum DispatchError {
    UnknownSymbol { symbol: String, order_id: u128 },
    EngineStopped { symbol: String, order_id: u128 },
    ChannelFull { symbol: String, order_id: u128 },
    PublisherUnhealthy { symbol: String, order_id: u128 },
}

/// What became of a command offered to an engine's queue.
#[derive(Clone, Copy, Debug, PartialEq, Eq, Structural)]
pub enum SendAttempt {
    Sent,
    Full,
    Disconnected,
}

/// Offers a command to an engine's queue without waiting, by crossbeam's `Sender::try_send`.
/// Trusted as to its outcome only: whether the queue has room or its receiver is gone
/// depends on other threads, so nothing is stated of the result.
#[verifier::external_body]
fn try_send_command(sender: &crossbeam::channel::Sender<EngineCommand>, cmd: EngineCommand) -> (r: SendAttempt) {
    match sender.try_send(cmd) {
        Ok(()) => SendAttempt::Sent,
        Err(crossbeam::channel::TrySendError::Full(_)) => SendAttempt::Full,
        Err(crossbeam::channel::TrySendError::Disconnected(_)) => SendAttempt::Disconnected,
    }
}

impl DispatchError {
    /// The symbol the refused command was for.
    pub open spec fn symbol_view(&self) -> Seq<char> {
        match self {
            DispatchError::UnknownSymbol { symbol, .. } => symbol@,
            DispatchError::EngineStopped { symbol, .. } => symbol@,
            DispatchError::ChannelFull { symbol, .. } => symbol@,
            DispatchError::PublisherUnhealthy { symbol, .. } => symbol@,
        }
    }

    /// The order the refused command was about.
    pub open spec fn order_id_view(&self) -> u128 {
        match self {
            DispatchError::UnknownSymbol { order_id, .. } => *order_id,
            DispatchError::EngineStopped { order_id, .. } => *order_id,
            DispatchError::ChannelFull { order_id, .. } => *order_id,
            DispatchError::PublisherUnhealthy { order_id, .. } => *order_id,
        }
    }
}

/// Routes commands to the engine of their symbol.
#[derive(Clone)]
pub struct EngineDispatcher {
    senders: Vec<(String, crossbeam::channel::Sender<EngineCommand>)>,
    health: EngineHealth,
}

impl EngineDispatcher {
    /// The symbols that have an engine, in registration order.
    pub closed spec fn symbols(&self) -> Seq<Seq<char>> {
        self.senders@.map_values(|p: (String, crossbeam::channel::Sender<EngineCommand>)| p.0@)
    }

    /// A dispatcher over one queue per symbol; a symbol listed twice is served by its first queue.
    pub fn new(
        senders: Vec<(String, crossbeam::channel::Sender<EngineCommand>)>,
        health: EngineHealth,
    ) -> (d: EngineDispatcher)
        ensures
            d.symbols() == senders@.map_values(|p: (String, crossbeam::channel::Sender<EngineCommand>)| p.0@),
    {
        EngineDispatcher { senders, health }
    }

    /// The queue of `symbol`: the first position registered under it, if any.
    pub fn route(&self, symbol: &str) -> (r: Option<usize>)
        ensures
            r matches Some(i) ==> first_registered(self.symbols(), symbol@, i as int),
            r is None ==> !self.symbols().contains(symbol@),
    {
        let n = self.senders.len();
        let mut i: usize = 0;
        while i < n
            invariant
                n == self.senders@.len(),
                0 <= i <= n,
                forall|j: int| 0 <= j < i ==> self.symbols()[j] != symbol@,
            decreases n - i,
        {
            if str_eq(self.senders[i].0.as_str(), symbol) {
                return Some(i);
            }
            i = i + 1;
        }
        proof {
            if self.symbols().contains(symbol@) {
                let j = choose|j: int| 0 <= j < self.symbols().len() && self.symbols()[j] == symbol@;
                assert(self.symbols()[j] != symbol@);
            }
        }
        None
    }

    /// Offers `cmd` to the queue at `index` without waiting.
    fn offer(&self, index: usize, cmd: EngineCommand) -> (r: SendAttempt)
        requires
            index < self.symbols().len(),
    {
        try_send_command(&self.senders[index].1, cmd)
    }

    /// Offers `cmd` to the engine of `symbol` (its first registered queue) without waiting.
    /// It is refused while results fail to publish, for a symbol without an engine, and when
    /// that engine's queue is full or its engine has stopped. A refusal names the symbol and
    /// the command's order. Whether results publish and whether the queue takes the command
    /// depend on other threads; the answer is `dispatch_answer` of what they gave.
    pub fn dispatch(&self, symbol: &str, cmd: EngineCommand) -> (r: Result<(), DispatchError>)
        ensures
            exists|healthy: bool, attempt: SendAttempt|
                answered(
                    r,
                    healthy,
                    self.symbols().contains(symbol@),
                    attempt,
                    symbol@,
                    cmd.spec_order_id(),
                ),
    {
        let order_id = cmd.order_id();
        if !self.health.is_publisher_healthy() {
            let r = dispatch_answer(symbol, order_id, false, false, SendAttempt::Sent);
            proof {
                assert(answered(r, false, self.symbols().contains(symbol@), SendAttempt::Sent, symbol@, order_id));
            }
            return r;
        }
        match self.route(symbol) {
            None => {
                let r = dispatch_answer(symbol, order_id, true, false, SendAttempt::Sent);
                proof {
                    assert(answered(r, true, false, SendAttempt::Sent, symbol@, order_id));
                }
                r
            },
            Some(i) => {
                let attempt = self.offer(i, cmd);
                let r = dispatch_answer(symbol, order_id, true, true, attempt);
                proof {
                    assert(self.symbols().contains(symbol@)) by {
                        assert(self.symbols()[i as int] == symbol@);
                    }
                    assert(answered(r, true, true, attempt, symbol@, order_id));
                }
                r
            },
        }
    }
}

/// `i` is the first position of `symbols` holding `symbol`.
pub open spec fn first_registered(symbols: Seq<Seq<char>>, symbol: Seq<char>, i: int) -> bool {
    &&& 0 <= i < symbols.len()
    &&& symbols[i] == symbol
    &&& forall|j: int| 0 <= j < i ==> symbols[j] != symbol
}

/// `r` is the dispatcher's answer when the publisher reads `healthy`, the symbol is
/// `registered` or not, and the queue's answer was `attempt`: an unhealthy publisher refuses
/// first, then an unknown symbol, then a full queue or a stopped engine; otherwise `Ok`.
/// A refusal names `symbol` and `order_id`.
pub open spec fn answered(
    r: Result<(), DispatchError>,
    healthy: bool,
    registered: bool,
    attempt: SendAttempt,
    symbol: Seq<char>,
    order_id: u128,
) -> bool {
    &&& (r matches Err(e) ==> e.symbol_view() == symbol && e.order_id_view() == order_id)
    &&& if !healthy {
        r matches Err(DispatchError::PublisherUnhealthy { .. })
    } else if !registered {
        r matches Err(DispatchError::UnknownSymbol { .. })
    } else {
        match attempt {
            SendAttempt::Sent => r is Ok,
            SendAttempt::Full => r matches Err(DispatchError::ChannelFull { .. }),
            SendAttempt::Disconnected => r matches Err(DispatchError::EngineStopped { .. }),
        }
    }
}

/// The answer to a command about `order_id` for `symbol`, given whether the publisher is
/// `healthy`, whether the symbol is `registered`, and what its queue answered (`attempt`
/// counts only for a registered symbol of a healthy publisher).
pub fn dispatch_answer(
    symbol: &str,
    order_id: u128,
    healthy: bool,
    registered: bool,
    attempt: SendAttempt,
) -> (r: Result<(), DispatchError>)
    ensures
        answered(r, healthy, registered, attempt, symbol@, order_id),
{
    if !healthy {
        Err(DispatchError::PublisherUnhealthy { symbol: String::from_str(symbol), order_id })
    } else if !registered {
        Err(DispatchError::UnknownSymbol { symbol: String::from_str(symbol), order_id })
    } else {
        match attempt {
            SendAttempt::Sent => Ok(()),
            SendAttempt::Full => Err(DispatchError::ChannelFull { symbol: String::from_str(symbol), order_id }),
            SendAttempt::Disconnected => Err(DispatchError::EngineStopped { symbol: String::from_str(symbol), order_id }),
        }
    }
}

} // verus!
