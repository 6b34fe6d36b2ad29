//! The calling context that the host supplies with every call.

use vstd::prelude::*;
use vstd::string::*;

verus! {

/// What the host knows about a call: who makes it, which entity receives it,
/// what payment comes with it, and when it happens.
#[derive(Debug)]
pub struct Context {
    /// The account that makes the call.
    pub caller: String,
    /// The account of the entity that receives the call.
    pub current: String,
    /// The payment attached to the call.
    pub attached: u128,
    /// The reading of the host's clock.
    pub now: u64,
}

/// The mathematical content of a [`Context`].
pub struct ContextView {
    pub caller: Seq<char>,
    pub current: Seq<char>,
    pub attached: nat,
    pub now: nat,
}

impl ContextView {
    /// A callback is a call that an entity receives from its own account:
    /// only the host's delivery of an answer to an earlier request has that
    /// shape.
    pub open spec fn is_callback(self) -> bool {
        self.caller == self.current
    }
}

impl View for Context {
    type V = ContextView;

    open spec fn view(&self) -> ContextView {
        ContextView {
            caller: self.caller@,
            current: self.current@,
            attached: self.attached as nat,
            now: self.now as nat,
        }
    }
}

impl Context {
    /// A context with the given caller, receiving entity, payment and time.
    pub fn new(caller: &str, current: &str, attached: u128, now: u64) -> (ctx: Context)
        ensures
            ctx@ == (ContextView {
                caller: caller@,
                current: current@,
                attached: attached as nat,
                now: now as nat,
            }),
    {
        Context { caller: caller.to_owned(), current: current.to_owned(), attached, now }
    }

    /// Whether the call is the host's delivery of a callback.
    pub fn is_callback(&self) -> (r: bool)
        ensures
            r == self@.is_callback(),
    {
        self.caller == self.current
    }
}

} // verus!
