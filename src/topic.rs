//! Topics that the node's subscription service publishes.

use vstd::prelude::*;

verus! {

/// A notification topic.
#[derive(Clone, Copy, Debug, PartialEq, Eq, Structural, Hash)]
pub enum Topic {
    NewTipHeader,
    NewTipBlock,
    NewTransaction,
}

/// The topic's name on the wire, in snake case.
pub open spec fn topic_name(t: Topic) -> Seq<char> {
    match t {
        Topic::NewTipHeader => "new_tip_header"@,
        Topic::NewTipBlock => "new_tip_block"@,
        Topic::NewTransaction => "new_transaction"@,
    }
}

impl Topic {
    /// The name a `subscribe` request carries for this topic.
    pub fn name(&self) -> (r: &'static str)
        ensures
            r@ == topic_name(*self),
    {
        match self {
            Topic::NewTipHeader => "new_tip_header",
            Topic::NewTipBlock => "new_tip_block",
            Topic::NewTransaction => "new_transaction",
        }
    }
}

} // verus!
