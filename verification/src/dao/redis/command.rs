//! What the ephemeral tier can be asked to do, one round trip at a time.
use vstd::prelude::*;

verus! {

/// One order to the ephemeral tier.
#[derive(Debug, PartialEq, Eq)]
pub enum RdCommand {
    /// Count the members of a set.
    Scard { set: String },
    /// Add a member to a set.
    Sadd { set: String, member: String },
    /// Remove a member from a set.
    Srem { set: String, member: String },
    /// Ask whether a set holds a member.
    Sismember { set: String, member: String },
    /// List the members of a set.
    Smembers { set: String },
    /// Draw one member of a set at random.
    Srandmember { set: String },
    /// Put a member into an ordered set with a score, or give it a new score.
    Zadd { zset: String, member: String, score: u64 },
    /// Remove from an ordered set every member whose score is at most `max`.
    Zrembyscore { zset: String, max: u64 },
    /// Ask for the rank of a member of an ordered set.
    Zrank { zset: String, member: String },
}

/// What an [`RdCommand`] is to a contract.
pub enum RdCommandView {
    Scard { set: Seq<char> },
    Sadd { set: Seq<char>, member: Seq<char> },
    Srem { set: Seq<char>, member: Seq<char> },
    Sismember { set: Seq<char>, member: Seq<char> },
    Smembers { set: Seq<char> },
    Srandmember { set: Seq<char> },
    Zadd { zset: Seq<char>, member: Seq<char>, score: u64 },
    Zrembyscore { zset: Seq<char>, max: u64 },
    Zrank { zset: Seq<char>, member: Seq<char> },
}

impl View for RdCommand {
    type V = RdCommandView;

    open spec fn view(&self) -> RdCommandView {
        match self {
            RdCommand::Scard { set } => RdCommandView::Scard { set: set@ },
            RdCommand::Sadd { set, member } => RdCommandView::Sadd { set: set@, member: member@ },
            RdCommand::Srem { set, member } => RdCommandView::Srem { set: set@, member: member@ },
            RdCommand::Sismember { set, member } => RdCommandView::Sismember {
                set: set@,
                member: member@,
            },
            RdCommand::Smembers { set } => RdCommandView::Smembers { set: set@ },
            RdCommand::Srandmember { set } => RdCommandView::Srandmember { set: set@ },
            RdCommand::Zadd { zset, member, score } => RdCommandView::Zadd {
                zset: zset@,
                member: member@,
                score: *score,
            },
            RdCommand::Zrembyscore { zset, max } => RdCommandView::Zrembyscore {
                zset: zset@,
                max: *max,
            },
            RdCommand::Zrank { zset, member } => RdCommandView::Zrank {
                zset: zset@,
                member: member@,
            },
        }
    }
}

} // verus!
