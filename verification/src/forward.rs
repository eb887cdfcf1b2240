//! Where messages go.

use vstd::prelude::*;

verus! {

/// Where a message is sent.
#[derive(Debug, Clone, Copy, PartialEq, Eq, Structural)]
pub enum Target {
    /// To the raw client with this number.
    RawClient(u64),
    /// Into the grpc pipeline.
    Grpc,
}

/// What is to be noted once a message was sent.
#[derive(Debug, Clone, Copy, PartialEq, Eq, Structural)]
pub enum SendNote {
    Nothing,
    /// A raw client is gone, which is worth a warning.
    RawClientDisconnected(u64),
    /// The queue of the grpc pipeline grew by one.
    QueueGrew,
}

/// Where a message goes: to each raw client in turn, then into the grpc pipeline. Where the list
/// of raw clients cannot be read, to the pipeline alone.
pub open spec fn targets(raw_clients: Option<Seq<u64>>) -> Seq<Target> {
    match raw_clients {
        Some(ids) => ids.map_values(|id: u64| Target::RawClient(id)).push(Target::Grpc),
        None => seq![Target::Grpc],
    }
}

/// Says where a message goes.
pub fn forward_message(raw_clients: Option<&[u64]>) -> (sends: Vec<Target>)
    ensures
        sends@ == targets(
            match raw_clients {
                Some(ids) => Some(ids@),
                None => None,
            },
        ),
{
    let mut sends: Vec<Target> = Vec::new();
    match raw_clients {
        Some(ids) => {
            let mut i: usize = 0;
            while i < ids.len()
                invariant
                    i <= ids@.len(),
                    sends@ == ids@.take(i as int).map_values(|id: u64| Target::RawClient(id)),
                decreases ids@.len() - i,
            {
                sends.push(Target::RawClient(ids[i]));
                i += 1;
                assert(sends@ =~= ids@.take(i as int).map_values(|id: u64| Target::RawClient(id)));
            }
            assert(ids@.take(i as int) =~= ids@);
        },
        None => {},
    }
    sends.push(Target::Grpc);
    sends
}

/// What is to be noted once a message was sent to a target, or could not be.
pub fn note_of(target: Target, sent: bool) -> (note: SendNote)
    ensures
        note == match target {
            Target::RawClient(id) => if sent {
                SendNote::Nothing
            } else {
                SendNote::RawClientDisconnected(id)
            },
            Target::Grpc => if sent {
                SendNote::QueueGrew
            } else {
                SendNote::Nothing
            },
        },
{
    match target {
        Target::RawClient(id) => if sent {
            SendNote::Nothing
        } else {
            SendNote::RawClientDisconnected(id)
        },
        Target::Grpc => if sent {
            SendNote::QueueGrew
        } else {
            SendNote::Nothing
        },
    }
}

/// Every message goes into the grpc pipeline once, after all raw clients had it.
pub proof fn law_grpc_comes_last(raw_clients: Option<Seq<u64>>)
    ensures
        targets(raw_clients).last() == Target::Grpc,
        forall|i: int|
            0 <= i < targets(raw_clients).len() - 1 ==> #[trigger] targets(raw_clients)[i]
                == Target::RawClient(raw_clients.unwrap()[i]),
{
}

} // verus!
