//! The cancellation handles of the running workflows, by workflow id.

use vstd::prelude::*;
use tokio::sync::oneshot::Sender;
use crate::strmap::StrMap;

verus! {

#[verifier::external_type_specification]
#[verifier::external_body]
#[verifier::reject_recursive_types(T)]
pub struct ExSender<T>(Sender<T>);

/// `tokio::sync::oneshot::Sender::send` with the unit value: hands the
/// cancellation to the workflow's receiver. Whether the receiver was still
/// there is not reported, and nothing is claimed of it.
#[verifier::external_body]
fn send_cancel(tx: Sender<()>) {
    let _ = tx.send(());
}

/// Handle to control a running workflow.
pub struct WorkflowHandle {
    pub cancel_tx: Sender<()>,
}

/// The cancellation handles of the running workflows.
pub struct CancelTable {
    pub senders: StrMap<Sender<()>>,
}

impl CancelTable {
    /// No workflow.
    pub fn new() -> (r: CancelTable)
        ensures
            r.senders.wf(),
            r.senders@.dom() == Set::<Seq<char>>::empty(),
    {
        CancelTable { senders: StrMap::new() }
    }

    /// Keeps the cancellation handle of workflow `id` (in place of an
    /// earlier one of that id).
    pub fn register(&mut self, id: String, tx: Sender<()>)
        requires
            old(self).senders.wf(),
        ensures
            final(self).senders.wf(),
            final(self).senders@ == old(self).senders@.insert(id@, tx),
    {
        self.senders.insert(id, tx);
    }

    /// Requests the cancellation of workflow `id`: true, and its handle
    /// used up, when it is there; false otherwise.
    pub fn cancel_workflow(&mut self, id: &str) -> (r: bool)
        requires
            old(self).senders.wf(),
        ensures
            final(self).senders.wf(),
            r == old(self).senders@.dom().contains(id@),
            final(self).senders@ == old(self).senders@.remove(id@),
    {
        match self.senders.remove(id) {
            Some(tx) => {
                send_cancel(tx);
                true
            },
            None => false,
        }
    }

    /// Requests the cancellation of every workflow; none is left.
    pub fn cancel_all(&mut self)
        requires
            old(self).senders.wf(),
        ensures
            final(self).senders.wf(),
            final(self).senders@.dom() == Set::<Seq<char>>::empty(),
    {
        let ids = self.senders.keys();
        let mut i: usize = 0;
        while i < ids.len()
            invariant
                self.senders.wf(),
                i <= ids@.len(),
                forall|k: Seq<char>| #[trigger] self.senders@.dom().contains(k) ==> exists|j: int| i <= j < ids@.len() && #[trigger] ids@[j]@ == k,
            decreases ids@.len() - i,
        {
            let ghost before = self.senders@;
            self.cancel_workflow(ids[i].as_str());
            assert forall|k: Seq<char>| #[trigger] self.senders@.dom().contains(k) implies exists|j: int| i + 1 <= j < ids@.len() && #[trigger] ids@[j]@ == k by {
                assert(before.dom().contains(k));
                let j = choose|j: int| i <= j < ids@.len() && #[trigger] ids@[j]@ == k;
                assert(j != i);
            }
            i = i + 1;
        }
        assert(self.senders@.dom() =~= Set::<Seq<char>>::empty());
    }
}


/// After a workflow's cancellation was requested, its handle is gone: a
/// second request for it answers false.
pub proof fn law_cancellation_is_used_once(before: Map<Seq<char>, Sender<()>>, after: Map<Seq<char>, Sender<()>>, id: Seq<char>)
    requires
        after == before.remove(id),
    ensures
        !after.dom().contains(id),
{
}

} // verus!
