//! The VM service client's logic: request identifiers and method values,
//! the table that routes each response to the caller waiting for it, and
//! what a response resolves to.

use std::collections::HashMap;
use vstd::prelude::*;

verus! {

broadcast use vstd::std_specs::hash::group_hash_axioms;

/// serde_json::Value, the payload of a response: carried through unread.
#[verifier::external_type_specification]
#[verifier::external_body]
pub struct ExJsonValue(serde_json::Value);

pub struct ReassembleParams {
    pub isolate_id: String,
}

pub struct ListDevFsParams {
    pub fs_name: String,
}

pub struct DeleteDevFSParams {
    pub fs_name: String,
}

pub struct WriteDevFSParams {
    pub fs_name: String,
    pub uri: String,
    pub file_contents: String,
}

pub struct ReloadSourcesParams {
    pub isolate_id: String,
    pub pause: bool,
    pub root_lib_uri: String,
    pub packages_uri: String,
}

pub struct RegisterServiceParams {
    pub service: String,
    pub alias: String,
}

pub struct CreateDevFSParams {
    pub fs_name: String,
}

/// Methods which can be called on the VM service, each with its request id.
pub enum VMServiceMethod {
    GetVersion { id: i32 },
    GetVM { id: i32 },
    ListViews { id: i32 },
    ReloadSources { id: i32, params: ReloadSourcesParams },
    RegisterService { id: i32, params: RegisterServiceParams },
    CreateDevFS { id: i32, params: CreateDevFSParams },
    DeleteDevFS { id: i32, params: DeleteDevFSParams },
    WriteDevFSFile { id: i32, params: WriteDevFSParams },
    ListDevFS { id: i32, params: ListDevFsParams },
    Reassemble { id: i32, params: ReassembleParams },
}

impl VMServiceMethod {
    pub open spec fn spec_id(&self) -> i32 {
        match self {
            VMServiceMethod::GetVersion { id } => *id,
            VMServiceMethod::GetVM { id } => *id,
            VMServiceMethod::ListViews { id } => *id,
            VMServiceMethod::ReloadSources { id, .. } => *id,
            VMServiceMethod::RegisterService { id, .. } => *id,
            VMServiceMethod::CreateDevFS { id, .. } => *id,
            VMServiceMethod::DeleteDevFS { id, .. } => *id,
            VMServiceMethod::WriteDevFSFile { id, .. } => *id,
            VMServiceMethod::ListDevFS { id, .. } => *id,
            VMServiceMethod::Reassemble { id, .. } => *id,
        }
    }

    /// The request id the method carries.
    pub fn id(&self) -> (r: i32)
        ensures
            r == self.spec_id(),
    {
        match self {
            VMServiceMethod::GetVersion { id } => *id,
            VMServiceMethod::GetVM { id } => *id,
            VMServiceMethod::ListViews { id } => *id,
            VMServiceMethod::ReloadSources { id, .. } => *id,
            VMServiceMethod::RegisterService { id, .. } => *id,
            VMServiceMethod::CreateDevFS { id, .. } => *id,
            VMServiceMethod::DeleteDevFS { id, .. } => *id,
            VMServiceMethod::WriteDevFSFile { id, .. } => *id,
            VMServiceMethod::ListDevFS { id, .. } => *id,
            VMServiceMethod::Reassemble { id, .. } => *id,
        }
    }
}

/// Hands out the methods of one connection, numbering their requests from 0
/// upwards so that no id is used twice.
pub struct VMServiceMethods {
    id: i32,
}

impl VMServiceMethods {
    /// The id the next method will carry.
    pub closed spec fn next(&self) -> i32 {
        self.id
    }

    pub fn new() -> (r: VMServiceMethods)
        ensures
            r.next() == 0,
    {
        VMServiceMethods { id: 0 }
    }

    pub fn peek_id(&self) -> (r: i32)
        ensures
            r == self.next(),
    {
        self.id
    }

    fn next_id(&mut self) -> (r: i32)
        requires
            old(self).next() < i32::MAX,
        ensures
            r == old(self).next(),
            final(self).next() == old(self).next() + 1,
    {
        let next_id = self.id;
        self.id = self.id + 1;
        next_id
    }

    pub fn reload_sources(
        &mut self,
        isolate_id: &str,
        pause: bool,
        root_lib_uri: &str,
        packages_uri: &str,
    ) -> (r: VMServiceMethod)
        requires
            old(self).next() < i32::MAX,
        ensures
            final(self).next() == old(self).next() + 1,
            r matches VMServiceMethod::ReloadSources { id, params } && id == old(self).next()
                && params.isolate_id@ == isolate_id@ && params.pause == pause
                && params.root_lib_uri@ == root_lib_uri@ && params.packages_uri@ == packages_uri@,
    {
        VMServiceMethod::ReloadSources {
            id: self.next_id(),
            params: ReloadSourcesParams {
                isolate_id: isolate_id.to_owned(),
                pause: pause,
                root_lib_uri: root_lib_uri.to_owned(),
                packages_uri: packages_uri.to_owned(),
            },
        }
    }

    pub fn create_devfs(&mut self, fs_name: &str) -> (r: VMServiceMethod)
        requires
            old(self).next() < i32::MAX,
        ensures
            final(self).next() == old(self).next() + 1,
            r matches VMServiceMethod::CreateDevFS { id, params } && id == old(self).next()
                && params.fs_name@ == fs_name@,
    {
        VMServiceMethod::CreateDevFS {
            id: self.next_id(),
            params: CreateDevFSParams { fs_name: fs_name.to_owned() },
        }
    }

    pub fn list_views(&mut self) -> (r: VMServiceMethod)
        requires
            old(self).next() < i32::MAX,
        ensures
            final(self).next() == old(self).next() + 1,
            r matches VMServiceMethod::ListViews { id } && id == old(self).next(),
    {
        VMServiceMethod::ListViews { id: self.next_id() }
    }

    pub fn register_service(&mut self, service: &str, alias: &str) -> (r: VMServiceMethod)
        requires
            old(self).next() < i32::MAX,
        ensures
            final(self).next() == old(self).next() + 1,
            r matches VMServiceMethod::RegisterService { id, params } && id == old(self).next()
                && params.service@ == service@ && params.alias@ == alias@,
    {
        VMServiceMethod::RegisterService {
            id: self.next_id(),
            params: RegisterServiceParams { alias: alias.to_owned(), service: service.to_owned() },
        }
    }

    pub fn delete_devfs(&mut self, fs_name: &str) -> (r: VMServiceMethod)
        requires
            old(self).next() < i32::MAX,
        ensures
            final(self).next() == old(self).next() + 1,
            r matches VMServiceMethod::DeleteDevFS { id, params } && id == old(self).next()
                && params.fs_name@ == fs_name@,
    {
        VMServiceMethod::DeleteDevFS {
            id: self.next_id(),
            params: DeleteDevFSParams { fs_name: fs_name.to_owned() },
        }
    }

    pub fn reassemble(&mut self, isolate_id: &str) -> (r: VMServiceMethod)
        requires
            old(self).next() < i32::MAX,
        ensures
            final(self).next() == old(self).next() + 1,
            r matches VMServiceMethod::Reassemble { id, params } && id == old(self).next()
                && params.isolate_id@ == isolate_id@,
    {
        VMServiceMethod::Reassemble {
            id: self.next_id(),
            params: ReassembleParams { isolate_id: isolate_id.to_owned() },
        }
    }
}

/// A decoded inbound frame: its id, and the result or the error it carries.
pub struct Response {
    pub id: i32,
    pub result: Option<serde_json::Value>,
    pub error: Option<serde_json::Value>,
}

impl Response {
    /// What a call resolves to: its result payload, or else the error
    /// payload, if any.
    pub fn into_call_result(self) -> (r: Result<serde_json::Value, Option<serde_json::Value>>)
        ensures
            self.result matches Some(v) ==> r == Ok::<
                serde_json::Value,
                Option<serde_json::Value>,
            >(v),
            self.result is None ==> r == Err::<serde_json::Value, Option<serde_json::Value>>(
                self.error,
            ),
    {
        match self.result {
            Some(v) => Ok(v),
            None => Err(self.error),
        }
    }

    /// What a notification resolves to: only its error slot is read.
    pub fn into_notification_result(self) -> (r: Result<(), serde_json::Value>)
        ensures
            self.error matches Some(e) ==> r == Err::<(), serde_json::Value>(e),
            self.error is None ==> r is Ok,
    {
        match self.error {
            Some(e) => Err(e),
            None => Ok(()),
        }
    }
}

/// The table after a response with id `id` arrived, and the completion slot
/// it was handed to: the one registered under `id`, which leaves the table,
/// or none, and then the table stays as it was.
pub open spec fn completed<S>(m: Map<i32, S>, id: i32) -> (Map<i32, S>, Option<S>) {
    if m.contains_key(id) {
        (m.remove(id), Some(m[id]))
    } else {
        (m, None)
    }
}

/// The slots that responses arriving with the ids `order`, one after the
/// other, are handed to.
pub open spec fn deliveries<S>(m: Map<i32, S>, order: Seq<i32>) -> Seq<Option<S>>
    decreases order.len(),
{
    if order.len() == 0 {
        Seq::empty()
    } else {
        let (m2, r) = completed(m, order[0]);
        seq![r] + deliveries(m2, order.drop_first())
    }
}

/// The outstanding requests of one connection, each with the completion
/// slot of the caller that waits for its response.
pub struct VMServiceCoordinator<S> {
    pending: HashMap<i32, S>,
}

impl<S> VMServiceCoordinator<S> {
    pub closed spec fn pending(&self) -> Map<i32, S> {
        self.pending@
    }

    pub fn new() -> (r: VMServiceCoordinator<S>)
        ensures
            r.pending() == Map::<i32, S>::empty(),
    {
        VMServiceCoordinator { pending: HashMap::new() }
    }

    /// Registers `slot` as the waiter for the response to `method`.
    pub fn post_job(&mut self, method: &VMServiceMethod, slot: S)
        ensures
            final(self).pending() == old(self).pending().insert(method.spec_id(), slot),
    {
        let id = method.id();
        self.pending.insert(id, slot);
    }

    /// Routes the response with id `id`: the slot registered under it leaves
    /// the table and is returned; with none registered the response is
    /// dropped and no other slot is touched.
    pub fn complete_job(&mut self, id: i32) -> (r: Option<S>)
        ensures
            (final(self).pending(), r) == completed(old(self).pending(), id),
    {
        self.pending.remove(&id)
    }

    pub fn is_pending(&self, id: i32) -> (r: bool)
        ensures
            r == self.pending().contains_key(id),
    {
        self.pending.contains_key(&id)
    }
}

/// Responses reach their callers by id alone: whatever order they arrive
/// in, the response with id `order[k]` is handed to the slot registered
/// under that id, unless an earlier response with the same id took it or
/// none was registered, and then it is dropped.
pub proof fn lemma_routing_by_id<S>(m: Map<i32, S>, order: Seq<i32>)
    ensures
        deliveries(m, order).len() == order.len(),
        forall|k: int|
            0 <= k < order.len() ==> #[trigger] deliveries(m, order)[k] == if m.contains_key(
                order[k],
            ) && !order.subrange(0, k).contains(order[k]) {
                Some(m[order[k]])
            } else {
                None
            },
    decreases order.len(),
{
    if order.len() > 0 {
        let (m2, r) = completed(m, order[0]);
        let rest = order.drop_first();
        lemma_routing_by_id(m2, rest);
        assert forall|k: int| 0 <= k < order.len() implies #[trigger] deliveries(m, order)[k]
            == if m.contains_key(order[k]) && !order.subrange(0, k).contains(order[k]) {
            Some(m[order[k]])
        } else {
            None
        } by {
            if k > 0 {
                assert(deliveries(m, order)[k] == deliveries(m2, rest)[k - 1]);
                assert(rest[k - 1] == order[k]);
                assert(order.subrange(0, k) =~= seq![order[0]] + rest.subrange(0, k - 1));
                if order[k] == order[0] {
                    assert(order.subrange(0, k)[0] == order[k]);
                } else {
                    assert(m2.contains_key(order[k]) == m.contains_key(order[k]));
                    if order.subrange(0, k).contains(order[k]) {
                        let j = choose|j: int| 0 <= j < k && #[trigger] order.subrange(0, k)[j] == order[k];
                        assert(j > 0);
                        assert(rest.subrange(0, k - 1)[j - 1] == order[k]);
                    }
                    if rest.subrange(0, k - 1).contains(order[k]) {
                        let j = choose|j: int|
                            0 <= j < k - 1 && #[trigger] rest.subrange(0, k - 1)[j] == order[k];
                        assert(order.subrange(0, k)[j + 1] == order[k]);
                    }
                }
            } else {
                assert(order.subrange(0, 0) =~= Seq::<i32>::empty());
            }
        }
    }
}

} // verus!
