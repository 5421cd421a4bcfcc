//! Frontend-neutral decision requests for operations that need human input.

use vstd::prelude::*;
use crate::text::{owned, opt_text, clone_opt, opt_text_equals};

verus! {

/// Stable identifier for a decision request; zero is reserved.
#[derive(Clone, Copy, Debug, PartialEq, Eq, Hash, PartialOrd, Ord, Structural)]
pub struct DecisionId(u64);

impl DecisionId {
    /// The numeric identifier.
    pub closed spec fn spec_get(self) -> u64 {
        self.0
    }

    /// Creates a non-zero decision identifier.
    pub fn new(value: u64) -> (r: Result<DecisionId, DecisionError>)
        ensures
            value == 0 <==> r is Err,
            r matches Err(e) ==> e == DecisionError::InvalidId,
            r matches Ok(id) ==> id.spec_get() == value,
    {
        if value == 0 {
            Err(DecisionError::InvalidId)
        } else {
            Ok(DecisionId(value))
        }
    }

    /// Identifiers with the same number are the same identifier.
    pub proof fn lemma_same_number_same_id(self, other: DecisionId)
        ensures
            self.spec_get() == other.spec_get() <==> self == other,
    {
    }

    /// Returns the numeric identifier.
    pub fn get(self) -> (r: u64)
        ensures
            r == self.spec_get(),
    {
        self.0
    }
}

/// Broad category of a decision request.
#[derive(Clone, Copy, Debug, PartialEq, Eq, Hash, Structural)]
pub enum DecisionKind {
    /// Destination already contains a regular file.
    ExistingFile,
    /// Destination already contains a directory.
    ExistingDirectory,
    /// Source and destination entry kinds conflict.
    TypeConflict,
    /// A host key is unknown or changed.
    HostTrust,
    /// A destructive delete requires confirmation.
    DeleteConfirmation,
    /// Authentication requires credentials or key selection.
    Authentication,
}

/// Transfer direction used to scope remembered decisions.
#[derive(Clone, Copy, Debug, PartialEq, Eq, Hash, Structural)]
pub enum DecisionDirection {
    /// Source is local and destination is remote.
    Upload,
    /// Source is remote and destination is local.
    Download,
    /// Both endpoints are local.
    Local,
    /// Direction is not meaningful for this request.
    Neutral,
}

/// Matching context for a remembered decision.
#[derive(Debug, PartialEq, Eq, Hash)]
pub struct DecisionContext {
    /// Broad request category.
    pub kind: DecisionKind,
    /// Operation direction when relevant.
    pub direction: DecisionDirection,
    /// Source backend family or stable identifier.
    pub source_backend: Option<String>,
    /// Destination backend family or stable identifier.
    pub destination_backend: Option<String>,
    /// Optional object/conflict scope supplied by the caller.
    pub object_scope: Option<String>,
}

/// Mathematical content of a decision context.
pub struct ContextView {
    /// Request category.
    pub kind: DecisionKind,
    /// Direction.
    pub direction: DecisionDirection,
    /// Source backend text.
    pub source_backend: Option<Seq<char>>,
    /// Destination backend text.
    pub destination_backend: Option<Seq<char>>,
    /// Object scope text.
    pub object_scope: Option<Seq<char>>,
}

impl View for DecisionContext {
    type V = ContextView;

    open spec fn view(&self) -> ContextView {
        ContextView {
            kind: self.kind,
            direction: self.direction,
            source_backend: opt_text(self.source_backend),
            destination_backend: opt_text(self.destination_backend),
            object_scope: opt_text(self.object_scope),
        }
    }
}

impl DecisionContext {
    /// A context scoped only by decision kind.
    pub fn kind_only(kind: DecisionKind) -> (r: DecisionContext)
        ensures
            r@ == (ContextView {
                kind,
                direction: DecisionDirection::Neutral,
                source_backend: None,
                destination_backend: None,
                object_scope: None,
            }),
    {
        DecisionContext {
            kind,
            direction: DecisionDirection::Neutral,
            source_backend: None,
            destination_backend: None,
            object_scope: None,
        }
    }

    /// Whether two contexts match exactly.
    pub fn matches(&self, other: &DecisionContext) -> (r: bool)
        ensures
            r == (self@ == other@),
    {
        self.kind == other.kind && self.direction == other.direction && opt_text_equals(
            &self.source_backend,
            &other.source_backend,
        ) && opt_text_equals(&self.destination_backend, &other.destination_backend)
            && opt_text_equals(&self.object_scope, &other.object_scope)
    }

    /// Copies the context.
    pub fn duplicate(&self) -> (r: DecisionContext)
        ensures
            r@ == self@,
    {
        DecisionContext {
            kind: self.kind,
            direction: self.direction,
            source_backend: clone_opt(&self.source_backend),
            destination_backend: clone_opt(&self.destination_backend),
            object_scope: clone_opt(&self.object_scope),
        }
    }
}

/// Action selected by the user or a remembered policy.
#[derive(Clone, Copy, Debug, PartialEq, Eq, Structural)]
pub enum DecisionChoice {
    /// Replace the destination.
    Replace,
    /// Leave the destination untouched.
    Skip,
    /// Generate a non-conflicting destination name.
    KeepBoth,
    /// Cancel the operation or request.
    Cancel,
    /// Trust only for the current connection attempt.
    TrustOnce,
    /// Persist trust when the platform/backend supports it.
    TrustAlways,
    /// Confirm a destructive delete.
    Delete,
    /// Retry the blocked operation.
    Retry,
}

/// Scope applied to a resolved decision.
#[derive(Clone, Copy, Debug, PartialEq, Eq, Structural)]
pub enum DecisionScope {
    /// Apply only to this request.
    ThisItem,
    /// Remember for matching requests for the lifetime of this center.
    AllMatching,
}

/// Pending request emitted by shared behavior.
#[derive(Debug, PartialEq, Eq)]
pub struct DecisionRequest {
    /// Stable request identifier.
    pub id: DecisionId,
    /// Decision category.
    pub kind: DecisionKind,
    /// Exact matching context used for remembered policy.
    pub context: DecisionContext,
    /// Short user-facing subject.
    pub subject: String,
    /// Detailed context shown by a native shell.
    pub detail: String,
    /// Choices valid for this request.
    pub allowed: Vec<DecisionChoice>,
}

/// Resolution returned to the blocked operation.
#[derive(Clone, Copy, Debug, PartialEq, Eq, Structural)]
pub struct DecisionResolution {
    /// Resolved request.
    pub id: DecisionId,
    /// Selected action.
    pub choice: DecisionChoice,
    /// Selected scope.
    pub scope: DecisionScope,
}

/// Decision-center failures.
#[derive(Clone, Copy, Debug, PartialEq, Eq, Structural)]
pub enum DecisionError {
    /// Identifier zero is reserved.
    InvalidId,
    /// Request must expose at least one action.
    NoChoices,
    /// Request does not exist.
    NotFound(DecisionId),
    /// Selected action is not valid for this request.
    ChoiceNotAllowed {
        /// Request being resolved.
        id: DecisionId,
        /// Rejected choice.
        choice: DecisionChoice,
    },
}

/// Remembered answer for a context: the latest entry with that context.
pub open spec fn lookup(s: Seq<(ContextView, DecisionChoice)>, k: ContextView) -> Option<DecisionChoice>
    decreases s.len(),
{
    if s.len() == 0 {
        None
    } else if s.last().0 == k {
        Some(s.last().1)
    } else {
        lookup(s.drop_last(), k)
    }
}

/// Ids of pending requests in order.
pub open spec fn pending_ids(s: Seq<DecisionRequest>) -> Seq<u64> {
    s.map_values(|r: DecisionRequest| r.id.spec_get())
}

fn contains_choice(allowed: &Vec<DecisionChoice>, choice: DecisionChoice) -> (r: bool)
    ensures
        r == allowed@.contains(choice),
{
    let mut i: usize = 0;
    while i < allowed.len()
        invariant
            i <= allowed@.len(),
            forall|j: int| 0 <= j < i ==> allowed@[j] != choice,
        decreases allowed@.len() - i,
    {
        if allowed[i] == choice {
            assert(allowed@[i as int] == choice);
            return true;
        }
        i = i + 1;
    }
    false
}

/// In-memory request queue plus session-scoped remembered answers.
#[derive(Debug)]
pub struct DecisionCenter {
    next_id: u64,
    pending: Vec<DecisionRequest>,
    remembered: Vec<(DecisionContext, DecisionChoice)>,
}

impl DecisionCenter {
    /// Identifier the next request receives.
    pub closed spec fn spec_next_id(&self) -> u64 {
        self.next_id
    }

    /// Pending requests in identifier order.
    pub closed spec fn spec_pending(&self) -> Seq<DecisionRequest> {
        self.pending@
    }

    /// Remembered answers, oldest first.
    pub closed spec fn spec_remembered(&self) -> Seq<(ContextView, DecisionChoice)> {
        self.remembered@.map_values(|e: (DecisionContext, DecisionChoice)| (e.0@, e.1))
    }

    /// Remembered answer for a context.
    pub open spec fn spec_remembered_for(&self, k: ContextView) -> Option<DecisionChoice> {
        lookup(self.spec_remembered(), k)
    }

    /// Invariant: the next id is usable and pending ids are strictly increasing
    /// and never above it.
    pub closed spec fn wf(&self) -> bool {
        &&& self.next_id >= 1
        &&& forall|i: int, j: int|
            0 <= i < j < self.pending@.len() ==> self.pending@[i].id.spec_get()
                < self.pending@[j].id.spec_get()
        &&& forall|i: int|
            0 <= i < self.pending@.len() ==> self.pending@[i].id.spec_get() <= self.next_id
        &&& forall|i: int|
            0 <= i < self.pending@.len() && self.next_id < u64::MAX ==> self.pending@[i].id.spec_get()
                < self.next_id
    }

    /// Pending requests have strictly increasing identifiers, so each
    /// identifier names at most one pending request.
    pub proof fn lemma_pending_ids_increasing(&self)
        requires
            self.wf(),
        ensures
            forall|i: int, j: int|
                0 <= i < j < self.spec_pending().len() ==> self.spec_pending()[i].id.spec_get()
                    < self.spec_pending()[j].id.spec_get(),
    {
    }

    /// Creates an empty decision center.
    pub fn new() -> (r: DecisionCenter)
        ensures
            r.wf(),
            r.spec_next_id() == 1,
            r.spec_pending().len() == 0,
            r.spec_remembered().len() == 0,
    {
        DecisionCenter { next_id: 1, pending: Vec::new(), remembered: Vec::new() }
    }

    /// Returns a remembered answer for this exact decision context.
    pub fn remembered_context(&self, context: &DecisionContext) -> (r: Option<DecisionChoice>)
        ensures
            r == self.spec_remembered_for(context@),
    {
        let n = self.remembered.len();
        let mut i: usize = n;
        assert(self.spec_remembered().subrange(0, n as int) =~= self.spec_remembered());
        while i > 0
            invariant
                i <= n == self.remembered@.len(),
                lookup(self.spec_remembered(), context@) == lookup(
                    self.spec_remembered().subrange(0, i as int),
                    context@,
                ),
            decreases i,
        {
            let ghost s = self.spec_remembered().subrange(0, i as int);
            assert(s.drop_last() =~= self.spec_remembered().subrange(0, i - 1));
            if self.remembered[i - 1].0.matches(context) {
                return Some(self.remembered[i - 1].1);
            }
            i = i - 1;
        }
        None
    }

    /// Returns the remembered answer for a context scoped only by kind.
    pub fn remembered(&self, kind: DecisionKind) -> (r: Option<DecisionChoice>)
        ensures
            r == self.spec_remembered_for(
                ContextView {
                    kind,
                    direction: DecisionDirection::Neutral,
                    source_backend: None,
                    destination_backend: None,
                    object_scope: None,
                },
            ),
    {
        self.remembered_context(&DecisionContext::kind_only(kind))
    }

    /// Emits a decision request scoped only by kind.
    pub fn request(
        &mut self,
        kind: DecisionKind,
        subject: &str,
        detail: &str,
        allowed: Vec<DecisionChoice>,
    ) -> (r: Result<(DecisionId, Option<DecisionResolution>), DecisionError>)
        requires
            old(self).wf(),
        ensures
            final(self).wf(),
            request_outcome(
                *old(self),
                *final(self),
                ContextView {
                    kind,
                    direction: DecisionDirection::Neutral,
                    source_backend: None,
                    destination_backend: None,
                    object_scope: None,
                },
                subject@,
                detail@,
                allowed@,
                r,
            ),
    {
        self.request_with_context(DecisionContext::kind_only(kind), subject, detail, allowed)
    }

    /// Emits a decision request unless a matching remembered answer exists.
    ///
    /// A remembered answer that the request allows resolves it at once with
    /// scope `AllMatching`; otherwise the request joins the pending queue.
    pub fn request_with_context(
        &mut self,
        context: DecisionContext,
        subject: &str,
        detail: &str,
        allowed: Vec<DecisionChoice>,
    ) -> (r: Result<(DecisionId, Option<DecisionResolution>), DecisionError>)
        requires
            old(self).wf(),
        ensures
            final(self).wf(),
            request_outcome(*old(self), *final(self), context@, subject@, detail@, allowed@, r),
    {
        if allowed.len() == 0 {
            return Err(DecisionError::NoChoices);
        }
        let id = match DecisionId::new(self.next_id) {
            Ok(id) => id,
            Err(e) => return Err(e),
        };
        self.next_id = self.next_id.saturating_add(1);
        match self.remembered_context(&context) {
            Some(choice) => {
                if contains_choice(&allowed, choice) {
                    return Ok(
                        (id, Some(DecisionResolution { id, choice, scope: DecisionScope::AllMatching })),
                    );
                }
            },
            None => {},
        }
        let kind = context.kind;
        let request = DecisionRequest {
            id,
            kind,
            context,
            subject: owned(subject),
            detail: owned(detail),
            allowed,
        };
        let n = self.pending.len();
        let ghost before = self.pending@;
        if n > 0 && self.pending[n - 1].id.get() == id.get() {
            self.pending.set(n - 1, request);
            assert(self.pending@.drop_last() =~= before.drop_last());
        } else {
            self.pending.push(request);
            assert(self.pending@.drop_last() =~= before);
        }
        Ok((id, None))
    }

    /// Returns pending requests in stable identifier order.
    pub fn pending(&self) -> (r: &[DecisionRequest])
        ensures
            r@ == self.spec_pending(),
    {
        self.pending.as_slice()
    }

    /// Resolves one pending request; `AllMatching` remembers the choice for its context.
    pub fn resolve(&mut self, id: DecisionId, choice: DecisionChoice, scope: DecisionScope) -> (r:
        Result<DecisionResolution, DecisionError>)
        requires
            old(self).wf(),
        ensures
            final(self).wf(),
            final(self).spec_next_id() == old(self).spec_next_id(),
            !pending_ids(old(self).spec_pending()).contains(id.spec_get()) ==> r == Err::<
                DecisionResolution,
                DecisionError,
            >(DecisionError::NotFound(id)) && *final(self) == *old(self),
            forall|i: int|
                0 <= i < old(self).spec_pending().len() && old(self).spec_pending()[i].id == id ==> {
                    let req = old(self).spec_pending()[i];
                    &&& !req.allowed@.contains(choice) ==> r == Err::<
                        DecisionResolution,
                        DecisionError,
                    >(DecisionError::ChoiceNotAllowed { id, choice }) && *final(self) == *old(self)
                    &&& req.allowed@.contains(choice) ==> {
                        &&& r == Ok::<DecisionResolution, DecisionError>(
                            DecisionResolution { id, choice, scope },
                        )
                        &&& final(self).spec_pending() == old(self).spec_pending().remove(i)
                        &&& !pending_ids(final(self).spec_pending()).contains(id.spec_get())
                        &&& scope == DecisionScope::AllMatching ==> final(self).spec_remembered()
                            == old(self).spec_remembered().push((req.context@, choice))
                        &&& scope == DecisionScope::ThisItem ==> final(self).spec_remembered()
                            == old(self).spec_remembered()
                    }
                },
    {
        let i = match self.find_pending(id) {
            Some(i) => i,
            None => {
                assert(!pending_ids(self.pending@).contains(id.spec_get())) by {
                    if pending_ids(self.pending@).contains(id.spec_get()) {
                        let k = choose|k: int|
                            0 <= k < pending_ids(self.pending@).len() && pending_ids(self.pending@)[k]
                                == id.spec_get();
                        assert(self.pending@[k].id.spec_get() == id.spec_get());
                    }
                }
                return Err(DecisionError::NotFound(id));
            },
        };
        assert(pending_ids(self.pending@)[i as int] == id.spec_get());
        if !contains_choice(&self.pending[i].allowed, choice) {
            return Err(DecisionError::ChoiceNotAllowed { id, choice });
        }
        let request = self.pending.remove(i);
        if scope == DecisionScope::AllMatching {
            self.remembered.push((request.context, choice));
            assert(self.spec_remembered() =~= old(self).spec_remembered().push((request.context@, choice)));
        }
        Ok(DecisionResolution { id, choice, scope })
    }

    fn find_pending(&self, id: DecisionId) -> (r: Option<usize>)
        ensures
            r matches Some(i) ==> i < self.pending@.len() && self.pending@[i as int].id == id,
            r is None ==> forall|j: int| 0 <= j < self.pending@.len() ==> self.pending@[j].id != id,
    {
        let n = self.pending.len();
        let mut i: usize = 0;
        while i < n
            invariant
                n == self.pending@.len(),
                i <= n,
                forall|j: int| 0 <= j < i ==> self.pending@[j].id != id,
            decreases n - i,
        {
            if self.pending[i].id.get() == id.get() {
                return Some(i);
            }
            i = i + 1;
        }
        None
    }

    /// Removes all remembered session policies.
    pub fn clear_remembered(&mut self)
        requires
            old(self).wf(),
        ensures
            final(self).wf(),
            final(self).spec_remembered().len() == 0,
            final(self).spec_pending() == old(self).spec_pending(),
            final(self).spec_next_id() == old(self).spec_next_id(),
    {
        self.remembered.clear();
    }
}

/// What a request does to the center and what it returns.
pub open spec fn request_outcome(
    before: DecisionCenter,
    after: DecisionCenter,
    context: ContextView,
    subject: Seq<char>,
    detail: Seq<char>,
    allowed: Seq<DecisionChoice>,
    r: Result<(DecisionId, Option<DecisionResolution>), DecisionError>,
) -> bool {
    let id = before.spec_next_id();
    let remembered = before.spec_remembered_for(context);
    &&& allowed.len() == 0 ==> r == Err::<(DecisionId, Option<DecisionResolution>), DecisionError>(
        DecisionError::NoChoices,
    ) && after == before
    &&& allowed.len() > 0 ==> {
        &&& r matches Ok((rid, _)) && rid.spec_get() == id
        &&& after.spec_next_id() == (if id == u64::MAX { id } else { (id + 1) as u64 })
        &&& after.spec_remembered() == before.spec_remembered()
        &&& (remembered matches Some(c) && allowed.contains(c)) ==> {
            &&& r matches Ok((rid, Some(res))) && res.id == rid && res.choice == remembered->0
                && res.scope == DecisionScope::AllMatching
            &&& after.spec_pending() == before.spec_pending()
        }
        &&& !(remembered matches Some(c) && allowed.contains(c)) ==> {
            &&& r matches Ok((rid, None)) && after.spec_pending().len() >= 1 && after.spec_pending().last().id
                == rid
            &&& after.spec_pending().len() >= 1
            &&& after.spec_pending().last().id.spec_get() == id
            &&& after.spec_pending().last().context@ == context
            &&& after.spec_pending().last().kind == context.kind
            &&& after.spec_pending().last().subject@ == subject
            &&& after.spec_pending().last().detail@ == detail
            &&& after.spec_pending().last().allowed@ == allowed
            &&& after.spec_pending().drop_last() == (if before.spec_pending().len() > 0
                && before.spec_pending().last().id.spec_get() == id {
                before.spec_pending().drop_last()
            } else {
                before.spec_pending()
            })
        }
    }
}


impl Default for DecisionCenter {
    fn default() -> (r: Self)
        ensures
            r.wf(),
            r.spec_next_id() == 1,
            r.spec_pending().len() == 0,
            r.spec_remembered().len() == 0,
    {
        DecisionCenter::new()
    }
}

} // verus!
